use tgdscad::{v3, ColorEnum, DIterator, D3, X};

fn x(v: i32) -> X {
    X::from(v)
}

#[test]
fn test_sphere() {
    assert_eq!(D3::sphere(x(5)).scad(), "sphere(r = 5);");
}

#[test]
fn scad3d_test_cylinder() {
    assert_eq!(D3::cylinder(x(10), x(5)).scad(), "cylinder(h = 10, r = 5);");
}

#[test]
fn test_cube() {
    assert_eq!(D3::cube(x(9)).scad(), "cube(size = 9);");
}

#[test]
fn scad3d_test_add() {
    assert_eq!(D3::sphere(x(5)).add(D3::cube(x(9))).scad(),
        "union() {\n  sphere(r = 5);\n  cube(size = 9);\n}");
}

#[test]
fn scad3d_test_color() {
    assert_eq!(D3::sphere(x(7)).add(D3::cube(x(9))).color(ColorEnum::Red).scad(),
        "color(\"red\") {\n  union() {\n    sphere(r = 7);\n    cube(size = 9);\n  }\n}"
    );
}

#[test]
fn scad3d_test_iter_translate() {
    assert_eq!(D3::cube(x(3)).iter_translate(v3(x(1), x(2), x(3)), 4).union().scad(),
        "union() {\n  translate(v = [0, 0, 0]) {\n    cube(size = 3);\n  }\n  translate(v = [1, 2, 3]) {\n    cube(size = 3);\n  }\n  translate(v = [2, 4, 6]) {\n    cube(size = 3);\n  }\n  translate(v = [3, 6, 9]) {\n    cube(size = 3);\n  }\n}"
    );
}

#[test]
fn scad3d_test_iter_rotate() {
    assert_eq!(D3::cube(x(3)).iter_rotate(v3(x(10), x(20), x(30)), 4).sum().scad(),
        "union() {\n  rotate([0, 0, 0]) {\n    cube(size = 3);\n  }\n  rotate([10, 20, 30]) {\n    cube(size = 3);\n  }\n  rotate([20, 40, 60]) {\n    cube(size = 3);\n  }\n  rotate([30, 60, 90]) {\n    cube(size = 3);\n  }\n}"
    );
}

#[test]
fn scad3d_test_intersection() {
    assert_eq!(D3::cube(x(3)).iter_rotate(v3(x(10), x(20), x(30)), 4).product().scad(),
        "intersection() {\n  rotate([0, 0, 0]) {\n    cube(size = 3);\n  }\n  rotate([10, 20, 30]) {\n    cube(size = 3);\n  }\n  rotate([20, 40, 60]) {\n    cube(size = 3);\n  }\n  rotate([30, 60, 90]) {\n    cube(size = 3);\n  }\n}"
    );
}

#[test]
fn scad3d_test_union() {
    assert_eq!(D3::cube(x(3)).iter_rotate(v3(x(10), x(20), x(30)), 4).union().scad(),
        "union() {\n  rotate([0, 0, 0]) {\n    cube(size = 3);\n  }\n  rotate([10, 20, 30]) {\n    cube(size = 3);\n  }\n  rotate([20, 40, 60]) {\n    cube(size = 3);\n  }\n  rotate([30, 60, 90]) {\n    cube(size = 3);\n  }\n}"
    );
}

#[test]
fn test_polyhedron() {
    assert_eq!(D3::polyhedron(vec![
            v3(x(0), x(0), x(0)),
            v3(x(10), x(0), x(0)),
            v3(x(10), x(7), x(0)),
            v3(x(0), x(7), x(0)),
            v3(x(0), x(0), x(5)),
            v3(x(10), x(0), x(5)),
            v3(x(10), x(7), x(5)),
            v3(x(0), x(7), x(5))]
        ).scad(),
        "polyhedron(points = [[0.0, 0.0, 0.0], [10.0, 0.0, 0.0], [10.0, 7.0, 0.0], [0.0, 7.0, 0.0], [0.0, 0.0, 5.0], [10.0, 0.0, 5.0], [10.0, 7.0, 5.0], [0.0, 7.0, 5.0]], faces = [[0, 1, 2]]);"
    );
}
