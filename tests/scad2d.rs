use tgdscad::{v2, v3, ColorEnum, DIterator, D2, D3, X, XY};

fn x(v: i32) -> X {
    X::from(v)
}

fn c5() -> D2 {
    D2::circle(x(5))
}

fn s9() -> D2 {
    D2::square(x(9))
}

#[test]
fn test_circle() {
    assert_eq!(c5().scad(), "circle(d = 5);");
}

#[test]
fn scad2d_test_cylinder() {
    assert_eq!(D3::cylinder(x(10), x(5)).scad(), "cylinder(h = 10, r = 5);");
}

#[test]
fn test_square() {
    assert_eq!(s9().scad(), "square(size = 9);");
}

#[test]
fn scad2d_test_add() {
    assert_eq!(
        D2::circle(x(5)).add(D2::square(x(9))).scad(),
        "union() {\n  circle(d = 5);\n  square(size = 9);\n}"
    );
}

#[test]
fn scad2d_test_color() {
    assert_eq!(
        D2::circle(x(7)).add(D2::square(x(9))).color(ColorEnum::Red).scad(),
        "color(\"red\") {\n  union() {\n    circle(d = 7);\n    square(size = 9);\n  }\n}"
    );
}

#[test]
fn scad2d_test_iter_translate() {
    assert_eq!(c5().iter_translate(v2(x(1), x(2)), 4).union().scad(),
        "union() {\n  translate(v = [0, 0]) {\n    circle(d = 5);\n  }\n  translate(v = [1, 2]) {\n    circle(d = 5);\n  }\n  translate(v = [2, 4]) {\n    circle(d = 5);\n  }\n  translate(v = [3, 6]) {\n    circle(d = 5);\n  }\n}"
    );
}

#[test]
fn scad2d_test_iter_rotate() {
    assert_eq!(s9().iter_rotate(x(20), 4).sum().scad(),
        "union() {\n  rotate(0) {\n    square(size = 9);\n  }\n  rotate(20) {\n    square(size = 9);\n  }\n  rotate(40) {\n    square(size = 9);\n  }\n  rotate(60) {\n    square(size = 9);\n  }\n}"
    );
}

#[test]
fn scad2d_test_intersection() {
    assert_eq!(s9().iter_rotate(x(20), 4).product().scad(),
        "intersection() {\n  rotate(0) {\n    square(size = 9);\n  }\n  rotate(20) {\n    square(size = 9);\n  }\n  rotate(40) {\n    square(size = 9);\n  }\n  rotate(60) {\n    square(size = 9);\n  }\n}"
    );
}

#[test]
fn scad2d_test_union() {
    assert_eq!(s9().iter_rotate(x(20), 4).union().scad(),
        "union() {\n  rotate(0) {\n    square(size = 9);\n  }\n  rotate(20) {\n    square(size = 9);\n  }\n  rotate(40) {\n    square(size = 9);\n  }\n  rotate(60) {\n    square(size = 9);\n  }\n}"
    );
}

#[test]
fn test_add_map() {
    assert_eq!(s9().iter_rotate(x(20), 4).union().add_map(|s| s.mirror(v2(x(1), x(0)))).scad(),
        "union() {\n  rotate(0) {\n    square(size = 9);\n  }\n  rotate(20) {\n    square(size = 9);\n  }\n  rotate(40) {\n    square(size = 9);\n  }\n  rotate(60) {\n    square(size = 9);\n  }\n  mirror(v = [1, 0]) {\n    union() {\n      rotate(0) {\n        square(size = 9);\n      }\n      rotate(20) {\n        square(size = 9);\n      }\n      rotate(40) {\n        square(size = 9);\n      }\n      rotate(60) {\n        square(size = 9);\n      }\n    }\n  }\n}"
    );
}

#[test]
fn test_union_union() {
    assert_eq!(s9().iter_rotate(x(20), 4).union().add(D2::circle(x(5))).scad(),
        "union() {\n  rotate(0) {\n    square(size = 9);\n  }\n  rotate(20) {\n    square(size = 9);\n  }\n  rotate(40) {\n    square(size = 9);\n  }\n  rotate(60) {\n    square(size = 9);\n  }\n  circle(d = 5);\n}"
    );
}

#[test]
fn test_d2_add_op() {
    assert_eq!((D2::square(x(9)) + D2::circle(x(5))).scad(),
        "union() {\n  square(size = 9);\n  circle(d = 5);\n}"
    );
}

#[test]
fn test_d2_sub_op() {
    assert_eq!((D2::square(x(9)) - D2::circle(x(5))).scad(),
        "difference() {\n  square(size = 9);\n  circle(d = 5);\n}"
    );
}

#[test]
fn test_d3_add_op() {
    assert_eq!((D3::cube(x(9)) + D3::sphere(x(5))).scad(),
        "union() {\n  cube(size = 9);\n  sphere(r = 5);\n}"
    );
}

#[test]
fn test_d3_sub_op() {
    assert_eq!((D3::cube(x(9)) - D3::spheroid(v3(x(5), x(4), x(3)))).scad(),
        "difference() {\n  cube(size = 9);\n  scale(v = [5, 4, 3]) {\n    sphere(r = 1);\n  }\n}"
    );
}

#[test]
fn test_iter_hull() {
    assert_eq!(s9().iter_rotate(x(20), 4).hull().scad(),
        "hull() {\n  rotate(0) {\n    square(size = 9);\n  }\n  rotate(20) {\n    square(size = 9);\n  }\n  rotate(40) {\n    square(size = 9);\n  }\n  rotate(60) {\n    square(size = 9);\n  }\n}"
    );
}

#[test]
fn test_iter_minkowski() {
    assert_eq!(s9().iter_rotate(x(20), 4).minkowski().scad(),
        "minkowski() {\n  rotate(0) {\n    square(size = 9);\n  }\n  rotate(20) {\n    square(size = 9);\n  }\n  rotate(40) {\n    square(size = 9);\n  }\n  rotate(60) {\n    square(size = 9);\n  }\n}"
    );
}

#[test]
fn test_iter_union() {
    assert_eq!(s9().iter_rotate(x(20), 4).union().scad(),
        "union() {\n  rotate(0) {\n    square(size = 9);\n  }\n  rotate(20) {\n    square(size = 9);\n  }\n  rotate(40) {\n    square(size = 9);\n  }\n  rotate(60) {\n    square(size = 9);\n  }\n}"
    );
}

#[test]
fn test_iter_intersection() {
    assert_eq!(s9().iter_rotate(x(20), 4).intersection().scad(),
        "intersection() {\n  rotate(0) {\n    square(size = 9);\n  }\n  rotate(20) {\n    square(size = 9);\n  }\n  rotate(40) {\n    square(size = 9);\n  }\n  rotate(60) {\n    square(size = 9);\n  }\n}"
    );
}

#[test]
fn test_linear_extrude() {
    assert_eq!(s9().iter_rotate(x(20), 4).intersection().linear_extrude(x(10)).scad(),
        "linear_extrude(height = 10) {\n  intersection() {\n    rotate(0) {\n      square(size = 9);\n    }\n    rotate(20) {\n      square(size = 9);\n    }\n    rotate(40) {\n      square(size = 9);\n    }\n    rotate(60) {\n      square(size = 9);\n    }\n  }\n}"
    );
}

#[test]
fn test_rotate_extrude() {
    assert_eq!(s9().iter_rotate(x(20), 4).intersection().rotate_extrude(x(180)).scad(),
        "rotate_extrude(angle = 180) {\n  intersection() {\n    rotate(0) {\n      square(size = 9);\n    }\n    rotate(20) {\n      square(size = 9);\n    }\n    rotate(40) {\n      square(size = 9);\n    }\n    rotate(60) {\n      square(size = 9);\n    }\n  }\n}"
    );
}

#[test]
fn test_iter_rotate_rotate() {
    let turned: Vec<D2> = s9().iter_rotate(x(20), 4).into_iter().map(|s| s.rotate(x(10))).collect();
    assert_eq!(turned.hull().scad(),
        "hull() {\n  rotate(10) {\n    square(size = 9);\n  }\n  rotate(30) {\n    square(size = 9);\n  }\n  rotate(50) {\n    square(size = 9);\n  }\n  rotate(70) {\n    square(size = 9);\n  }\n}"
    );
}

#[test]
fn test_iter_translate_translate() {
    let moved: Vec<D2> = c5()
        .iter_translate(v2(x(1), x(2)), 4)
        .into_iter()
        .map(|s| s.translate(v2(x(-1), x(-1))))
        .collect();
    assert_eq!(moved.union().scad(),
        "union() {\n  translate(v = [-1, -1]) {\n    circle(d = 5);\n  }\n  translate(v = [0, 1]) {\n    circle(d = 5);\n  }\n  translate(v = [1, 3]) {\n    circle(d = 5);\n  }\n  translate(v = [2, 5]) {\n    circle(d = 5);\n  }\n}"
    );
}

#[test]
fn test_triangle() {
    assert_eq!(D2::triangle(v2(x(0), x(0)), v2(x(1), x(0)), v2(x(0), x(1))).scad(),
        "polygon(points = [ [0, 0], [1, 0], [0, 1] ]);");
}

#[test]
fn test_triangle2() {
    assert_eq!(D2::triangle2((x(0), x(0)), (x(1), x(0)), (x(0), x(1))).scad(),
        "polygon(points = [ [0, 0], [1, 0], [0, 1] ]);");
    let p1: XY = v2(x(1), x(0));
    assert_eq!(D2::triangle2((x(0), x(0)), (p1.0, p1.1), (x(0), x(1))).scad(),
        "polygon(points = [ [0, 0], [1, 0], [0, 1] ]);");
}

#[test]
fn test_polygon() {
    assert_eq!(D2::polygon(vec![v2(x(0), x(0)), v2(x(1), x(0)), v2(x(0), x(1))]).scad(),
        "polygon(points = [ [0, 0], [1, 0], [0, 1] ]);");
}

#[test]
fn test_polygon2() {
    let pts: Vec<(X, X)> = vec![(x(0), x(0)), (x(1), x(0)), (x(0), x(1))];
    assert_eq!(D2::polygon2(pts.clone()).scad(),
        "polygon(points = [ [0, 0], [1, 0], [0, 1] ]);");
    assert_eq!(D2::polygon2(vec![(x(0), x(0)), (x(1), x(0)), (x(0), x(1))]).scad(),
        "polygon(points = [ [0, 0], [1, 0], [0, 1] ]);");
    assert_eq!(D2::polygon2(vec![(X::from(0u32), X::from(0u32)), (X::from(1u32), X::from(0u32)), (X::from(0u32), X::from(1u32))]).scad(),
        "polygon(points = [ [0, 0], [1, 0], [0, 1] ]);");
}
