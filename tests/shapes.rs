use tgdscad::{v2, v3, Aim, DIterator, D2, D3, X, XY, XYZ};

fn x(v: i32) -> X {
    X::from(v)
}

#[test]
fn scalars_render_shortest_decimal() {
    assert_eq!(X::from_millionths(2_500_000).to_string(), "2.5");
    assert_eq!(X::from_millionths(-125_000).to_string(), "-0.125");
    assert_eq!(X::from_millionths(1).to_string(), "0.000001");
    assert_eq!(X::from_millionths(0).to_string(), "0");
    assert_eq!(X::from_int(5).to_string(), "5");
    assert_eq!(X::from(7u32).to_string(), "7");
    assert_eq!(X::from_millionths(i64::MIN).to_string(), "-9223372036854.775808");
}

#[test]
fn scalar_arithmetic_is_exact() {
    let a = X::from_millionths(100_000);
    let b = X::from_millionths(200_000);
    assert_eq!(a.plus(b).to_string(), "0.3");
    assert_eq!(a.minus(b).to_string(), "-0.1");
    assert_eq!(a.times(-3).to_string(), "-0.3");
}

#[test]
fn vectors_render_as_lists() {
    assert_eq!(v2(x(1), x(-2)).to_string(), "[1, -2]");
    assert_eq!(XY(x(3), x(6)).plus(v2(x(1), x(1))).to_string(), "[4, 7]");
    assert_eq!(v2(x(1), x(2)).times(3).to_string(), "[3, 6]");
    assert_eq!(v3(x(1), x(2), x(4)).times(3).to_string(), "[3, 6, 12]");
    assert_eq!(XYZ(x(1), x(2), x(3)).plus(v3(x(1), x(1), x(1))).to_string(), "[2, 3, 4]");
}

#[test]
fn integer_square_root_rounds_down() {
    assert_eq!(tgdscad::number::isqrt(0), 0);
    assert_eq!(tgdscad::number::isqrt(15), 3);
    assert_eq!(tgdscad::number::isqrt(16), 4);
    assert_eq!(tgdscad::number::isqrt(3_000_000_000_000), 1_732_050);
}

#[test]
fn rectangle_scale_and_mirror() {
    assert_eq!(D2::rectangle(x(3), x(4)).scad(), "square(size = [3, 4]);");
    assert_eq!(D2::circle(x(1)).scale2(v2(x(2), x(3))).scad(),
        "scale(v = [2, 3]) {\n  circle(d = 1);\n}");
    assert_eq!(D3::cube(x(1)).scale(x(2)).scad(), "scale(v = 2) {\n  cube(size = 1);\n}");
}

#[test]
fn hull_takes_over_a_union() {
    let h = D2::circle(x(1)).add(D2::square(x(2))).hull();
    assert_eq!(h.scad(), "hull() {\n  circle(d = 1);\n  square(size = 2);\n}");
    let g = D2::circle(x(1)).hull();
    assert_eq!(g.scad(), "hull() {\n  circle(d = 1);\n}");
    let k = D3::cube(x(1)).intersection(D3::sphere(x(1))).hull();
    assert_eq!(k.scad(),
        "hull() {\n  intersection() {\n    cube(size = 1);\n    sphere(r = 1);\n  }\n}");
}

#[test]
fn intersections_and_minkowski_sums_grow() {
    let i = D2::circle(x(1)).and(D2::circle(x(2))).intersection(D2::circle(x(3)));
    assert_eq!(i.scad(),
        "intersection() {\n  circle(d = 1);\n  circle(d = 2);\n  circle(d = 3);\n}");
    let m = D3::cube(x(1)).minkowski(D3::sphere(x(1))).minkowski(D3::sphere(x(2)));
    assert_eq!(m.scad(),
        "minkowski() {\n  cube(size = 1);\n  sphere(r = 1);\n  sphere(r = 2);\n}");
    let n = D2::circle(x(1)).minkowski(D2::square(x(1)));
    assert_eq!(n.scad(), "minkowski() {\n  circle(d = 1);\n  square(size = 1);\n}");
}

#[test]
fn sub_is_difference() {
    assert_eq!(D2::square(x(2)).sub(D2::circle(x(1))).scad(),
        "difference() {\n  square(size = 2);\n  circle(d = 1);\n}");
    assert_eq!(D3::cube(x(2)).sub(D3::sphere(x(1))).scad(),
        "difference() {\n  cube(size = 2);\n  sphere(r = 1);\n}");
}

#[test]
fn half_planes() {
    assert_eq!(D2::half_plane(Aim::N).scad(),
        "translate(v = [-4611686018.427387, 0]) {\n  square(size = 9223372036.854775);\n}");
    assert_eq!(D2::half_plane(Aim::E).scad(),
        "translate(v = [0, -4611686018.427387]) {\n  square(size = 9223372036.854775);\n}");
    assert_eq!(D2::half_plane(Aim::W).scad(),
        "translate(v = [-9223372036.854775, -4611686018.427387]) {\n  square(size = 9223372036.854775);\n}");
}

#[test]
fn half_spaces() {
    assert_eq!(D3::half_space(Aim::U).scad(),
        "translate(v = [-4611686018.427387, -4611686018.427387, 0]) {\n  cube(size = 9223372036.854775);\n}");
    assert_eq!(D3::half_space(Aim::S).scad(),
        "translate(v = [-4611686018.427387, -9223372036.854775, -4611686018.427387]) {\n  cube(size = 9223372036.854775);\n}");
}

#[test]
fn square_edge_copies() {
    let u = D2::circle(x(1)).iter_square_edge(x(2)).union();
    assert_eq!(u.scad(),
        "union() {\n  translate(v = [2, 0]) {\n    circle(d = 1);\n  }\n  translate(v = [0, 2]) {\n    circle(d = 1);\n  }\n  translate(v = [-2, 0]) {\n    circle(d = 1);\n  }\n  translate(v = [0, -2]) {\n    circle(d = 1);\n  }\n}");
    assert_eq!(D2::circle(x(1)).translate_vec(v2(x(1), x(1)), 2).len(), 2);
}

#[test]
fn invert_cuts_out_of_a_cube() {
    assert_eq!(D3::sphere(x(1)).invert(x(4)).scad(),
        "difference() {\n  translate(v = [-2, -2, -2]) {\n    cube(size = 4);\n  }\n  sphere(r = 1);\n}");
}

#[test]
fn beveled_box_is_a_hull_of_three() {
    assert_eq!(D3::beveled_box(v3(x(10), x(10), x(50)), x(1)).scad(),
        "hull() {\n  translate(v = [0, 1, 1]) {\n    cube(size = [10, 8, 48]);\n  }\n  translate(v = [1, 1, 0]) {\n    cube(size = [8, 8, 50]);\n  }\n  translate(v = [1, 0, 1]) {\n    cube(size = [8, 10, 48]);\n  }\n}");
}

#[test]
fn beveled_cube_block_of_one() {
    let expected = [
        "union() {",
        "  translate(v = [0, 0, 0]) {",
        "    union() {",
        "      translate(v = [0, 0, 0]) {",
        "        union() {",
        "          translate(v = [1, 1, 1]) {",
        "            hull() {",
        "              translate(v = [0, 1, 1]) {",
        "                cube(size = [8, 6, 6]);",
        "              }",
        "              translate(v = [1, 1, 0]) {",
        "                cube(size = [6, 6, 8]);",
        "              }",
        "              translate(v = [1, 0, 1]) {",
        "                cube(size = [6, 8, 6]);",
        "              }",
        "            }",
        "          }",
        "        }",
        "      }",
        "    }",
        "  }",
        "  translate(v = [2, 2, 2]) {",
        "    cube(size = [6, 6, 6]);",
        "  }",
        "}",
    ]
    .join("\n");
    assert_eq!(D3::beveled_cube_block((1, 1, 1), x(10), x(1), x(1)).scad(), expected);
}

#[test]
fn rounded_cube_is_cube_and_sphere() {
    assert_eq!(D3::rounded_cube(x(3)).scad(),
        "intersection() {\n  translate(v = [-1.5, -1.5, -1.5]) {\n    cube(size = 3);\n  }\n  sphere(r = 1.73205);\n}");
}

#[test]
fn truncated_octahedron_is_a_hull_of_three() {
    assert_eq!(D3::truncated_octahedron(x(1)).scad(),
        "hull() {\n  rotate([0, 0, 45]) {\n    translate(v = [-0.5, -0.5, -1.414213]) {\n      cube(size = [1, 1, 2.828426]);\n    }\n  }\n  rotate([0, 45, 0]) {\n    translate(v = [-0.5, -1.414213, -0.5]) {\n      cube(size = [1, 2.828426, 1]);\n    }\n  }\n  rotate([45, 0, 0]) {\n    translate(v = [-1.414213, -0.5, -0.5]) {\n      cube(size = [2.828426, 1, 1]);\n    }\n  }\n}");
}

#[test]
fn polyhedron_with_its_faces() {
    let p = D3::polyhedron_with_faces(
        vec![v3(x(0), x(0), x(0)), v3(X::from_millionths(500_000), x(1), x(0)), v3(x(0), x(1), x(1))],
        vec![vec![0, 1, 2], vec![2, 1, 0]],
    );
    assert_eq!(p.scad(),
        "polyhedron(points = [[0.0, 0.0, 0.0], [0.5, 1.0, 0.0], [0.0, 1.0, 1.0]], faces = [[0, 1, 2], [2, 1, 0]]);");
}

#[test]
fn map_and_add_map_in_space() {
    let c = D3::cube(x(1));
    assert_eq!(c.clone().map(|s| s.color(tgdscad::ColorEnum::Blue)).scad(),
        "color(\"blue\") {\n  cube(size = 1);\n}");
    assert_eq!(c.add_map(|s| s.translate(v3(x(1), x(0), x(0)))).scad(),
        "union() {\n  cube(size = 1);\n  translate(v = [1, 0, 0]) {\n    cube(size = 1);\n  }\n}");
}

#[test]
fn extrusions_of_a_circle() {
    let c = D2::circle(x(2));
    assert_eq!(c.linear_extrude(x(3)).scad(), "linear_extrude(height = 3) {\n  circle(d = 2);\n}");
    assert_eq!(c.rotate_extrude(X::from_millionths(90_500_000)).scad(),
        "rotate_extrude(angle = 90.5) {\n  circle(d = 2);\n}");
}

#[test]
fn folding_space_shapes() {
    let v = vec![D3::cube(x(1)), D3::sphere(x(2))];
    assert_eq!(v.clone().hull().scad(), "hull() {\n  cube(size = 1);\n  sphere(r = 2);\n}");
    assert_eq!(v.clone().minkowski().scad(), "minkowski() {\n  cube(size = 1);\n  sphere(r = 2);\n}");
    assert_eq!(v.intersection().scad(), "intersection() {\n  cube(size = 1);\n  sphere(r = 2);\n}");
}
