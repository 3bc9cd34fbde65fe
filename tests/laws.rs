use tgdscad::{v2, v3, Aim, ColorEnum, DIterator, JoinKind, D2, D3, X};

fn x(v: i32) -> X {
    X::from(v)
}

#[test]
fn render_twice_gives_same_text() {
    let s = D2::square(x(9)).add(D2::circle(x(5))).color(ColorEnum::Blue);
    assert_eq!(s.scad(), s.scad());
    assert_eq!(s.clone().scad(), s.scad());
}

#[test]
fn translate_twice_merges_into_one_move() {
    let s = D2::circle(x(5));
    let twice = s.translate(v2(x(1), x(2))).translate(v2(x(3), x(-5)));
    let once = s.translate(v2(x(4), x(-3)));
    assert_eq!(twice.scad(), once.scad());
    assert_eq!(twice.scad(), "translate(v = [4, -3]) {\n  circle(d = 5);\n}");
}

#[test]
fn translate_twice_merges_in_space() {
    let s = D3::cube(x(2));
    let twice = s.clone().translate(v3(x(1), x(2), x(3))).translate(v3(x(1), x(1), x(1)));
    let once = s.translate(v3(x(2), x(3), x(4)));
    assert_eq!(twice.scad(), once.scad());
    assert_eq!(twice.scad(), "translate(v = [2, 3, 4]) {\n  cube(size = 2);\n}");
}

#[test]
fn rotate_twice_merges_into_one_turn() {
    let s = D2::square(x(9));
    let twice = s.rotate(x(20)).rotate(x(25));
    assert_eq!(twice.scad(), s.rotate(x(45)).scad());
    assert_eq!(twice.scad(), "rotate(45) {\n  square(size = 9);\n}");
}

#[test]
fn rotate_twice_merges_in_space() {
    let s = D3::cube(x(1));
    let twice = s.clone().rotate(v3(x(10), x(0), x(5))).rotate(v3(x(5), x(90), x(0)));
    assert_eq!(twice.scad(), s.rotate(v3(x(15), x(90), x(5))).scad());
    assert_eq!(twice.scad(), "rotate([15, 90, 5]) {\n  cube(size = 1);\n}");
}

#[test]
fn union_of_three_is_flat() {
    let u = D2::square(x(9)).add(D2::circle(x(5))).add(D2::circle(x(7)));
    assert_eq!(u.scad(), "union() {\n  square(size = 9);\n  circle(d = 5);\n  circle(d = 7);\n}");
}

#[test]
fn union_of_a_union_appends() {
    let u = D3::sphere(x(1)).add(D3::cube(x(2)));
    let v = u.add(D3::cube(x(3))).add(D3::sphere(x(4)));
    assert_eq!(v.scad(),
        "union() {\n  sphere(r = 1);\n  cube(size = 2);\n  cube(size = 3);\n  sphere(r = 4);\n}");
}

#[test]
fn iterated_translations_keep_their_order() {
    let u = D2::square(x(1)).iter_translate(v2(x(2), x(0)), 3).union();
    assert_eq!(u.scad(),
        "union() {\n  translate(v = [0, 0]) {\n    square(size = 1);\n  }\n  translate(v = [2, 0]) {\n    square(size = 1);\n  }\n  translate(v = [4, 0]) {\n    square(size = 1);\n  }\n}");
}

#[test]
fn equal_subdivision_of_four() {
    let u = D2::square(x(9)).iter_rotate_equal(4).union();
    assert_eq!(u.scad(),
        "union() {\n  rotate(0) {\n    square(size = 9);\n  }\n  rotate(90) {\n    square(size = 9);\n  }\n  rotate(180) {\n    square(size = 9);\n  }\n  rotate(270) {\n    square(size = 9);\n  }\n}");
}

#[test]
fn equal_subdivision_of_seven() {
    let v = D2::circle(x(1)).iter_rotate_equal(7);
    assert_eq!(v.len(), 7);
    assert_eq!(v[1].scad(), "rotate(51.428571) {\n  circle(d = 1);\n}");
    assert_eq!(v[6].scad(), "rotate(308.571428) {\n  circle(d = 1);\n}");
}

#[test]
fn equal_subdivision_of_none_is_empty() {
    let u = D2::circle(x(1)).iter_rotate_equal(0).union();
    assert_eq!(u.scad(), "union() {\n  \n}");
}

#[test]
fn difference_depends_on_order() {
    let a = D2::square(x(9));
    let b = D2::circle(x(5));
    let ab = a.clone().difference(b.clone()).scad();
    let ba = b.difference(a).scad();
    assert_ne!(ab, ba);
    assert_eq!(ba, "difference() {\n  circle(d = 5);\n  square(size = 9);\n}");
}

#[test]
fn nesting_depth_indents_two_spaces_per_level() {
    let s = D2::circle(x(1)).color(ColorEnum::Green).scale(x(2)).mirror(v2(x(0), x(1)));
    assert_eq!(s.scad(),
        "mirror(v = [0, 1]) {\n  scale(v = 2) {\n    color(\"green\") {\n      circle(d = 1);\n    }\n  }\n}");
}

#[test]
fn indent_adds_two_spaces_after_each_newline() {
    let s = D2::square(x(1)).add(D2::circle(x(2)));
    assert_eq!(tgdscad::indent(&s), "union() {\n    square(size = 1);\n    circle(d = 2);\n  }");
    assert_eq!(tgdscad::indent_d3(&D3::cube(x(1))), "cube(size = 1);");
}

#[test]
fn join_kinds_are_distinct() {
    assert_ne!(JoinKind::Union, JoinKind::Hull);
    assert_eq!(Aim::N, Aim::N);
}

#[test]
fn minus_operator_is_difference() {
    let a = D3::cube(x(2));
    let b = D3::sphere(x(1));
    assert_eq!((a.clone() - b.clone()).scad(), a.difference(b).scad());
    let c = D2::square(x(2));
    let d = D2::circle(x(1));
    assert_eq!((c.clone() + d.clone()).scad(), c.add(d).scad());
}
