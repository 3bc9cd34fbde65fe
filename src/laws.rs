//! Laws of the shape algebra and of its rendering, proved over the views of the trees.
use vstd::prelude::*;
use crate::common::{block, color_text, kind_text, sep, ColorEnum, JoinKind};
use crate::number::{fits, xm, xsum, xy_scaled, xy_sum_fits, SCALE, X, XY, XYZ};
use crate::scad2d::{
    body2, equal_angle, equal_rotations2, extended2, offset_fits2, rotated2, text2,
    translated2, translations2, turn_fits2, Shape2, D2,
};
use crate::scad3d::{
    body3, extended3, offset_fits3, rotated3, text3, translated3, translations3, turn_fits3, xyz_scaled,
    xyz_sum, Shape3, D3,
};
use crate::nesting::{lemma_indent_keeps, lemma_inside_at, lemma_text2_nested};
use crate::text::{indented, lemma_indent_concat, step};

verus! {

broadcast use vstd::seq::group_seq_axioms;

/// Rendering is a function of the tree: two trees with the same value, such as a tree
/// and its clone, render to the same text, and rendering one tree twice gives the same
/// text twice.
pub proof fn lemma_render_deterministic2(a: D2, b: D2)
    requires
        a@ == b@,
    ensures
        text2(a@) == text2(b@),
{
}

/// Rendering is a function of the tree, for space shapes.
pub proof fn lemma_render_deterministic3(a: D3, b: D3)
    requires
        a@ == b@,
    ensures
        text3(a@) == text3(b@),
{
}

/// The plane vector `a + b`.
pub open spec fn xy_sum(a: XY, b: XY) -> XY {
    XY(xsum(a.0, b.0), xsum(a.1, b.1))
}

/// Moving a plane shape by `a` and then by `b` gives the tree, hence the text, of moving
/// it by `a + b` once.
pub proof fn lemma_translate_merge2(s: Shape2, a: XY, b: XY)
    requires
        offset_fits2(s, a.0.val(), a.1.val()),
        offset_fits2(translated2(s, a), b.0.val(), b.1.val()),
        xy_sum_fits(a, b),
    ensures
        translated2(translated2(s, a), b) == translated2(s, xy_sum(a, b)),
        text2(translated2(translated2(s, a), b)) == text2(translated2(s, xy_sum(a, b))),
{
}

/// Moving a space shape by `a` and then by `b` gives the tree, hence the text, of moving
/// it by `a + b` once.
pub proof fn lemma_translate_merge3(s: Shape3, a: XYZ, b: XYZ)
    requires
        offset_fits3(s, a.0.val(), a.1.val(), a.2.val()),
        offset_fits3(translated3(s, a), b.0.val(), b.1.val(), b.2.val()),
        fits(a.0.val() + b.0.val()),
        fits(a.1.val() + b.1.val()),
        fits(a.2.val() + b.2.val()),
    ensures
        translated3(translated3(s, a), b) == translated3(s, xyz_sum(a, b)),
        text3(translated3(translated3(s, a), b)) == text3(translated3(s, xyz_sum(a, b))),
{
}

/// Turning a plane shape by `a` and then by `b` degrees gives the tree, hence the text, of
/// turning it by `a + b` once.
pub proof fn lemma_rotate_merge2(s: Shape2, a: X, b: X)
    requires
        turn_fits2(s, a.val()),
        turn_fits2(rotated2(s, a), b.val()),
        fits(a.val() + b.val()),
    ensures
        rotated2(rotated2(s, a), b) == rotated2(s, xsum(a, b)),
        text2(rotated2(rotated2(s, a), b)) == text2(rotated2(s, xsum(a, b))),
{
}

/// Turning a space shape by the angles `a` and then `b` gives the tree, hence the text, of
/// turning it by `a + b` once.
pub proof fn lemma_rotate_merge3(s: Shape3, a: XYZ, b: XYZ)
    requires
        turn_fits3(s, a.0.val(), a.1.val(), a.2.val()),
        turn_fits3(rotated3(s, a), b.0.val(), b.1.val(), b.2.val()),
        fits(a.0.val() + b.0.val()),
        fits(a.1.val() + b.1.val()),
        fits(a.2.val() + b.2.val()),
    ensures
        rotated3(rotated3(s, a), b) == rotated3(s, xyz_sum(a, b)),
        text3(rotated3(rotated3(s, a), b)) == text3(rotated3(s, xyz_sum(a, b))),
{
}

/// The children that `s` brings to a union it starts: its own children when it is a union,
/// else itself.
pub open spec fn union_parts2(s: Shape2) -> Seq<Shape2> {
    match s {
        Shape2::Join(k, kids) => if k == JoinKind::Union {
            kids
        } else {
            seq![s]
        },
        _ => seq![s],
    }
}

/// Adding `t` and then `u` to `s` gives one flat union: the parts of `s`, then `t`, then
/// `u`. When `s` is not a union this is the single block `union() { s; t; u; }`.
pub proof fn lemma_union_flattening2(s: Shape2, t: Shape2, u: Shape2)
    ensures
        extended2(extended2(s, JoinKind::Union, t), JoinKind::Union, u) == Shape2::Join(
            JoinKind::Union,
            union_parts2(s).push(t).push(u),
        ),
        !(s matches Shape2::Join(k, _) && k == JoinKind::Union) ==> text2(
            extended2(extended2(s, JoinKind::Union, t), JoinKind::Union, u),
        ) == block(
            kind_text(JoinKind::Union) + "()"@,
            indented(text2(s)) + sep() + indented(text2(t)) + sep() + indented(text2(u)),
        ),
{
    let r = extended2(extended2(s, JoinKind::Union, t), JoinKind::Union, u);
    match s {
        Shape2::Join(k, kids) => {
            if k == JoinKind::Union {
                assert(kids.push(t).push(u) =~= union_parts2(s).push(t).push(u));
            } else {
                assert(seq![s, t].push(u) =~= seq![s, t, u]);
                assert(union_parts2(s).push(t).push(u) =~= seq![s, t, u]);
                lemma_body_three(s, t, u);
            }
        },
        _ => {
            assert(seq![s, t].push(u) =~= seq![s, t, u]);
            assert(union_parts2(s).push(t).push(u) =~= seq![s, t, u]);
            lemma_body_three(s, t, u);
        },
    }
}

/// The body of a combinator with three children.
proof fn lemma_body_three(s: Shape2, t: Shape2, u: Shape2)
    ensures
        body2(seq![s, t, u], 3) == indented(text2(s)) + sep() + indented(text2(t)) + sep()
            + indented(text2(u)),
{
    let kids = seq![s, t, u];
    assert(body2(kids, 1) == indented(text2(s)));
    assert(body2(kids, 2) == body2(kids, 1) + sep() + indented(text2(t)));
    assert(body2(kids, 3) == body2(kids, 2) + sep() + indented(text2(u)));
}

/// The children that a space shape `s` brings to a union it starts.
pub open spec fn union_parts3(s: Shape3) -> Seq<Shape3> {
    match s {
        Shape3::Join(k, kids) => if k == JoinKind::Union {
            kids
        } else {
            seq![s]
        },
        _ => seq![s],
    }
}

/// Adding `t` and then `u` to a space shape `s` gives one flat union: the parts of `s`,
/// then `t`, then `u`; when `s` is not a union, the single block `union() { s; t; u; }`.
pub proof fn lemma_union_flattening3(s: Shape3, t: Shape3, u: Shape3)
    ensures
        extended3(extended3(s, JoinKind::Union, t), JoinKind::Union, u) == Shape3::Join(
            JoinKind::Union,
            union_parts3(s).push(t).push(u),
        ),
        !(s matches Shape3::Join(k, _) && k == JoinKind::Union) ==> text3(
            extended3(extended3(s, JoinKind::Union, t), JoinKind::Union, u),
        ) == block(
            kind_text(JoinKind::Union) + "()"@,
            indented(text3(s)) + sep() + indented(text3(t)) + sep() + indented(text3(u)),
        ),
{
    let three = seq![s, t, u];
    if s matches Shape3::Join(k, kids) && k == JoinKind::Union {
        assert(s->Join_1.push(t).push(u) =~= union_parts3(s).push(t).push(u));
    } else {
        assert(seq![s, t].push(u) =~= three);
        assert(union_parts3(s).push(t).push(u) =~= three);
        assert(body3(three, 1) == indented(text3(s)));
        assert(body3(three, 2) == body3(three, 1) + sep() + indented(text3(t)));
        assert(body3(three, 3) == body3(three, 2) + sep() + indented(text3(u)));
    }
}

/// Copy `i` of `n` translated copies of a shape that is not itself a translation is that
/// shape under a translation by `i * v`: the union of the copies lists the moves
/// `0, v, 2v, ..., (n - 1) v` in that order.
pub proof fn lemma_translation_order2(s: Shape2, v: XY, n: nat, i: int)
    requires
        !(s is Translate),
        0 <= i < n,
    ensures
        translations2(s, v, n).len() == n,
        translations2(s, v, n)[i] == Shape2::Translate(xy_scaled(v, i), Box::new(s)),
        text2(Shape2::Join(JoinKind::Union, translations2(s, v, n))) == block(
            kind_text(JoinKind::Union) + "()"@,
            body2(translations2(s, v, n), n as int),
        ),
{
}

/// Copy `i` of `n` translated copies of a space shape that is not itself a translation is
/// that shape under a translation by `i * v`, in the order `0, v, 2v, ..., (n - 1) v`.
pub proof fn lemma_translation_order3(s: Shape3, v: XYZ, n: nat, i: int)
    requires
        !(s is Translate),
        0 <= i < n,
    ensures
        translations3(s, v, n).len() == n,
        translations3(s, v, n)[i] == Shape3::Translate(xyz_scaled(v, i), Box::new(s)),
        text3(Shape3::Join(JoinKind::Union, translations3(s, v, n))) == block(
            kind_text(JoinKind::Union) + "()"@,
            body3(translations3(s, v, n), n as int),
        ),
{
}

/// Copy `i` of the `n` copies of a shape that is not itself a rotation, spread evenly over
/// a full turn, is that shape turned by `360 * i / n` degrees; when `n` divides 360 this is
/// exactly `(360 / n) * i` degrees.
pub proof fn lemma_equal_subdivision2(s: Shape2, n: nat, i: int)
    requires
        !(s is Rotate),
        0 <= i < n,
    ensures
        equal_rotations2(s, n).len() == n,
        equal_rotations2(s, n)[i] == Shape2::Rotate(xm(equal_angle(n as int, i)), Box::new(s)),
        360int % (n as int) == 0 ==> equal_angle(n as int, i) == (360int / (n as int)) * i * (SCALE as int),
{
    if 360int % (n as int) == 0 {
        let q = 360int / (n as int);
        assert(360 == q * (n as int)) by (nonlinear_arith)
            requires
                360int % (n as int) == 0,
                n > 0,
                q == 360int / (n as int),
        ;
        assert(360 * (SCALE as int) * i == (q * i * (SCALE as int)) * (n as int)) by (nonlinear_arith)
            requires
                360 == q * (n as int),
        ;
        assert((q * i * (SCALE as int)) * (n as int) / (n as int) == q * i * (SCALE as int))
            by (nonlinear_arith)
            requires
                n > 0,
        ;
    }
}

/// Swapping the two operands of a difference changes the tree whenever they differ.
pub proof fn lemma_difference_order2(a: Shape2, b: Shape2)
    requires
        a != b,
    ensures
        Shape2::Difference(Box::new(a), Box::new(b)) != Shape2::Difference(
            Box::new(b),
            Box::new(a),
        ),
{
}

/// Swapping the two operands of a difference changes its text whenever the operands'
/// texts differ.
pub proof fn lemma_difference_text_order2(a: Shape2, b: Shape2)
    requires
        text2(a) != text2(b),
    ensures
        text2(Shape2::Difference(Box::new(a), Box::new(b))) != text2(
            Shape2::Difference(Box::new(b), Box::new(a)),
        ),
{
    let ia = indented(text2(a));
    let ib = indented(text2(b));
    let head = "difference()"@ + " {\n  "@;
    let x = text2(Shape2::Difference(Box::new(a), Box::new(b)));
    let y = text2(Shape2::Difference(Box::new(b), Box::new(a)));
    assert(x == head + ia + sep() + ib + "\n}"@);
    assert(y == head + ib + sep() + ia + "\n}"@);
    if ia.len() == ib.len() {
        lemma_indent_injective(text2(a), text2(b));
        let j = choose|j: int| 0 <= j < ia.len() && ia[j] != ib[j];
        assert(x[head.len() + j] == ia[j]);
        assert(y[head.len() + j] == ib[j]);
    } else if x == y {
        lemma_text2_nested(a);
        lemma_text2_nested(b);
        lemma_indent_keeps(0, text2(a));
        lemma_indent_keeps(0, text2(b));
        reveal_strlit("\n  ");
        assert(sep()[0] == '\n');
        if ia.len() < ib.len() {
            assert forall|j: int| 0 <= j < ia.len() implies ib[j] == ia[j] by {
                assert(x[head.len() + j] == ia[j]);
                assert(y[head.len() + j] == ib[j]);
            }
            assert(x[(head.len() + ia.len()) as int] == '\n');
            assert(y[(head.len() + ia.len()) as int] == ib[ia.len() as int]);
            lemma_inside_at(ib, ia.len() as int);
            assert(ib.subrange(0, ia.len() as int) =~= ia);
        } else {
            assert forall|j: int| 0 <= j < ib.len() implies ia[j] == ib[j] by {
                assert(x[head.len() + j] == ia[j]);
                assert(y[head.len() + j] == ib[j]);
            }
            assert(y[(head.len() + ib.len()) as int] == '\n');
            assert(x[(head.len() + ib.len()) as int] == ia[ib.len() as int]);
            lemma_inside_at(ia, ib.len() as int);
            assert(ia.subrange(0, ib.len() as int) =~= ib);
        }
    }
}

/// Different texts stay different once indented; of equal indented length, they differ at
/// some position.
pub proof fn lemma_indent_injective(x: Seq<char>, y: Seq<char>)
    requires
        x != y,
        indented(x).len() == indented(y).len(),
    ensures
        exists|j: int| 0 <= j < indented(x).len() && indented(x)[j] != indented(y)[j],
    decreases x.len(),
{
    if x.len() == 0 {
        assert(indented(x) =~= seq![]);
        if y.len() > 0 {
            lemma_indent_front(y);
        } else {
            assert(x =~= y);
        }
    } else if y.len() == 0 {
        lemma_indent_front(x);
        assert(indented(y) =~= seq![]);
        assert(false);
    } else {
        lemma_indent_front(x);
        lemma_indent_front(y);
        if x[0] != y[0] {
            assert(indented(x)[0] == x[0]);
            assert(indented(y)[0] == y[0]);
        } else {
            let rx = x.subrange(1, x.len() as int);
            let ry = y.subrange(1, y.len() as int);
            assert(x =~= seq![x[0]] + rx);
            assert(y =~= seq![y[0]] + ry);
            assert(rx != ry);
            let k = step(x[0]).len();
            lemma_indent_injective(rx, ry);
            let j = choose|j: int| 0 <= j < indented(rx).len() && indented(rx)[j] != indented(ry)[j];
            assert(indented(x)[k + j] == indented(rx)[j]);
            assert(indented(y)[k + j] == indented(ry)[j]);
        }
    }
}

/// Indenting a nonempty text: its first character's step, then the rest indented.
proof fn lemma_indent_front(x: Seq<char>)
    requires
        x.len() > 0,
    ensures
        indented(x) == step(x[0]) + indented(x.subrange(1, x.len() as int)),
        indented(x).len() > 0,
        indented(x)[0] == x[0],
{
    let rest = x.subrange(1, x.len() as int);
    assert(x =~= seq![x[0]] + rest);
    lemma_indent_concat(seq![x[0]], rest);
    let one = seq![x[0]];
    assert(one.drop_last() =~= seq![]);
    assert(indented(one.drop_last()) =~= seq![]);
    assert(indented(one) =~= step(x[0]));
}

/// `s` with `k` spaces after each newline.
pub open spec fn indent_by(s: Seq<char>, k: nat) -> Seq<char>
    decreases s.len(),
{
    if s.len() == 0 {
        seq![]
    } else {
        indent_by(s.drop_last(), k) + if s.last() == '\n' {
            seq!['\n'] + Seq::new(k, |i: int| ' ')
        } else {
            seq![s.last()]
        }
    }
}

/// `s` as it stands `d` blocks deep: indented once per level.
pub open spec fn indent_n(s: Seq<char>, d: nat) -> Seq<char>
    decreases d,
{
    if d == 0 {
        s
    } else {
        indented(indent_n(s, (d - 1) as nat))
    }
}

/// A text nested `d` blocks deep has exactly `2 d` spaces after each of its newlines.
pub proof fn lemma_indentation_depth(s: Seq<char>, d: nat)
    ensures
        indent_n(s, d) == indent_by(s, 2 * d),
    decreases d,
{
    if d > 0 {
        lemma_indentation_depth(s, (d - 1) as nat);
        lemma_indent_by_step(s, 2 * (d - 1) as nat);
    } else {
        lemma_indent_by_zero(s);
    }
}

/// No spaces added: the text is unchanged.
proof fn lemma_indent_by_zero(s: Seq<char>)
    ensures
        indent_by(s, 0) == s,
    decreases s.len(),
{
    if s.len() > 0 {
        lemma_indent_by_zero(s.drop_last());
        assert(s =~= s.drop_last().push(s.last()));
        if s.last() == '\n' {
            assert(seq!['\n'] + Seq::new(0, |i: int| ' ') =~= seq!['\n']);
        }
        assert(indent_by(s, 0) =~= s);
    }
}

/// One more level adds two more spaces after each newline.
proof fn lemma_indent_by_step(s: Seq<char>, k: nat)
    ensures
        indented(indent_by(s, k)) == indent_by(s, k + 2),
    decreases s.len(),
{
    if s.len() > 0 {
        let p = s.drop_last();
        lemma_indent_by_step(p, k);
        let tail = if s.last() == '\n' {
            seq!['\n'] + Seq::new(k, |i: int| ' ')
        } else {
            seq![s.last()]
        };
        lemma_indent_concat(indent_by(p, k), tail);
        lemma_indent_spaces(tail, s.last(), k);
    } else {
        assert(indent_by(s, k) =~= seq![]);
        assert(indented(seq![]) =~= seq![]);
    }
}

/// Indenting the piece that stands for one character.
proof fn lemma_indent_spaces(tail: Seq<char>, c: char, k: nat)
    requires
        tail == if c == '\n' {
            seq!['\n'] + Seq::new(k, |i: int| ' ')
        } else {
            seq![c]
        },
    ensures
        indented(tail) == if c == '\n' {
            seq!['\n'] + Seq::new(k + 2, |i: int| ' ')
        } else {
            seq![c]
        },
{
    let one = seq![c];
    assert(one.drop_last() =~= seq![]);
    assert(indented(one.drop_last()) =~= seq![]);
    assert(indented(one) =~= step(c));
    if c == '\n' {
        let blank = Seq::new(k, |i: int| ' ');
        lemma_indent_concat(one, blank);
        lemma_indent_blank(k);
        assert(tail =~= one + blank);
        assert(step(c) + blank =~= seq!['\n'] + Seq::new(k + 2, |i: int| ' '));
    }
}

/// Spaces are left as they are.
proof fn lemma_indent_blank(k: nat)
    ensures
        indented(Seq::new(k, |i: int| ' ')) == Seq::new(k, |i: int| ' '),
    decreases k,
{
    let s = Seq::new(k, |i: int| ' ');
    if k > 0 {
        lemma_indent_blank((k - 1) as nat);
        assert(s.drop_last() =~= Seq::new((k - 1) as nat, |i: int| ' '));
        assert(indented(s) =~= s);
    } else {
        assert(s =~= seq![]);
    }
}

/// `k` spaces.
pub open spec fn spaces(k: nat) -> Seq<char> {
    Seq::new(k, |i: int| ' ')
}

/// `s` inside `d` nested color blocks.
pub open spec fn colored(s: Shape2, c: ColorEnum, d: nat) -> Shape2
    decreases d,
{
    if d == 0 {
        s
    } else {
        Shape2::Color(c, Box::new(colored(s, c, (d - 1) as nat)))
    }
}

/// A shape nested `d` blocks deep is rendered on its own line after `2 d` spaces, with
/// exactly `2 d` spaces after each of its newlines: the text of the nest is `pre`, then the
/// shape's text so indented, then `post`, where `pre` ends with a newline and `2 d` spaces.
pub proof fn lemma_nesting_depth(s: Shape2, c: ColorEnum, d: nat) -> (r: (Seq<char>, Seq<char>))
    ensures
        text2(colored(s, c, d)) == r.0 + indent_by(text2(s), 2 * d) + r.1,
        d == 0 ==> r.0.len() == 0,
        d > 0 ==> ends_with_indent(r.0, 2 * d),
    decreases d,
{
    if d == 0 {
        lemma_indent_by_zero(text2(s));
        assert(text2(s) =~= Seq::<char>::empty() + text2(s) + Seq::<char>::empty());
        (Seq::<char>::empty(), Seq::<char>::empty())
    } else {
        let (pre, post) = lemma_nesting_depth(s, c, (d - 1) as nat);
        let mid = indent_by(text2(s), 2 * (d - 1) as nat);
        let head = "color("@ + color_text(c) + ")"@;
        let open = " {\n  "@;
        let close = "\n}"@;
        lemma_indent_concat(pre, mid);
        lemma_indent_concat(pre + mid, post);
        lemma_indent_by_step(text2(s), 2 * (d - 1) as nat);
        let npre = head + open + indented(pre);
        let npost = indented(post) + close;
        assert(text2(colored(s, c, d)) == head + open + indented(pre + mid + post) + close);
        assert(text2(colored(s, c, d)) =~= npre + indent_by(text2(s), 2 * d) + npost);
        lemma_open_indent(head, pre, (d - 1) as nat);
        (npre, npost)
    }
}

/// `p` ends with a newline and then `k` spaces.
pub open spec fn ends_with_indent(p: Seq<char>, k: nat) -> bool {
    p.len() >= k + 1 && p.subrange(p.len() - (k + 1), p.len() as int) == seq!['\n'] + spaces(k)
}

/// Opening one more block after a text that ends in an indent of `2 e` spaces (or that is
/// empty, for `e == 0`) ends in an indent of `2 e + 2` spaces.
proof fn lemma_open_indent(head: Seq<char>, pre: Seq<char>, e: nat)
    requires
        e == 0 ==> pre.len() == 0,
        e > 0 ==> ends_with_indent(pre, 2 * e),
    ensures
        ends_with_indent(head + " {\n  "@ + indented(pre), 2 * e + 2),
{
    reveal_strlit(" {\n  ");
    reveal_strlit("\n}");
    let open = " {\n  "@;
    let npre = head + open + indented(pre);
    if e == 0 {
        assert(pre =~= Seq::<char>::empty());
        assert(indented(pre) =~= Seq::<char>::empty());
        assert(npre.subrange(npre.len() - 3, npre.len() as int) =~= seq!['\n'] + spaces(2));
    } else {
        let m = (2 * e + 1) as int;
        let front = pre.subrange(0, pre.len() - m);
        let back = pre.subrange(pre.len() - m, pre.len() as int);
        assert(pre =~= front + back);
        lemma_indent_concat(front, back);
        lemma_indent_newline_run(2 * e);
        assert(indented(pre) =~= indented(front) + (seq!['\n'] + spaces(2 * e + 2)));
        assert(npre.subrange(npre.len() - (2 * e + 3), npre.len() as int) =~= seq!['\n']
            + spaces(2 * e + 2));
    }
}

/// A newline and `k` spaces, indented, become a newline and `k + 2` spaces.
proof fn lemma_indent_newline_run(k: nat)
    ensures
        indented(seq!['\n'] + spaces(k)) == seq!['\n'] + spaces(k + 2),
{
    let one = seq!['\n'];
    lemma_indent_concat(one, spaces(k));
    lemma_indent_blank(k);
    assert(one.drop_last() =~= Seq::<char>::empty());
    assert(indented(one.drop_last()) =~= Seq::<char>::empty());
    assert(indented(one) =~= seq!['\n', ' ', ' ']);
    assert(seq!['\n', ' ', ' '] + spaces(k) =~= seq!['\n'] + spaces(k + 2));
}

/// The lines of `t`: the pieces between its newlines, in order (one empty line for an
/// empty text).
pub open spec fn lines(t: Seq<char>) -> Seq<Seq<char>>
    decreases t.len(),
{
    if t.len() == 0 {
        seq![Seq::<char>::empty()]
    } else if t.last() == '\n' {
        lines(t.drop_last()).push(Seq::<char>::empty())
    } else {
        let ls = lines(t.drop_last());
        ls.update(ls.len() - 1, ls.last().push(t.last()))
    }
}

/// The lines `ls`, each after the prefix `p`, joined by newlines.
pub open spec fn join_lines(ls: Seq<Seq<char>>, p: Seq<char>) -> Seq<char>
    decreases ls.len(),
{
    if ls.len() == 0 {
        seq![]
    } else if ls.len() == 1 {
        p + ls[0]
    } else {
        join_lines(ls.drop_last(), p) + seq!['\n'] + p + ls.last()
    }
}

/// A text with `k` spaces after each newline, after `k` more spaces, is each line of the
/// text after `k` spaces.
pub proof fn lemma_lines_indented(t: Seq<char>, k: nat)
    ensures
        lines(t).len() >= 1,
        spaces(k) + indent_by(t, k) == join_lines(lines(t), spaces(k)),
    decreases t.len(),
{
    let p = spaces(k);
    if t.len() == 0 {
        assert(indent_by(t, k) =~= Seq::<char>::empty());
        assert(join_lines(lines(t), p) =~= p + Seq::<char>::empty());
        assert(p + indent_by(t, k) =~= p);
    } else {
        let q = t.drop_last();
        let c = t.last();
        lemma_lines_indented(q, k);
        let ls = lines(q);
        if c == '\n' {
            let nl = ls.push(Seq::<char>::empty());
            assert(nl.drop_last() =~= ls);
            assert(seq!['\n'] + Seq::new(k, |i: int| ' ') =~= seq!['\n'] + p);
            assert(p + indent_by(t, k) =~= join_lines(ls, p) + seq!['\n'] + p
                + Seq::<char>::empty());
        } else {
            let nl = ls.update(ls.len() - 1, ls.last().push(c));
            assert(indent_by(t, k) == indent_by(q, k) + seq![c]);
            assert(p + indent_by(t, k) =~= (p + indent_by(q, k)) + seq![c]);
            assert(nl.last() == ls.last().push(c));
            if ls.len() == 1 {
                assert(join_lines(ls, p) == p + ls[0]);
                assert(nl[0] == ls[0].push(c));
                assert(p + indent_by(t, k) =~= p + nl[0]);
            } else {
                assert(nl.drop_last() =~= ls.drop_last());
                assert(join_lines(ls, p) == join_lines(ls.drop_last(), p) + seq!['\n'] + p
                    + ls.last());
                assert(p + indent_by(t, k) =~= join_lines(ls.drop_last(), p) + seq!['\n'] + p
                    + nl.last());
            }
        }
    }
}

/// Line by line, a block is its header line `head {`, then each line of its body text
/// after two spaces, then the line `}`; a block `d` levels deep puts `2 d` spaces before
/// each line of its content.
pub proof fn lemma_block_lines(head: Seq<char>, t: Seq<char>, d: nat)
    ensures
        block(head, indented(t)) == head + seq![' ', '{'] + seq!['\n'] + join_lines(lines(t), spaces(2))
            + seq!['\n', '}'],
        spaces(2 * d) + indent_n(t, d) == join_lines(lines(t), spaces(2 * d)),
{
    reveal_strlit(" {\n  ");
    reveal_strlit("\n}");
    lemma_indentation_depth(t, 1);
    lemma_indentation_depth(t, d);
    lemma_lines_indented(t, 2);
    lemma_lines_indented(t, 2 * d);
    assert(indent_n(t, 1) == indented(indent_n(t, 0)));
    assert(" {\n  "@ =~= seq![' ', '{'] + seq!['\n'] + spaces(2));
    assert(block(head, indented(t)) =~= head + seq![' ', '{'] + seq!['\n'] + (spaces(2)
        + indented(t)) + seq!['\n', '}']);
}

} // verus!
