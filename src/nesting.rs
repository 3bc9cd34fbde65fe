//! Brace nesting of rendered text: every rendered shape has balanced braces, and each of
//! its newlines stands inside an open brace.
use vstd::prelude::*;
use crate::common::{block, color_text, kind_text, sep, ColorEnum, JoinKind};
use crate::number::{digit_char, digits, fraction, num_text, padded, unsigned_text, xy_text, SCALE, XY};
use crate::scad2d::{body2, points_text, text2, Shape2};
use crate::text::{indented, step};

verus! {

broadcast use vstd::seq::group_seq_axioms;

/// Change of brace depth across one character.
pub open spec fn delta(c: char) -> int {
    if c == '{' {
        1
    } else if c == '}' {
        -1
    } else {
        0
    }
}

/// Open braces minus closed braces in `s`.
pub open spec fn depth(s: Seq<char>) -> int
    decreases s.len(),
{
    if s.len() == 0 {
        0
    } else {
        depth(s.drop_last()) + delta(s.last())
    }
}

/// Read from brace depth `base`, every newline of `s` stands inside an open brace.
pub open spec fn inside(base: int, s: Seq<char>) -> bool
    decreases s.len(),
{
    if s.len() == 0 {
        true
    } else {
        inside(base, s.drop_last()) && (s.last() == '\n' ==> base + depth(s.drop_last()) > 0)
    }
}

/// Balanced braces, with every newline inside a brace.
pub open spec fn nested(s: Seq<char>) -> bool {
    depth(s) == 0 && inside(0, s)
}

/// Neither a brace nor a newline.
pub open spec fn plain(s: Seq<char>) -> bool {
    forall|i: int| 0 <= i < s.len() ==> s[i] != '{' && s[i] != '}' && s[i] != '\n'
}

/// Depth and nesting of a concatenation.
pub proof fn lemma_concat(base: int, a: Seq<char>, b: Seq<char>)
    ensures
        depth(a + b) == depth(a) + depth(b),
        inside(base, a + b) == (inside(base, a) && inside(base + depth(a), b)),
    decreases b.len(),
{
    if b.len() == 0 {
        assert(a + b =~= a);
    } else {
        lemma_concat(base, a, b.drop_last());
        assert((a + b).drop_last() =~= a + b.drop_last());
        assert((a + b).last() == b.last());
    }
}

/// Depth and nesting of one character.
pub proof fn lemma_one(base: int, c: char)
    ensures
        depth(seq![c]) == delta(c),
        inside(base, seq![c]) == (c == '\n' ==> base > 0),
{
    let s = seq![c];
    assert(s.drop_last() =~= Seq::<char>::empty());
    assert(s.last() == c);
    assert(depth(s.drop_last()) == 0);
    assert(inside(base, s.drop_last()));
}

/// A plain text is balanced and has no newline.
pub proof fn lemma_plain(base: int, s: Seq<char>)
    requires
        plain(s),
    ensures
        depth(s) == 0,
        inside(base, s),
    decreases s.len(),
{
    if s.len() > 0 {
        assert(plain(s.drop_last()));
        lemma_plain(base, s.drop_last());
    }
}

/// Reading from a deeper brace keeps every newline inside one.
pub proof fn lemma_inside_mono(b: int, b2: int, s: Seq<char>)
    requires
        inside(b, s),
        b <= b2,
    ensures
        inside(b2, s),
    decreases s.len(),
{
    if s.len() > 0 {
        lemma_inside_mono(b, b2, s.drop_last());
    }
}

/// The text before any newline of a nested text is inside an open brace.
pub proof fn lemma_inside_at(s: Seq<char>, k: int)
    requires
        inside(0, s),
        0 <= k < s.len(),
        s[k] == '\n',
    ensures
        depth(s.subrange(0, k)) > 0,
    decreases s.len(),
{
    if k == s.len() - 1 {
        assert(s.drop_last() =~= s.subrange(0, k));
    } else {
        assert(s.drop_last()[k] == s[k]);
        lemma_inside_at(s.drop_last(), k);
        assert(s.drop_last().subrange(0, k) =~= s.subrange(0, k));
    }
}

/// Indenting keeps the depth and the nesting of a text.
pub proof fn lemma_indent_keeps(base: int, s: Seq<char>)
    ensures
        depth(indented(s)) == depth(s),
        inside(base, indented(s)) == inside(base, s),
    decreases s.len(),
{
    if s.len() == 0 {
        assert(indented(s) =~= Seq::<char>::empty());
    } else {
        let p = s.drop_last();
        let c = s.last();
        lemma_indent_keeps(base, p);
        lemma_concat(base, indented(p), step(c));
        let x = base + depth(indented(p));
        if c == '\n' {
            lemma_one(x, '\n');
            lemma_one(x, ' ');
            lemma_concat(x, seq!['\n'], seq![' ']);
            lemma_concat(x, seq!['\n', ' '], seq![' ']);
            assert(seq!['\n'] + seq![' '] =~= seq!['\n', ' ']);
            assert(seq!['\n', ' '] + seq![' '] =~= step(c));
        } else {
            lemma_one(x, c);
        }
    }
}

/// Plain texts stay plain when joined.
pub proof fn lemma_plain_concat(a: Seq<char>, b: Seq<char>)
    requires
        plain(a),
        plain(b),
    ensures
        plain(a + b),
{
    assert forall|i: int| 0 <= i < (a + b).len() implies (a + b)[i] != '{' && (a + b)[i] != '}'
        && (a + b)[i] != '\n' by {
        if i < a.len() {
            assert((a + b)[i] == a[i]);
        } else {
            assert((a + b)[i] == b[i - a.len()]);
        }
    }
}

/// Three plain texts joined are plain.
pub proof fn lemma_plain3(a: Seq<char>, b: Seq<char>, c: Seq<char>)
    requires
        plain(a),
        plain(b),
        plain(c),
    ensures
        plain(a + b + c),
{
    lemma_plain_concat(a, b);
    lemma_plain_concat(a + b, c);
}

/// Digits are plain.
pub proof fn lemma_digits_plain(n: nat)
    ensures
        plain(digits(n)),
    decreases n,
{
    if n >= 10 {
        lemma_digits_plain(n / 10);
        lemma_plain_concat(digits(n / 10), seq![digit_char((n % 10) as int)]);
    }
}

/// Padded digits are plain.
pub proof fn lemma_padded_plain(n: nat, w: nat)
    ensures
        plain(padded(n, w)),
    decreases w,
{
    if w > 0 {
        lemma_padded_plain(n / 10, (w - 1) as nat);
        lemma_plain_concat(padded(n / 10, (w - 1) as nat), seq![digit_char((n % 10) as int)]);
    }
}

/// Fraction digits are plain.
pub proof fn lemma_fraction_plain(f: nat, w: nat)
    ensures
        plain(fraction(f, w)),
    decreases w,
{
    if w > 0 && f % 10 == 0 {
        lemma_fraction_plain(f / 10, (w - 1) as nat);
    } else {
        lemma_padded_plain(f, w);
    }
}

/// The text of a scalar is plain.
pub proof fn lemma_num_plain(v: int)
    ensures
        plain(num_text(v)),
{
    let u: nat = if v < 0 { (-v) as nat } else { v as nat };
    lemma_digits_plain(u / (SCALE as nat));
    lemma_fraction_plain(u % (SCALE as nat), 6);
    lemma_plain3(digits(u / (SCALE as nat)), seq!['.'], fraction(u % (SCALE as nat), 6));
    lemma_plain_concat(seq!['-'], unsigned_text(u));
}

/// The text of a plane vector is plain.
pub proof fn lemma_xy_plain(v: XY)
    ensures
        plain(xy_text(v)),
{
    lemma_num_plain(v.0.val());
    lemma_num_plain(v.1.val());
    lemma_plain3(seq!['['], num_text(v.0.val()), seq![',', ' ']);
    lemma_plain3(seq!['['] + num_text(v.0.val()) + seq![',', ' '], num_text(v.1.val()), seq![']']);
}

/// The text of a list of points is plain.
pub proof fn lemma_points_plain(p: Seq<XY>, n: int)
    ensures
        plain(points_text(p, n)),
    decreases n,
{
    if 1 < n <= p.len() {
        lemma_points_plain(p, n - 1);
        reveal_strlit(", ");
        lemma_xy_plain(p[n - 1]);
        lemma_plain3(points_text(p, n - 1), ", "@, xy_text(p[n - 1]));
    } else if n == 1 && n <= p.len() {
        lemma_xy_plain(p[0]);
    }
}

/// A leaf: plain text around a plain middle is nested.
proof fn lemma_leaf(prefix: Seq<char>, middle: Seq<char>, suffix: Seq<char>)
    requires
        plain(prefix),
        plain(middle),
        plain(suffix),
    ensures
        nested(prefix + middle + suffix),
{
    lemma_plain3(prefix, middle, suffix);
    lemma_plain(0, prefix + middle + suffix);
}

/// A block with a plain head and a body that is balanced with its newlines inside the
/// block's brace is nested.
pub proof fn lemma_block(head: Seq<char>, body: Seq<char>)
    requires
        plain(head),
        depth(body) == 0,
        inside(1, body),
    ensures
        nested(block(head, body)),
{
    reveal_strlit(" {\n  ");
    reveal_strlit("\n}");
    let open = " {\n  "@;
    let close = "\n}"@;
    assert(open =~= seq![' '] + seq!['{'] + seq!['\n'] + seq![' '] + seq![' ']);
    assert(close =~= seq!['\n'] + seq!['}']);
    lemma_plain(0, head);
    lemma_one(0, ' ');
    lemma_one(0, '{');
    lemma_one(1, '\n');
    lemma_one(1, ' ');
    lemma_one(0, '\n');
    lemma_one(1, '}');
    lemma_concat(0, seq![' '], seq!['{']);
    lemma_concat(0, seq![' '] + seq!['{'], seq!['\n']);
    lemma_concat(0, seq![' '] + seq!['{'] + seq!['\n'], seq![' ']);
    lemma_concat(0, seq![' '] + seq!['{'] + seq!['\n'] + seq![' '], seq![' ']);
    lemma_concat(1, seq!['\n'], seq!['}']);
    lemma_concat(0, head, open);
    lemma_concat(0, head + open, body);
    lemma_concat(0, head + open + body, close);
}

/// The text of a color tag is plain.
proof fn lemma_color_plain(c: ColorEnum)
    ensures
        plain(color_text(c)),
{
    reveal_strlit("\"red\"");
    reveal_strlit("\"green\"");
    reveal_strlit("\"blue\"");
}

/// The keyword of a combinator is plain.
proof fn lemma_kind_plain(k: JoinKind)
    ensures
        plain(kind_text(k)),
{
    reveal_strlit("union");
    reveal_strlit("intersection");
    reveal_strlit("hull");
    reveal_strlit("minkowski");
}

/// The separator between children keeps depth and stands inside the block.
proof fn lemma_sep()
    ensures
        depth(sep()) == 0,
        inside(1, sep()),
{
    reveal_strlit("\n  ");
    assert(sep() =~= seq!['\n'] + seq![' '] + seq![' ']);
    lemma_one(1, '\n');
    lemma_one(1, ' ');
    lemma_concat(1, seq!['\n'], seq![' ']);
    lemma_concat(1, seq!['\n'] + seq![' '], seq![' ']);
}

/// An indented child of a block is balanced with its newlines inside the block.
proof fn lemma_child(t: Seq<char>)
    requires
        nested(t),
    ensures
        depth(indented(t)) == 0,
        inside(1, indented(t)),
        nested(indented(t)),
{
    lemma_indent_keeps(0, t);
    lemma_inside_mono(0, 1, indented(t));
}

/// Every rendered plane shape is nested.
pub proof fn lemma_text2_nested(s: Shape2)
    ensures
        nested(text2(s)),
    decreases s, 0int,
{
    reveal_strlit(");");
    reveal_strlit(")");
    match s {
        Shape2::Circle(a) => {
            reveal_strlit("circle(d = ");
            lemma_num_plain(a.val());
            lemma_leaf("circle(d = "@, num_text(a.val()), ");"@);
        },
        Shape2::Square(a) => {
            reveal_strlit("square(size = ");
            lemma_num_plain(a.val());
            lemma_leaf("square(size = "@, num_text(a.val()), ");"@);
        },
        Shape2::Rectangle(v) => {
            reveal_strlit("square(size = ");
            lemma_xy_plain(v);
            lemma_leaf("square(size = "@, xy_text(v), ");"@);
        },
        Shape2::Polygon(p) => {
            reveal_strlit("polygon(points = [ ");
            reveal_strlit(" ]);");
            lemma_points_plain(p, p.len() as int);
            lemma_leaf("polygon(points = [ "@, points_text(p, p.len() as int), " ]);"@);
        },
        Shape2::Color(c, b) => {
            reveal_strlit("color(");
            lemma_color_plain(c);
            lemma_plain3("color("@, color_text(c), ")"@);
            lemma_text2_nested(*b);
            lemma_child(text2(*b));
            lemma_block("color("@ + color_text(c) + ")"@, indented(text2(*b)));
        },
        Shape2::Rotate(a, b) => {
            reveal_strlit("rotate(");
            lemma_num_plain(a.val());
            lemma_plain3("rotate("@, num_text(a.val()), ")"@);
            lemma_text2_nested(*b);
            lemma_child(text2(*b));
            lemma_block("rotate("@ + num_text(a.val()) + ")"@, indented(text2(*b)));
        },
        Shape2::Scale(a, b) => {
            reveal_strlit("scale(v = ");
            lemma_num_plain(a.val());
            lemma_plain3("scale(v = "@, num_text(a.val()), ")"@);
            lemma_text2_nested(*b);
            lemma_child(text2(*b));
            lemma_block("scale(v = "@ + num_text(a.val()) + ")"@, indented(text2(*b)));
        },
        Shape2::Scale2(v, b) => {
            reveal_strlit("scale(v = ");
            lemma_xy_plain(v);
            lemma_plain3("scale(v = "@, xy_text(v), ")"@);
            lemma_text2_nested(*b);
            lemma_child(text2(*b));
            lemma_block("scale(v = "@ + xy_text(v) + ")"@, indented(text2(*b)));
        },
        Shape2::Translate(v, b) => {
            reveal_strlit("translate(v = ");
            lemma_xy_plain(v);
            lemma_plain3("translate(v = "@, xy_text(v), ")"@);
            lemma_text2_nested(*b);
            lemma_child(text2(*b));
            lemma_block("translate(v = "@ + xy_text(v) + ")"@, indented(text2(*b)));
        },
        Shape2::Mirror(v, b) => {
            reveal_strlit("mirror(v = ");
            lemma_xy_plain(v);
            lemma_plain3("mirror(v = "@, xy_text(v), ")"@);
            lemma_text2_nested(*b);
            lemma_child(text2(*b));
            lemma_block("mirror(v = "@ + xy_text(v) + ")"@, indented(text2(*b)));
        },
        Shape2::Join(k, kids) => {
            reveal_strlit("()");
            lemma_kind_plain(k);
            lemma_plain_concat(kind_text(k), "()"@);
            lemma_body2_nested(kids, kids.len() as int);
            lemma_block(kind_text(k) + "()"@, body2(kids, kids.len() as int));
        },
        Shape2::Difference(a, b) => {
            reveal_strlit("difference()");
            lemma_text2_nested(*a);
            lemma_text2_nested(*b);
            lemma_child(text2(*a));
            lemma_child(text2(*b));
            lemma_sep();
            let ia = indented(text2(*a));
            let ib = indented(text2(*b));
            lemma_concat(1, ia, sep());
            lemma_concat(1, ia + sep(), ib);
            lemma_block("difference()"@, ia + sep() + ib);
        },
    }
}

/// The body of a combinator is balanced, with its newlines inside the block.
pub proof fn lemma_body2_nested(kids: Seq<Shape2>, n: int)
    ensures
        depth(body2(kids, n)) == 0,
        inside(1, body2(kids, n)),
    decreases kids, n,
{
    if n <= 0 || n > kids.len() {
    } else if n == 1 {
        lemma_text2_nested(kids[0]);
        lemma_child(text2(kids[0]));
    } else {
        lemma_body2_nested(kids, n - 1);
        lemma_text2_nested(kids[n - 1]);
        lemma_child(text2(kids[n - 1]));
        lemma_sep();
        let prev = body2(kids, n - 1);
        let last = indented(text2(kids[n - 1]));
        lemma_concat(1, prev, sep());
        lemma_concat(1, prev + sep(), last);
    }
}

} // verus!
