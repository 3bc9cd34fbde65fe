//! Plane shapes: the tree, its normalizing constructors, and its rendering.
use vstd::prelude::*;
use crate::common::{
    DIterator, Aim, MAX_MILLIONTHS, block, color_text, kind_text, push_close, push_color, push_kind, push_open, push_sep,
    push_wrapped, sep, ColorEnum, JoinKind,
};
use crate::number::{
    fits, lemma_scaled_fits, num_text, push_num, push_xy, v2, xm, xscaled, xsum, xy_scaled,
    xy_text, SCALE, X, XY,
};
use crate::text::{indented, push_indented, push_str, string_of};

verus! {

broadcast use vstd::std_specs::vec::group_vec_axioms, vstd::seq::group_seq_axioms;

/// A plane shape tree.
#[derive(Debug)]
pub enum D2 {
    Circle(X),
    Square(X),
    Rectangle(XY),
    Polygon(Vec<XY>),
    Color(ColorEnum, Box<D2>),
    Rotate(X, Box<D2>),
    Scale(X, Box<D2>),
    Scale2(XY, Box<D2>),
    Translate(XY, Box<D2>),
    Mirror(XY, Box<D2>),
    Join(JoinKind, Vec<D2>),
    Difference(Box<D2>, Box<D2>),
}

/// The value of a plane shape tree, with its children as sequences.
pub enum Shape2 {
    Circle(X),
    Square(X),
    Rectangle(XY),
    Polygon(Seq<XY>),
    Color(ColorEnum, Box<Shape2>),
    Rotate(X, Box<Shape2>),
    Scale(X, Box<Shape2>),
    Scale2(XY, Box<Shape2>),
    Translate(XY, Box<Shape2>),
    Mirror(XY, Box<Shape2>),
    Join(JoinKind, Seq<Shape2>),
    Difference(Box<Shape2>, Box<Shape2>),
}

/// Values of the first `n` trees of `s`.
pub open spec fn kids_view2(s: Seq<D2>, n: int) -> Seq<Shape2>
    decreases s, n,
{
    if n <= 0 || n > s.len() {
        seq![]
    } else {
        kids_view2(s, n - 1).push(view2(s[n - 1]))
    }
}

/// Value of a plane shape tree.
pub open spec fn view2(d: D2) -> Shape2
    decreases d, 0int,
{
    match d {
        D2::Circle(a) => Shape2::Circle(a),
        D2::Square(a) => Shape2::Square(a),
        D2::Rectangle(v) => Shape2::Rectangle(v),
        D2::Polygon(p) => Shape2::Polygon(p@),
        D2::Color(c, b) => Shape2::Color(c, Box::new(view2(*b))),
        D2::Rotate(a, b) => Shape2::Rotate(a, Box::new(view2(*b))),
        D2::Scale(a, b) => Shape2::Scale(a, Box::new(view2(*b))),
        D2::Scale2(v, b) => Shape2::Scale2(v, Box::new(view2(*b))),
        D2::Translate(v, b) => Shape2::Translate(v, Box::new(view2(*b))),
        D2::Mirror(v, b) => Shape2::Mirror(v, Box::new(view2(*b))),
        D2::Join(k, v) => Shape2::Join(k, kids_view2(v@, v@.len() as int)),
        D2::Difference(a, b) => Shape2::Difference(Box::new(view2(*a)), Box::new(view2(*b))),
    }
}

impl View for D2 {
    type V = Shape2;

    open spec fn view(&self) -> Shape2 {
        view2(*self)
    }
}

/// The values of all the trees of `s`.
pub open spec fn views2(s: Seq<D2>) -> Seq<Shape2> {
    kids_view2(s, s.len() as int)
}

/// The values of the first `n` trees are their values one by one.
pub proof fn lemma_kids_view2(s: Seq<D2>, n: int)
    requires
        0 <= n <= s.len(),
    ensures
        kids_view2(s, n).len() == n,
        forall|j: int| 0 <= j < n ==> #[trigger] kids_view2(s, n)[j] == view2(s[j]),
    decreases n,
{
    if n > 0 {
        lemma_kids_view2(s, n - 1);
    }
}

/// Two sequences of trees with the same values one by one have the same values.
pub proof fn lemma_views2_eq(a: Seq<D2>, b: Seq<D2>)
    requires
        a.len() == b.len(),
        forall|j: int| 0 <= j < a.len() ==> view2(#[trigger] a[j]) == view2(b[j]),
    ensures
        views2(a) == views2(b),
{
    lemma_kids_view2(a, a.len() as int);
    lemma_kids_view2(b, b.len() as int);
    assert(views2(a) =~= views2(b));
}

/// The values of a sequence with one more tree.
pub proof fn lemma_views2_push(s: Seq<D2>, d: D2)
    ensures
        views2(s.push(d)) == views2(s).push(view2(d)),
{
    lemma_kids_view2(s, s.len() as int);
    lemma_kids_view2(s.push(d), s.len() + 1 as int);
    assert(views2(s.push(d)) =~= views2(s).push(view2(d)));
}

/// Text of a list of points: `[x0, y0], [x1, y1]`.
pub open spec fn points_text(p: Seq<XY>, n: int) -> Seq<char>
    decreases n,
{
    if n <= 0 || n > p.len() {
        seq![]
    } else if n == 1 {
        xy_text(p[0])
    } else {
        points_text(p, n - 1) + ", "@ + xy_text(p[n - 1])
    }
}

/// Body of a combinator: the first `n` children, indented, one per line.
pub open spec fn body2(kids: Seq<Shape2>, n: int) -> Seq<char>
    decreases kids, n,
{
    if n <= 0 || n > kids.len() {
        seq![]
    } else if n == 1 {
        indented(text2(kids[0]))
    } else {
        body2(kids, n - 1) + sep() + indented(text2(kids[n - 1]))
    }
}

/// Script text of a plane shape.
pub open spec fn text2(s: Shape2) -> Seq<char>
    decreases s, 0int,
{
    match s {
        Shape2::Circle(a) => "circle(d = "@ + num_text(a.val()) + ");"@,
        Shape2::Square(a) => "square(size = "@ + num_text(a.val()) + ");"@,
        Shape2::Rectangle(v) => "square(size = "@ + xy_text(v) + ");"@,
        Shape2::Polygon(p) => "polygon(points = [ "@ + points_text(p, p.len() as int) + " ]);"@,
        Shape2::Color(c, b) => block("color("@ + color_text(c) + ")"@, indented(text2(*b))),
        Shape2::Rotate(a, b) => block("rotate("@ + num_text(a.val()) + ")"@, indented(text2(*b))),
        Shape2::Scale(a, b) => block("scale(v = "@ + num_text(a.val()) + ")"@, indented(text2(*b))),
        Shape2::Scale2(v, b) => block("scale(v = "@ + xy_text(v) + ")"@, indented(text2(*b))),
        Shape2::Translate(v, b) => block("translate(v = "@ + xy_text(v) + ")"@, indented(text2(*b))),
        Shape2::Mirror(v, b) => block("mirror(v = "@ + xy_text(v) + ")"@, indented(text2(*b))),
        Shape2::Join(k, kids) => block(kind_text(k) + "()"@, body2(kids, kids.len() as int)),
        Shape2::Difference(a, b) => block(
            "difference()"@,
            indented(text2(*a)) + sep() + indented(text2(*b)),
        ),
    }
}

/// Appends the points of a polygon.
fn push_points(out: &mut Vec<char>, p: &Vec<XY>)
    ensures
        final(out)@ == old(out)@ + points_text(p@, p@.len() as int),
{
    let mut i: usize = 0;
    while i < p.len()
        invariant
            i <= p@.len(),
            out@ == old(out)@ + points_text(p@, i as int),
        decreases p@.len() - i,
    {
        if i > 0 {
            push_str(out, ", ");
        }
        push_xy(out, p[i]);
        i = i + 1;
        assert(out@ =~= old(out)@ + points_text(p@, i as int));
    }
}

impl D2 {
    /// Appends the script text of the shape.
    #[verifier::rlimit(50)]
    pub fn write(&self, out: &mut Vec<char>)
        ensures
            final(out)@ == old(out)@ + text2(self@),
        decreases self,
    {
        match self {
            D2::Circle(a) => {
                push_str(out, "circle(d = ");
                push_num(out, a.millionths);
                push_str(out, ");");
            },
            D2::Square(a) => {
                push_str(out, "square(size = ");
                push_num(out, a.millionths);
                push_str(out, ");");
            },
            D2::Rectangle(v) => {
                push_str(out, "square(size = ");
                push_xy(out, *v);
                push_str(out, ");");
            },
            D2::Polygon(p) => {
                push_str(out, "polygon(points = [ ");
                push_points(out, p);
                push_str(out, " ]);");
            },
            D2::Color(c, b) => {
                let mut head: Vec<char> = Vec::new();
                push_str(&mut head, "color(");
                push_color(&mut head, *c);
                push_str(&mut head, ")");
                let mut child: Vec<char> = Vec::new();
                b.write(&mut child);
                push_wrapped(out, &head, &child);
            },
            D2::Rotate(a, b) => {
                let mut head: Vec<char> = Vec::new();
                push_str(&mut head, "rotate(");
                push_num(&mut head, a.millionths);
                push_str(&mut head, ")");
                let mut child: Vec<char> = Vec::new();
                b.write(&mut child);
                push_wrapped(out, &head, &child);
            },
            D2::Scale(a, b) => {
                let mut head: Vec<char> = Vec::new();
                push_str(&mut head, "scale(v = ");
                push_num(&mut head, a.millionths);
                push_str(&mut head, ")");
                let mut child: Vec<char> = Vec::new();
                b.write(&mut child);
                push_wrapped(out, &head, &child);
            },
            D2::Scale2(v, b) => {
                let mut head: Vec<char> = Vec::new();
                push_str(&mut head, "scale(v = ");
                push_xy(&mut head, *v);
                push_str(&mut head, ")");
                let mut child: Vec<char> = Vec::new();
                b.write(&mut child);
                push_wrapped(out, &head, &child);
            },
            D2::Translate(v, b) => {
                let mut head: Vec<char> = Vec::new();
                push_str(&mut head, "translate(v = ");
                push_xy(&mut head, *v);
                push_str(&mut head, ")");
                let mut child: Vec<char> = Vec::new();
                b.write(&mut child);
                push_wrapped(out, &head, &child);
            },
            D2::Mirror(v, b) => {
                let mut head: Vec<char> = Vec::new();
                push_str(&mut head, "mirror(v = ");
                push_xy(&mut head, *v);
                push_str(&mut head, ")");
                let mut child: Vec<char> = Vec::new();
                b.write(&mut child);
                push_wrapped(out, &head, &child);
            },
            D2::Join(k, v) => {
                proof {
                    lemma_kids_view2(v@, v@.len() as int);
                }
                let ghost kids = views2(v@);
                push_kind(out, *k);
                push_str(out, "()");
                push_open(out);
                let ghost start = out@;
                let mut i: usize = 0;
                while i < v.len()
                    invariant
                        i <= v@.len(),
                        *self == D2::Join(*k, *v),
                        kids == views2(v@),
                        kids.len() == v@.len(),
                        forall|j: int| 0 <= j < v@.len() ==> #[trigger] kids[j] == view2(v@[j]),
                        out@ == start + body2(kids, i as int),
                    decreases v@.len() - i,
                {
                    if i > 0 {
                        push_sep(out);
                    }
                    let mut child: Vec<char> = Vec::new();
                    proof {
                        assert(decreases_to!(*self => (*self)->Join_1));
                        assert(decreases_to!(*v => v[i as int]));
                        assert(decreases_to!(*self => v[i as int]));
                    }
                    v[i].write(&mut child);
                    push_indented(out, &child);
                    i = i + 1;
                    assert(out@ =~= start + body2(kids, i as int));
                }
                push_close(out);
            },
            D2::Difference(a, b) => {
                push_str(out, "difference()");
                push_open(out);
                let mut first: Vec<char> = Vec::new();
                a.write(&mut first);
                push_indented(out, &first);
                push_sep(out);
                let mut second: Vec<char> = Vec::new();
                b.write(&mut second);
                push_indented(out, &second);
                push_close(out);
            },
        }
        assert(final(out)@ =~= old(out)@ + text2(self@));
    }

    /// The script text of the shape.
    pub fn scad(&self) -> (r: String)
        ensures
            r@ == text2(self@),
    {
        let mut out: Vec<char> = Vec::new();
        self.write(&mut out);
        assert(out@ =~= text2(self@));
        string_of(&out)
    }

    /// The script text of the shape, as it stands inside a block one level deeper.
    pub fn indent(&self) -> (r: String)
        ensures
            r@ == indented(text2(self@)),
    {
        let mut t: Vec<char> = Vec::new();
        self.write(&mut t);
        let mut out: Vec<char> = Vec::new();
        push_indented(&mut out, &t);
        assert(out@ =~= indented(text2(self@)));
        string_of(&out)
    }
}

/// The script text of `shape`, as it stands inside a block one level deeper.
pub fn indent(shape: &D2) -> (r: String)
    ensures
        r@ == indented(text2(shape@)),
{
    shape.indent()
}


/// `s` extended by `o` under the combinator `k`: appended to the children when `s` is
/// already a node of that kind, else the two side by side in a new node.
pub open spec fn extended2(s: Shape2, k: JoinKind, o: Shape2) -> Shape2 {
    match s {
        Shape2::Join(k2, kids) => if k2 == k {
            Shape2::Join(k, kids.push(o))
        } else {
            Shape2::Join(k, seq![s, o])
        },
        _ => Shape2::Join(k, seq![s, o]),
    }
}

/// The hull of `s`: the children of a union become the hull's children.
pub open spec fn hulled2(s: Shape2) -> Shape2 {
    match s {
        Shape2::Join(k, kids) => if k == JoinKind::Union {
            Shape2::Join(JoinKind::Hull, kids)
        } else {
            Shape2::Join(JoinKind::Hull, seq![s])
        },
        _ => Shape2::Join(JoinKind::Hull, seq![s]),
    }
}

/// `s` moved by `d`: a translation node absorbs the move into its own vector.
pub open spec fn translated2(s: Shape2, d: XY) -> Shape2 {
    match s {
        Shape2::Translate(w, c) => Shape2::Translate(XY(xsum(w.0, d.0), xsum(w.1, d.1)), c),
        _ => Shape2::Translate(d, Box::new(s)),
    }
}

/// `s` turned by `a` degrees: a rotation node absorbs the turn into its own angle.
pub open spec fn rotated2(s: Shape2, a: X) -> Shape2 {
    match s {
        Shape2::Rotate(b, c) => Shape2::Rotate(xsum(b, a), c),
        _ => Shape2::Rotate(a, Box::new(s)),
    }
}

/// Moving `s` by `(dx, dy)` millionths keeps every coordinate in range.
pub open spec fn offset_fits2(s: Shape2, dx: int, dy: int) -> bool {
    &&& fits(dx)
    &&& fits(dy)
    &&& s matches Shape2::Translate(w, _) ==> fits(w.0.val() + dx) && fits(w.1.val() + dy)
}

/// Turning `s` by `a` millionths of a degree keeps the angle in range.
pub open spec fn turn_fits2(s: Shape2, a: int) -> bool {
    &&& fits(a)
    &&& s matches Shape2::Rotate(b, _) ==> fits(b.val() + a)
}

/// The `n` copies of `s` moved by `0, v, 2v, ...`.
pub open spec fn translations2(s: Shape2, v: XY, n: nat) -> Seq<Shape2> {
    Seq::new(n, |i: int| translated2(s, xy_scaled(v, i)))
}

/// The `n` copies of `s` turned by `0, a, 2a, ...`.
pub open spec fn rotations2(s: Shape2, a: X, n: nat) -> Seq<Shape2> {
    Seq::new(n, |i: int| rotated2(s, xscaled(a, i)))
}

/// Angle, in millionths of a degree, of copy `i` of `n` spread evenly over a full turn.
pub open spec fn equal_angle(n: int, i: int) -> int {
    (360 * (SCALE as int) * i) / n
}

/// The `n` copies of `s` turned by `360 / n * i` degrees.
pub open spec fn equal_rotations2(s: Shape2, n: nat) -> Seq<Shape2> {
    Seq::new(n, |i: int| rotated2(s, xm(equal_angle(n as int, i))))
}

/// The placements of a half-plane: a large square moved so that one edge lies on an axis.
pub open spec fn half_plane2(aim: Aim) -> Shape2 {
    let m = MAX_MILLIONTHS as int;
    match aim {
        Aim::N => Shape2::Translate(XY(xm(-(m / 2)), xm(0)), Box::new(Shape2::Square(xm(m)))),
        Aim::S => Shape2::Translate(XY(xm(-(m / 2)), xm(-m)), Box::new(Shape2::Square(xm(m)))),
        Aim::E => Shape2::Translate(XY(xm(0), xm(-(m / 2))), Box::new(Shape2::Square(xm(m)))),
        Aim::W => Shape2::Translate(XY(xm(-m), xm(-(m / 2))), Box::new(Shape2::Square(xm(m)))),
        Aim::U => Shape2::Translate(XY(xm(-(m / 2)), xm(0)), Box::new(Shape2::Square(xm(m)))),
        Aim::D => Shape2::Translate(XY(xm(-(m / 2)), xm(-m)), Box::new(Shape2::Square(xm(m)))),
    }
}

impl Clone for D2 {
    /// A copy of the tree.
    fn clone(&self) -> (r: D2)
        ensures
            r@ == self@,
        decreases self,
    {
        match self {
            D2::Circle(a) => D2::Circle(*a),
            D2::Square(a) => D2::Square(*a),
            D2::Rectangle(v) => D2::Rectangle(*v),
            D2::Polygon(p) => {
                let mut q: Vec<XY> = Vec::new();
                let mut i: usize = 0;
                while i < p.len()
                    invariant
                        i <= p@.len(),
                        q@ == p@.subrange(0, i as int),
                    decreases p@.len() - i,
                {
                    q.push(p[i]);
                    i = i + 1;
                    assert(q@ =~= p@.subrange(0, i as int));
                }
                assert(q@ =~= p@);
                D2::Polygon(q)
            },
            D2::Color(c, b) => D2::Color(*c, Box::new((**b).clone())),
            D2::Rotate(a, b) => D2::Rotate(*a, Box::new((**b).clone())),
            D2::Scale(a, b) => D2::Scale(*a, Box::new((**b).clone())),
            D2::Scale2(v, b) => D2::Scale2(*v, Box::new((**b).clone())),
            D2::Translate(v, b) => D2::Translate(*v, Box::new((**b).clone())),
            D2::Mirror(v, b) => D2::Mirror(*v, Box::new((**b).clone())),
            D2::Join(k, v) => {
                let mut w: Vec<D2> = Vec::new();
                let mut i: usize = 0;
                while i < v.len()
                    invariant
                        i <= v@.len(),
                        *self == D2::Join(*k, *v),
                        w@.len() == i,
                        forall|j: int| 0 <= j < i ==> view2(#[trigger] w@[j]) == view2(v@[j]),
                    decreases v@.len() - i,
                {
                    proof {
                        assert(decreases_to!(*self => (*self)->Join_1));
                        assert(decreases_to!(*v => v[i as int]));
                    }
                    let c = v[i].clone();
                    w.push(c);
                    i = i + 1;
                }
                proof {
                    lemma_views2_eq(w@, v@);
                }
                D2::Join(*k, w)
            },
            D2::Difference(a, b) => D2::Difference(
                Box::new((**a).clone()),
                Box::new((**b).clone()),
            ),
        }
    }
}

/// Two shapes side by side under the combinator `k`.
fn pair2(k: JoinKind, a: D2, b: D2) -> (r: D2)
    ensures
        r@ == Shape2::Join(k, seq![a@, b@]),
{
    let v = vec![a, b];
    proof {
        lemma_kids_view2(v@, 2);
        assert(views2(v@) =~= seq![a@, b@]);
    }
    D2::Join(k, v)
}

impl D2 {
    /// A circle of `diameter` centered at the origin.
    pub fn circle(diameter: X) -> (r: D2)
        ensures
            r@ == Shape2::Circle(diameter),
    {
        D2::Circle(diameter)
    }

    /// A square with side length `side` with lower left corner at the origin.
    pub fn square(side: X) -> (r: D2)
        ensures
            r@ == Shape2::Square(side),
    {
        D2::Square(side)
    }

    /// A rectangle of width `w` and height `h` with lower left corner at the origin.
    pub fn rectangle(w: X, h: X) -> (r: D2)
        ensures
            r@ == Shape2::Rectangle(XY(w, h)),
    {
        D2::Rectangle(XY(w, h))
    }

    /// `self` extended by `other` under the combinator `k`.
    fn extend(self, k: JoinKind, other: D2) -> (r: D2)
        ensures
            r@ == extended2(self@, k, other@),
    {
        match self {
            D2::Join(k2, v) => {
                if k2 == k {
                    let mut v = v;
                    proof {
                        lemma_views2_push(v@, other);
                    }
                    v.push(other);
                    D2::Join(k, v)
                } else {
                    pair2(k, D2::Join(k2, v), other)
                }
            },
            _ => pair2(k, self, other),
        }
    }

    /// The union of `self` and `other`; a union grows by one child.
    pub fn add(self, other: D2) -> (r: D2)
        ensures
            r@ == extended2(self@, JoinKind::Union, other@),
    {
        self.extend(JoinKind::Union, other)
    }

    /// `other` cut out of `self`.
    pub fn difference(self, other: D2) -> (r: D2)
        ensures
            r@ == Shape2::Difference(Box::new(self@), Box::new(other@)),
    {
        D2::Difference(Box::new(self), Box::new(other))
    }

    /// `other` cut out of `self`.
    pub fn sub(self, other: D2) -> (r: D2)
        ensures
            r@ == Shape2::Difference(Box::new(self@), Box::new(other@)),
    {
        D2::Difference(Box::new(self), Box::new(other))
    }

    /// The intersection of `self` and `other`.
    pub fn and(self, other: D2) -> (r: D2)
        ensures
            r@ == extended2(self@, JoinKind::Intersection, other@),
    {
        self.intersection(other)
    }

    /// The intersection of `self` and `other`; an intersection grows by one child.
    pub fn intersection(self, other: D2) -> (r: D2)
        ensures
            r@ == extended2(self@, JoinKind::Intersection, other@),
    {
        self.extend(JoinKind::Intersection, other)
    }

    /// The Minkowski sum of `self` and `other`; a Minkowski sum grows by one child.
    pub fn minkowski(self, other: D2) -> (r: D2)
        ensures
            r@ == extended2(self@, JoinKind::Minkowski, other@),
    {
        self.extend(JoinKind::Minkowski, other)
    }

    /// The hull of `self`; the children of a union become the children of the hull.
    pub fn hull(self) -> (r: D2)
        ensures
            r@ == hulled2(self@),
    {
        match self {
            D2::Join(k, v) => {
                if k == JoinKind::Union {
                    D2::Join(JoinKind::Hull, v)
                } else {
                    let v1 = vec![D2::Join(k, v)];
                    proof {
                        lemma_kids_view2(v1@, 1);
                        assert(views2(v1@) =~= seq![view2(v1@[0])]);
                    }
                    D2::Join(JoinKind::Hull, v1)
                }
            },
            _ => {
                let ghost s = self@;
                let v1 = vec![self];
                proof {
                    lemma_kids_view2(v1@, 1);
                    assert(views2(v1@) =~= seq![s]);
                }
                D2::Join(JoinKind::Hull, v1)
            },
        }
    }

    /// A very large square covering the half-plane on the side `aim` of an axis.
    pub fn half_plane(aim: Aim) -> (r: D2)
        ensures
            r@ == half_plane2(aim),
    {
        let m = MAX_MILLIONTHS;
        match aim {
            Aim::N => D2::square(X::from_millionths(m)).translate(
                v2(X::from_millionths(-(m / 2)), X::from_millionths(0)),
            ),
            Aim::S => D2::square(X::from_millionths(m)).translate(
                v2(X::from_millionths(-(m / 2)), X::from_millionths(-m)),
            ),
            Aim::E => D2::square(X::from_millionths(m)).translate(
                v2(X::from_millionths(0), X::from_millionths(-(m / 2))),
            ),
            Aim::W => D2::square(X::from_millionths(m)).translate(
                v2(X::from_millionths(-m), X::from_millionths(-(m / 2))),
            ),
            Aim::U => D2::square(X::from_millionths(m)).translate(
                v2(X::from_millionths(-(m / 2)), X::from_millionths(0)),
            ),
            Aim::D => D2::square(X::from_millionths(m)).translate(
                v2(X::from_millionths(-(m / 2)), X::from_millionths(-m)),
            ),
        }
    }

    /// The union of `self` and `f(self)`.
    pub fn add_map<F: Fn(D2) -> D2>(self, f: F) -> (r: D2)
        requires
            f.requires((self,)),
        ensures
            exists|m: D2| f.ensures((self,), m) && r@ == extended2(self@, JoinKind::Union, m@),
    {
        let c = self.clone();
        let m = f(self);
        c.add(m)
    }

    /// A triangle with corners `xy0`, `xy1`, `xy2`.
    pub fn triangle(xy0: XY, xy1: XY, xy2: XY) -> (r: D2)
        ensures
            r@ == Shape2::Polygon(seq![xy0, xy1, xy2]),
    {
        let v = vec![xy0, xy1, xy2];
        assert(v@ =~= seq![xy0, xy1, xy2]);
        D2::Polygon(v)
    }

    /// A triangle with corners given as coordinate pairs.
    pub fn triangle2(xy0: (X, X), xy1: (X, X), xy2: (X, X)) -> (r: D2)
        ensures
            r@ == Shape2::Polygon(
                seq![XY(xy0.0, xy0.1), XY(xy1.0, xy1.1), XY(xy2.0, xy2.1)],
            ),
    {
        D2::triangle(XY(xy0.0, xy0.1), XY(xy1.0, xy1.1), XY(xy2.0, xy2.1))
    }

    /// A polygon through `points`, in order.
    pub fn polygon(points: Vec<XY>) -> (r: D2)
        ensures
            r@ == Shape2::Polygon(points@),
    {
        D2::Polygon(points)
    }

    /// A polygon through points given as coordinate pairs, in order.
    pub fn polygon2(points: Vec<(X, X)>) -> (r: D2)
        ensures
            r@ == Shape2::Polygon(points@.map_values(|p: (X, X)| XY(p.0, p.1))),
    {
        let mut q: Vec<XY> = Vec::new();
        let mut i: usize = 0;
        while i < points.len()
            invariant
                i <= points@.len(),
                q@ == points@.subrange(0, i as int).map_values(|p: (X, X)| XY(p.0, p.1)),
            decreases points@.len() - i,
        {
            let p = points[i];
            q.push(XY(p.0, p.1));
            i = i + 1;
            assert(q@ =~= points@.subrange(0, i as int).map_values(|p: (X, X)| XY(p.0, p.1)));
        }
        assert(points@.subrange(0, points@.len() as int) =~= points@);
        D2::Polygon(q)
    }

    /// The shape moved by `xy`; a translation absorbs the move into its own vector.
    pub fn translate(&self, xy: XY) -> (r: D2)
        requires
            offset_fits2(self@, xy.0.val(), xy.1.val()),
        ensures
            r@ == translated2(self@, xy),
    {
        match self {
            D2::Translate(v, d2) => D2::Translate(v.plus(xy), Box::new((**d2).clone())),
            _ => D2::Translate(xy, Box::new(self.clone())),
        }
    }

    /// The shape mirrored across the line through the origin normal to `xy`.
    pub fn mirror(&self, xy: XY) -> (r: D2)
        ensures
            r@ == Shape2::Mirror(xy, Box::new(self@)),
    {
        D2::Mirror(xy, Box::new(self.clone()))
    }

    /// The shape turned by `theta` degrees; a rotation absorbs the turn into its own angle.
    pub fn rotate(&self, theta: X) -> (r: D2)
        requires
            turn_fits2(self@, theta.val()),
        ensures
            r@ == rotated2(self@, theta),
    {
        match self {
            D2::Rotate(phi, d2) => D2::Rotate(phi.plus(theta), Box::new((**d2).clone())),
            _ => D2::Rotate(theta, Box::new(self.clone())),
        }
    }

    /// The shape colored `color_name`.
    pub fn color(self, color_name: ColorEnum) -> (r: D2)
        ensures
            r@ == Shape2::Color(color_name, Box::new(self@)),
    {
        D2::Color(color_name, Box::new(self))
    }

    /// The shape scaled by the factor `scale_factor`.
    pub fn scale(self, scale_factor: X) -> (r: D2)
        ensures
            r@ == Shape2::Scale(scale_factor, Box::new(self@)),
    {
        D2::Scale(scale_factor, Box::new(self))
    }

    /// The shape scaled by `xy.0` along x and `xy.1` along y.
    pub fn scale2(self, xy: XY) -> (r: D2)
        ensures
            r@ == Shape2::Scale2(xy, Box::new(self@)),
    {
        D2::Scale2(xy, Box::new(self))
    }

    /// The `n` copies of the shape moved by `0, xy, 2 xy, ...`, in that order.
    pub fn iter_translate(&self, xy: XY, n: u32) -> (r: Vec<D2>)
        requires
            n == 0 || offset_fits2(self@, xy.0.val() * (n - 1), xy.1.val() * (n - 1)),
        ensures
            views2(r@) == translations2(self@, xy, n as nat),
    {
        let mut out: Vec<D2> = Vec::new();
        let mut i: u32 = 0;
        while i < n
            invariant
                i <= n,
                n == 0 || offset_fits2(self@, xy.0.val() * (n - 1), xy.1.val() * (n - 1)),
                out@.len() == i,
                forall|j: int|
                    0 <= j < i ==> view2(#[trigger] out@[j]) == translated2(self@, xy_scaled(xy, j)),
            decreases n - i,
        {
            proof {
                lemma_scaled_fits(0, xy.0.val(), i as int, n - 1);
                lemma_scaled_fits(0, xy.1.val(), i as int, n - 1);
                if let Shape2::Translate(w, _) = self@ {
                    lemma_scaled_fits(w.0.val(), xy.0.val(), i as int, n - 1);
                    lemma_scaled_fits(w.1.val(), xy.1.val(), i as int, n - 1);
                }
            }
            let step = xy.times(i as i64);
            assert(step == xy_scaled(xy, i as int));
            out.push(self.translate(step));
            i = i + 1;
        }
        proof {
            lemma_kids_view2(out@, out@.len() as int);
            assert(views2(out@) =~= translations2(self@, xy, n as nat));
        }
        out
    }

    /// The `n` copies of the shape moved by `0, xy, 2 xy, ...`, in that order.
    pub fn translate_vec(&self, xy: XY, n: u32) -> (r: Vec<D2>)
        requires
            n == 0 || offset_fits2(self@, xy.0.val() * (n - 1), xy.1.val() * (n - 1)),
        ensures
            views2(r@) == translations2(self@, xy, n as nat),
    {
        self.iter_translate(xy, n)
    }

    /// The `n` copies of the shape turned by `0, theta, 2 theta, ...` degrees, in that order.
    pub fn iter_rotate(&self, theta: X, n: u32) -> (r: Vec<D2>)
        requires
            n == 0 || turn_fits2(self@, theta.val() * (n - 1)),
        ensures
            views2(r@) == rotations2(self@, theta, n as nat),
    {
        let mut out: Vec<D2> = Vec::new();
        let mut i: u32 = 0;
        while i < n
            invariant
                i <= n,
                n == 0 || turn_fits2(self@, theta.val() * (n - 1)),
                out@.len() == i,
                forall|j: int|
                    0 <= j < i ==> view2(#[trigger] out@[j]) == rotated2(self@, xscaled(theta, j)),
            decreases n - i,
        {
            proof {
                lemma_scaled_fits(0, theta.val(), i as int, n - 1);
                if let Shape2::Rotate(b, _) = self@ {
                    lemma_scaled_fits(b.val(), theta.val(), i as int, n - 1);
                }
            }
            let step = theta.times(i as i64);
            out.push(self.rotate(step));
            i = i + 1;
        }
        proof {
            lemma_kids_view2(out@, out@.len() as int);
            assert(views2(out@) =~= rotations2(self@, theta, n as nat));
        }
        out
    }

    /// The `n` copies of the shape turned by `360 / n * i` degrees for `i = 0 .. n`.
    pub fn iter_rotate_equal(&self, n: u32) -> (r: Vec<D2>)
        requires
            turn_fits2(self@, 360 * (SCALE as int)),
        ensures
            views2(r@) == equal_rotations2(self@, n as nat),
    {
        let mut out: Vec<D2> = Vec::new();
        let mut i: u32 = 0;
        while i < n
            invariant
                i <= n,
                turn_fits2(self@, 360 * (SCALE as int)),
                out@.len() == i,
                forall|j: int|
                    0 <= j < i ==> view2(#[trigger] out@[j]) == rotated2(
                        self@,
                        xm(equal_angle(n as int, j)),
                    ),
            decreases n - i,
        {
            let angle: i64 = (360_000_000 * (i as i64)) / (n as i64);
            assert(0 <= angle <= 360 * (SCALE as int)) by (nonlinear_arith)
                requires
                    angle as int == (360_000_000 * (i as int)) / (n as int),
                    0 <= i < n,
            ;
            out.push(self.rotate(X::from_millionths(angle)));
            i = i + 1;
        }
        proof {
            lemma_kids_view2(out@, out@.len() as int);
            assert(views2(out@) =~= equal_rotations2(self@, n as nat));
        }
        out
    }

    /// Four copies of the shape moved by `d` east, north, west and south, in that order.
    pub fn iter_square_edge(&self, d: X) -> (r: Vec<D2>)
        requires
            offset_fits2(self@, d.val(), 0),
            offset_fits2(self@, 0, d.val()),
            offset_fits2(self@, -d.val(), 0),
            offset_fits2(self@, 0, -d.val()),
        ensures
            views2(r@) == seq![
                translated2(self@, XY(d, xm(0))),
                translated2(self@, XY(xm(0), d)),
                translated2(self@, XY(xm(-d.val()), xm(0))),
                translated2(self@, XY(xm(0), xm(-d.val()))),
            ],
    {
        let zero = X::from_millionths(0);
        let minus = X::from_millionths(-d.millionths);
        let v = vec![
            self.translate(v2(d, zero)),
            self.translate(v2(zero, d)),
            self.translate(v2(minus, zero)),
            self.translate(v2(zero, minus)),
        ];
        proof {
            lemma_kids_view2(v@, 4);
            assert(views2(v@) =~= seq![
                translated2(self@, XY(d, xm(0))),
                translated2(self@, XY(xm(0), d)),
                translated2(self@, XY(xm(-d.val()), xm(0))),
                translated2(self@, XY(xm(0), xm(-d.val()))),
            ]);
        }
        v
    }
}

impl DIterator<D2> for Vec<D2> {
    open spec fn joined(self, k: JoinKind) -> Shape2 {
        Shape2::Join(k, views2(self@))
    }

    fn hull(self) -> (r: D2) {
        D2::Join(JoinKind::Hull, self)
    }

    fn union(self) -> (r: D2) {
        D2::Join(JoinKind::Union, self)
    }

    fn intersection(self) -> (r: D2) {
        D2::Join(JoinKind::Intersection, self)
    }

    fn minkowski(self) -> (r: D2) {
        D2::Join(JoinKind::Minkowski, self)
    }

    fn sum(self) -> (r: D2) {
        D2::Join(JoinKind::Union, self)
    }

    fn product(self) -> (r: D2) {
        D2::Join(JoinKind::Intersection, self)
    }
}

impl std::ops::Add<D2> for D2 {
    type Output = D2;

    /// The union of the two shapes, as `D2::add`.
    fn add(self, other: D2) -> (r: D2)
        ensures
            r@ == extended2(self@, JoinKind::Union, other@),
    {
        D2::add(self, other)
    }
}

impl std::ops::Sub<D2> for D2 {
    type Output = D2;

    /// The second shape cut out of the first, as `D2::difference`.
    fn sub(self, other: D2) -> (r: D2)
        ensures
            r@ == Shape2::Difference(Box::new(self@), Box::new(other@)),
    {
        D2::difference(self, other)
    }
}

impl vstd::std_specs::ops::AddSpecImpl<D2> for D2 {
    /// Trees hold vectors, so `+` is stated through the views of `D2::add` only.
    open spec fn obeys_add_spec() -> bool {
        false
    }

    open spec fn add_req(self, rhs: D2) -> bool {
        true
    }

    open spec fn add_spec(self, rhs: D2) -> D2 {
        choose|r: D2| r@ == extended2(self@, JoinKind::Union, rhs@)
    }
}

impl vstd::std_specs::ops::SubSpecImpl<D2> for D2 {
    /// Trees hold vectors, so `-` is stated through the views of `D2::difference` only.
    open spec fn obeys_sub_spec() -> bool {
        false
    }

    open spec fn sub_req(self, rhs: D2) -> bool {
        true
    }

    open spec fn sub_spec(self, rhs: D2) -> D2 {
        choose|r: D2| r@ == Shape2::Difference(Box::new(self@), Box::new(rhs@))
    }
}

} // verus!
