//! Space shapes: the tree, its normalizing constructors, and its rendering.
use vstd::prelude::*;
use crate::common::{
    Aim, DIterator, MAX_MILLIONTHS, block, color_text, kind_text, push_close, push_color, push_kind, push_open, push_sep,
    push_wrapped, sep, ColorEnum, JoinKind,
};
use crate::number::{
    digits, fits, floor_sqrt, isqrt, lemma_scaled_fits, num_text, v3, xm, xscaled, xsum, push_digits, push_num, push_xyz, xyz_text, SCALE, X, XYZ,
};
use crate::scad2d::{text2, Shape2, D2};
use crate::text::{indented, push_indented, push_str, string_of};

verus! {

broadcast use vstd::std_specs::vec::group_vec_axioms, vstd::seq::group_seq_axioms;

/// A space shape tree.
#[derive(Debug)]
pub enum D3 {
    Cube(X),
    Cuboid(XYZ),
    Color(ColorEnum, Box<D3>),
    Cylinder(X, X),
    Sphere(X),
    Polyhedron(Vec<XYZ>, Vec<Vec<u32>>),
    Translate(XYZ, Box<D3>),
    Scale(X, Box<D3>),
    Scale3(XYZ, Box<D3>),
    Rotate(XYZ, Box<D3>),
    LinearExtrude(X, Box<D2>),
    RotateExtrude(X, Box<D2>),
    Join(JoinKind, Vec<D3>),
    Difference(Box<D3>, Box<D3>),
}

/// The value of a space shape tree, with its children as sequences.
pub enum Shape3 {
    Cube(X),
    Cuboid(XYZ),
    Color(ColorEnum, Box<Shape3>),
    Cylinder(X, X),
    Sphere(X),
    Polyhedron(Seq<XYZ>, Seq<Seq<u32>>),
    Translate(XYZ, Box<Shape3>),
    Scale(X, Box<Shape3>),
    Scale3(XYZ, Box<Shape3>),
    Rotate(XYZ, Box<Shape3>),
    LinearExtrude(X, Box<Shape2>),
    RotateExtrude(X, Box<Shape2>),
    Join(JoinKind, Seq<Shape3>),
    Difference(Box<Shape3>, Box<Shape3>),
}

/// Values of the first `n` trees of `s`.
pub open spec fn kids_view3(s: Seq<D3>, n: int) -> Seq<Shape3>
    decreases s, n,
{
    if n <= 0 || n > s.len() {
        seq![]
    } else {
        kids_view3(s, n - 1).push(view3(s[n - 1]))
    }
}

/// The faces of a polyhedron, as sequences of point indices.
pub open spec fn faces_view(f: Seq<Vec<u32>>) -> Seq<Seq<u32>> {
    f.map_values(|v: Vec<u32>| v@)
}

/// Value of a space shape tree.
pub open spec fn view3(d: D3) -> Shape3
    decreases d, 0int,
{
    match d {
        D3::Cube(a) => Shape3::Cube(a),
        D3::Cuboid(v) => Shape3::Cuboid(v),
        D3::Color(c, b) => Shape3::Color(c, Box::new(view3(*b))),
        D3::Cylinder(h, r) => Shape3::Cylinder(h, r),
        D3::Sphere(r) => Shape3::Sphere(r),
        D3::Polyhedron(p, f) => Shape3::Polyhedron(p@, faces_view(f@)),
        D3::Translate(v, b) => Shape3::Translate(v, Box::new(view3(*b))),
        D3::Scale(a, b) => Shape3::Scale(a, Box::new(view3(*b))),
        D3::Scale3(v, b) => Shape3::Scale3(v, Box::new(view3(*b))),
        D3::Rotate(v, b) => Shape3::Rotate(v, Box::new(view3(*b))),
        D3::LinearExtrude(h, b) => Shape3::LinearExtrude(h, Box::new((*b)@)),
        D3::RotateExtrude(a, b) => Shape3::RotateExtrude(a, Box::new((*b)@)),
        D3::Join(k, v) => Shape3::Join(k, kids_view3(v@, v@.len() as int)),
        D3::Difference(a, b) => Shape3::Difference(Box::new(view3(*a)), Box::new(view3(*b))),
    }
}

impl View for D3 {
    type V = Shape3;

    open spec fn view(&self) -> Shape3 {
        view3(*self)
    }
}

/// The values of all the trees of `s`.
pub open spec fn views3(s: Seq<D3>) -> Seq<Shape3> {
    kids_view3(s, s.len() as int)
}

/// The values of the first `n` trees are their values one by one.
pub proof fn lemma_kids_view3(s: Seq<D3>, n: int)
    requires
        0 <= n <= s.len(),
    ensures
        kids_view3(s, n).len() == n,
        forall|j: int| 0 <= j < n ==> #[trigger] kids_view3(s, n)[j] == view3(s[j]),
    decreases n,
{
    if n > 0 {
        lemma_kids_view3(s, n - 1);
    }
}

/// Two sequences of trees with the same values one by one have the same values.
pub proof fn lemma_views3_eq(a: Seq<D3>, b: Seq<D3>)
    requires
        a.len() == b.len(),
        forall|j: int| 0 <= j < a.len() ==> view3(#[trigger] a[j]) == view3(b[j]),
    ensures
        views3(a) == views3(b),
{
    lemma_kids_view3(a, a.len() as int);
    lemma_kids_view3(b, b.len() as int);
    assert(views3(a) =~= views3(b));
}

/// The values of a sequence with one more tree.
pub proof fn lemma_views3_push(s: Seq<D3>, d: D3)
    ensures
        views3(s.push(d)) == views3(s).push(view3(d)),
{
    lemma_kids_view3(s, s.len() as int);
    lemma_kids_view3(s.push(d), s.len() + 1 as int);
    assert(views3(s.push(d)) =~= views3(s).push(view3(d)));
}

/// A scalar as a list entry: whole values keep a `.0` (`10.0`, `2.5`).
pub open spec fn entry_text(a: X) -> Seq<char> {
    if a.val() % (SCALE as int) == 0 {
        num_text(a.val()) + ".0"@
    } else {
        num_text(a.val())
    }
}

/// A point as a list entry: `[x, y, z]`.
pub open spec fn point_text(v: XYZ) -> Seq<char> {
    "["@ + entry_text(v.0) + ", "@ + entry_text(v.1) + ", "@ + entry_text(v.2) + "]"@
}

/// The first `n` points of a polyhedron, comma separated.
pub open spec fn point_list(p: Seq<XYZ>, n: int) -> Seq<char>
    decreases n,
{
    if n <= 0 || n > p.len() {
        seq![]
    } else if n == 1 {
        point_text(p[0])
    } else {
        point_list(p, n - 1) + ", "@ + point_text(p[n - 1])
    }
}

/// The first `n` indices of a face, comma separated.
pub open spec fn index_list(f: Seq<u32>, n: int) -> Seq<char>
    decreases n,
{
    if n <= 0 || n > f.len() {
        seq![]
    } else if n == 1 {
        digits(f[0] as nat)
    } else {
        index_list(f, n - 1) + ", "@ + digits(f[n - 1] as nat)
    }
}

/// The first `n` faces of a polyhedron, comma separated.
pub open spec fn face_list(f: Seq<Seq<u32>>, n: int) -> Seq<char>
    decreases n,
{
    if n <= 0 || n > f.len() {
        seq![]
    } else if n == 1 {
        "["@ + index_list(f[0], f[0].len() as int) + "]"@
    } else {
        face_list(f, n - 1) + ", "@ + "["@ + index_list(f[n - 1], f[n - 1].len() as int) + "]"@
    }
}

/// Body of a combinator: the first `n` children, indented, one per line.
pub open spec fn body3(kids: Seq<Shape3>, n: int) -> Seq<char>
    decreases kids, n,
{
    if n <= 0 || n > kids.len() {
        seq![]
    } else if n == 1 {
        indented(text3(kids[0]))
    } else {
        body3(kids, n - 1) + sep() + indented(text3(kids[n - 1]))
    }
}

/// Script text of a space shape.
pub open spec fn text3(s: Shape3) -> Seq<char>
    decreases s, 0int,
{
    match s {
        Shape3::Cube(a) => "cube(size = "@ + num_text(a.val()) + ");"@,
        Shape3::Cuboid(v) => "cube(size = "@ + xyz_text(v) + ");"@,
        Shape3::Color(c, b) => block("color("@ + color_text(c) + ")"@, indented(text3(*b))),
        Shape3::Cylinder(h, r) => "cylinder(h = "@ + num_text(h.val()) + ", r = "@ + num_text(r.val())
            + ");"@,
        Shape3::Sphere(r) => "sphere(r = "@ + num_text(r.val()) + ");"@,
        Shape3::Polyhedron(p, f) => "polyhedron(points = ["@ + point_list(p, p.len() as int)
            + "], faces = ["@ + face_list(f, f.len() as int) + "]);"@,
        Shape3::Translate(v, b) => block("translate(v = "@ + xyz_text(v) + ")"@, indented(text3(*b))),
        Shape3::Scale(a, b) => block("scale(v = "@ + num_text(a.val()) + ")"@, indented(text3(*b))),
        Shape3::Scale3(v, b) => block("scale(v = "@ + xyz_text(v) + ")"@, indented(text3(*b))),
        Shape3::Rotate(v, b) => block("rotate("@ + xyz_text(v) + ")"@, indented(text3(*b))),
        Shape3::LinearExtrude(h, b) => block(
            "linear_extrude(height = "@ + num_text(h.val()) + ")"@,
            indented(text2(*b)),
        ),
        Shape3::RotateExtrude(a, b) => block(
            "rotate_extrude(angle = "@ + num_text(a.val()) + ")"@,
            indented(text2(*b)),
        ),
        Shape3::Join(k, kids) => block(kind_text(k) + "()"@, body3(kids, kids.len() as int)),
        Shape3::Difference(a, b) => block(
            "difference()"@,
            indented(text3(*a)) + sep() + indented(text3(*b)),
        ),
    }
}

/// Appends a scalar as a list entry.
fn push_entry(out: &mut Vec<char>, a: X)
    ensures
        final(out)@ == old(out)@ + entry_text(a),
{
    push_num(out, a.millionths);
    if a.millionths % SCALE == 0 {
        push_str(out, ".0");
    }
}

/// Appends the points of a polyhedron.
fn push_point_list(out: &mut Vec<char>, p: &Vec<XYZ>)
    ensures
        final(out)@ == old(out)@ + point_list(p@, p@.len() as int),
{
    let mut i: usize = 0;
    while i < p.len()
        invariant
            i <= p@.len(),
            out@ == old(out)@ + point_list(p@, i as int),
        decreases p@.len() - i,
    {
        if i > 0 {
            push_str(out, ", ");
        }
        let v = p[i];
        push_str(out, "[");
        push_entry(out, v.0);
        push_str(out, ", ");
        push_entry(out, v.1);
        push_str(out, ", ");
        push_entry(out, v.2);
        push_str(out, "]");
        i = i + 1;
        assert(out@ =~= old(out)@ + point_list(p@, i as int));
    }
}

/// Appends the indices of a face.
fn push_index_list(out: &mut Vec<char>, f: &Vec<u32>)
    ensures
        final(out)@ == old(out)@ + index_list(f@, f@.len() as int),
{
    let mut i: usize = 0;
    while i < f.len()
        invariant
            i <= f@.len(),
            out@ == old(out)@ + index_list(f@, i as int),
        decreases f@.len() - i,
    {
        if i > 0 {
            push_str(out, ", ");
        }
        push_digits(out, f[i] as u64);
        i = i + 1;
        assert(out@ =~= old(out)@ + index_list(f@, i as int));
    }
}

/// Appends the faces of a polyhedron.
fn push_face_list(out: &mut Vec<char>, f: &Vec<Vec<u32>>)
    ensures
        final(out)@ == old(out)@ + face_list(faces_view(f@), f@.len() as int),
{
    let ghost fv = faces_view(f@);
    let mut i: usize = 0;
    while i < f.len()
        invariant
            i <= f@.len(),
            fv == faces_view(f@),
            out@ == old(out)@ + face_list(fv, i as int),
        decreases f@.len() - i,
    {
        if i > 0 {
            push_str(out, ", ");
        }
        push_str(out, "[");
        push_index_list(out, &f[i]);
        push_str(out, "]");
        i = i + 1;
        assert(out@ =~= old(out)@ + face_list(fv, i as int));
    }
}

impl D3 {
    /// Appends the script text of the shape.
    #[verifier::rlimit(60)]
    pub fn write(&self, out: &mut Vec<char>)
        ensures
            final(out)@ == old(out)@ + text3(self@),
        decreases self,
    {
        match self {
            D3::Cube(a) => {
                push_str(out, "cube(size = ");
                push_num(out, a.millionths);
                push_str(out, ");");
            },
            D3::Cuboid(v) => {
                push_str(out, "cube(size = ");
                push_xyz(out, *v);
                push_str(out, ");");
            },
            D3::Color(c, b) => {
                let mut head: Vec<char> = Vec::new();
                push_str(&mut head, "color(");
                push_color(&mut head, *c);
                push_str(&mut head, ")");
                let mut child: Vec<char> = Vec::new();
                b.write(&mut child);
                push_wrapped(out, &head, &child);
            },
            D3::Cylinder(h, r) => {
                push_str(out, "cylinder(h = ");
                push_num(out, h.millionths);
                push_str(out, ", r = ");
                push_num(out, r.millionths);
                push_str(out, ");");
            },
            D3::Sphere(r) => {
                push_str(out, "sphere(r = ");
                push_num(out, r.millionths);
                push_str(out, ");");
            },
            D3::Polyhedron(p, f) => {
                push_str(out, "polyhedron(points = [");
                push_point_list(out, p);
                push_str(out, "], faces = [");
                push_face_list(out, f);
                push_str(out, "]);");
            },
            D3::Translate(v, b) => {
                let mut head: Vec<char> = Vec::new();
                push_str(&mut head, "translate(v = ");
                push_xyz(&mut head, *v);
                push_str(&mut head, ")");
                let mut child: Vec<char> = Vec::new();
                b.write(&mut child);
                push_wrapped(out, &head, &child);
            },
            D3::Scale(a, b) => {
                let mut head: Vec<char> = Vec::new();
                push_str(&mut head, "scale(v = ");
                push_num(&mut head, a.millionths);
                push_str(&mut head, ")");
                let mut child: Vec<char> = Vec::new();
                b.write(&mut child);
                push_wrapped(out, &head, &child);
            },
            D3::Scale3(v, b) => {
                let mut head: Vec<char> = Vec::new();
                push_str(&mut head, "scale(v = ");
                push_xyz(&mut head, *v);
                push_str(&mut head, ")");
                let mut child: Vec<char> = Vec::new();
                b.write(&mut child);
                push_wrapped(out, &head, &child);
            },
            D3::Rotate(v, b) => {
                let mut head: Vec<char> = Vec::new();
                push_str(&mut head, "rotate(");
                push_xyz(&mut head, *v);
                push_str(&mut head, ")");
                let mut child: Vec<char> = Vec::new();
                b.write(&mut child);
                push_wrapped(out, &head, &child);
            },
            D3::LinearExtrude(h, b) => {
                let mut head: Vec<char> = Vec::new();
                push_str(&mut head, "linear_extrude(height = ");
                push_num(&mut head, h.millionths);
                push_str(&mut head, ")");
                let mut child: Vec<char> = Vec::new();
                b.write(&mut child);
                push_wrapped(out, &head, &child);
            },
            D3::RotateExtrude(a, b) => {
                let mut head: Vec<char> = Vec::new();
                push_str(&mut head, "rotate_extrude(angle = ");
                push_num(&mut head, a.millionths);
                push_str(&mut head, ")");
                let mut child: Vec<char> = Vec::new();
                b.write(&mut child);
                push_wrapped(out, &head, &child);
            },
            D3::Join(k, v) => {
                proof {
                    lemma_kids_view3(v@, v@.len() as int);
                }
                let ghost kids = views3(v@);
                push_kind(out, *k);
                push_str(out, "()");
                push_open(out);
                let ghost start = out@;
                let mut i: usize = 0;
                while i < v.len()
                    invariant
                        i <= v@.len(),
                        *self == D3::Join(*k, *v),
                        kids == views3(v@),
                        kids.len() == v@.len(),
                        forall|j: int| 0 <= j < v@.len() ==> #[trigger] kids[j] == view3(v@[j]),
                        out@ == start + body3(kids, i as int),
                    decreases v@.len() - i,
                {
                    if i > 0 {
                        push_sep(out);
                    }
                    let mut child: Vec<char> = Vec::new();
                    proof {
                        assert(decreases_to!(*self => (*self)->Join_1));
                        assert(decreases_to!(*v => v[i as int]));
                    }
                    v[i].write(&mut child);
                    push_indented(out, &child);
                    i = i + 1;
                    assert(out@ =~= start + body3(kids, i as int));
                }
                push_close(out);
            },
            D3::Difference(a, b) => {
                push_str(out, "difference()");
                push_open(out);
                let mut first: Vec<char> = Vec::new();
                a.write(&mut first);
                push_indented(out, &first);
                push_sep(out);
                let mut second: Vec<char> = Vec::new();
                b.write(&mut second);
                push_indented(out, &second);
                push_close(out);
            },
        }
        assert(final(out)@ =~= old(out)@ + text3(self@));
    }

    /// The script text of the shape.
    pub fn scad(&self) -> (r: String)
        ensures
            r@ == text3(self@),
    {
        let mut out: Vec<char> = Vec::new();
        self.write(&mut out);
        assert(out@ =~= text3(self@));
        string_of(&out)
    }

    /// The script text of the shape, as it stands inside a block one level deeper.
    pub fn indent(&self) -> (r: String)
        ensures
            r@ == indented(text3(self@)),
    {
        let mut t: Vec<char> = Vec::new();
        self.write(&mut t);
        let mut out: Vec<char> = Vec::new();
        push_indented(&mut out, &t);
        assert(out@ =~= indented(text3(self@)));
        string_of(&out)
    }
}

/// The script text of `shape`, as it stands inside a block one level deeper.
pub fn indent_d3(shape: &D3) -> (r: String)
    ensures
        r@ == indented(text3(shape@)),
{
    shape.indent()
}


/// Half of `v`, rounded toward zero.
pub open spec fn half(v: int) -> int {
    if v >= 0 {
        v / 2
    } else {
        -((-v) / 2)
    }
}

/// The space vector `a + b`.
pub open spec fn xyz_sum(a: XYZ, b: XYZ) -> XYZ {
    XYZ(xsum(a.0, b.0), xsum(a.1, b.1), xsum(a.2, b.2))
}

/// The space vector `v * k`.
pub open spec fn xyz_scaled(v: XYZ, k: int) -> XYZ {
    XYZ(xscaled(v.0, k), xscaled(v.1, k), xscaled(v.2, k))
}

/// The space vector of `(x, y, z)` millionths.
pub open spec fn xyzm(x: int, y: int, z: int) -> XYZ {
    XYZ(xm(x), xm(y), xm(z))
}

/// `s` extended by `o` under the combinator `k`: appended to the children when `s` is
/// already a node of that kind, else the two side by side in a new node.
pub open spec fn extended3(s: Shape3, k: JoinKind, o: Shape3) -> Shape3 {
    match s {
        Shape3::Join(k2, kids) => if k2 == k {
            Shape3::Join(k, kids.push(o))
        } else {
            Shape3::Join(k, seq![s, o])
        },
        _ => Shape3::Join(k, seq![s, o]),
    }
}

/// The hull of `s`: the children of a union become the hull's children.
pub open spec fn hulled3(s: Shape3) -> Shape3 {
    match s {
        Shape3::Join(k, kids) => if k == JoinKind::Union {
            Shape3::Join(JoinKind::Hull, kids)
        } else {
            Shape3::Join(JoinKind::Hull, seq![s])
        },
        _ => Shape3::Join(JoinKind::Hull, seq![s]),
    }
}

/// `s` moved by `d`: a translation node absorbs the move into its own vector.
pub open spec fn translated3(s: Shape3, d: XYZ) -> Shape3 {
    match s {
        Shape3::Translate(w, c) => Shape3::Translate(xyz_sum(w, d), c),
        _ => Shape3::Translate(d, Box::new(s)),
    }
}

/// `s` turned by the angles `d`: a rotation node absorbs the turn into its own angles.
pub open spec fn rotated3(s: Shape3, d: XYZ) -> Shape3 {
    match s {
        Shape3::Rotate(w, c) => Shape3::Rotate(xyz_sum(w, d), c),
        _ => Shape3::Rotate(d, Box::new(s)),
    }
}

/// Adding `(dx, dy, dz)` millionths to `w` keeps every coordinate in range.
pub open spec fn sum_fits3(w: XYZ, dx: int, dy: int, dz: int) -> bool {
    fits(w.0.val() + dx) && fits(w.1.val() + dy) && fits(w.2.val() + dz)
}

/// Moving `s` by `(dx, dy, dz)` millionths keeps every coordinate in range.
pub open spec fn offset_fits3(s: Shape3, dx: int, dy: int, dz: int) -> bool {
    &&& fits(dx) && fits(dy) && fits(dz)
    &&& s matches Shape3::Translate(w, _) ==> sum_fits3(w, dx, dy, dz)
}

/// Turning `s` by `(dx, dy, dz)` millionths of a degree keeps every angle in range.
pub open spec fn turn_fits3(s: Shape3, dx: int, dy: int, dz: int) -> bool {
    &&& fits(dx) && fits(dy) && fits(dz)
    &&& s matches Shape3::Rotate(w, _) ==> sum_fits3(w, dx, dy, dz)
}

/// The `n` copies of `s` moved by `0, v, 2v, ...`.
pub open spec fn translations3(s: Shape3, v: XYZ, n: nat) -> Seq<Shape3> {
    Seq::new(n, |i: int| translated3(s, xyz_scaled(v, i)))
}

/// The `n` copies of `s` turned by `0, v, 2v, ...`.
pub open spec fn rotations3(s: Shape3, v: XYZ, n: nat) -> Seq<Shape3> {
    Seq::new(n, |i: int| rotated3(s, xyz_scaled(v, i)))
}

/// The placements of a half-space: a large cube moved so that one face lies on a plane
/// through the origin.
pub open spec fn half_space3(aim: Aim) -> Shape3 {
    let m = MAX_MILLIONTHS as int;
    let h = -(m / 2);
    let c = Box::new(Shape3::Cube(xm(m)));
    match aim {
        Aim::N => Shape3::Translate(xyzm(h, 0, h), c),
        Aim::S => Shape3::Translate(xyzm(h, -m, h), c),
        Aim::E => Shape3::Translate(xyzm(0, h, h), c),
        Aim::W => Shape3::Translate(xyzm(-m, h, h), c),
        Aim::U => Shape3::Translate(xyzm(h, h, 0), c),
        Aim::D => Shape3::Translate(xyzm(h, h, -m), c),
    }
}

impl Clone for D3 {
    /// A copy of the tree.
    fn clone(&self) -> (r: D3)
        ensures
            r@ == self@,
        decreases self,
    {
        match self {
            D3::Cube(a) => D3::Cube(*a),
            D3::Cuboid(v) => D3::Cuboid(*v),
            D3::Color(c, b) => D3::Color(*c, Box::new((**b).clone())),
            D3::Cylinder(h, r) => D3::Cylinder(*h, *r),
            D3::Sphere(r) => D3::Sphere(*r),
            D3::Polyhedron(p, f) => {
                let mut q: Vec<XYZ> = Vec::new();
                let mut i: usize = 0;
                while i < p.len()
                    invariant
                        i <= p@.len(),
                        q@ == p@.subrange(0, i as int),
                    decreases p@.len() - i,
                {
                    q.push(p[i]);
                    i = i + 1;
                    assert(q@ =~= p@.subrange(0, i as int));
                }
                assert(q@ =~= p@);
                let mut g: Vec<Vec<u32>> = Vec::new();
                let mut j: usize = 0;
                while j < f.len()
                    invariant
                        j <= f@.len(),
                        g@.len() == j,
                        forall|i: int| 0 <= i < j ==> (#[trigger] g@[i])@ == f@[i]@,
                    decreases f@.len() - j,
                {
                    let face = &f[j];
                    let mut h: Vec<u32> = Vec::new();
                    let mut k: usize = 0;
                    while k < face.len()
                        invariant
                            k <= face@.len(),
                            h@ == face@.subrange(0, k as int),
                        decreases face@.len() - k,
                    {
                        h.push(face[k]);
                        k = k + 1;
                        assert(h@ =~= face@.subrange(0, k as int));
                    }
                    assert(h@ =~= face@);
                    g.push(h);
                    j = j + 1;
                }
                assert(faces_view(g@) =~= faces_view(f@));
                D3::Polyhedron(q, g)
            },
            D3::Translate(v, b) => D3::Translate(*v, Box::new((**b).clone())),
            D3::Scale(a, b) => D3::Scale(*a, Box::new((**b).clone())),
            D3::Scale3(v, b) => D3::Scale3(*v, Box::new((**b).clone())),
            D3::Rotate(v, b) => D3::Rotate(*v, Box::new((**b).clone())),
            D3::LinearExtrude(h, b) => D3::LinearExtrude(*h, Box::new((**b).clone())),
            D3::RotateExtrude(a, b) => D3::RotateExtrude(*a, Box::new((**b).clone())),
            D3::Join(k, v) => {
                let mut w: Vec<D3> = Vec::new();
                let mut i: usize = 0;
                while i < v.len()
                    invariant
                        i <= v@.len(),
                        *self == D3::Join(*k, *v),
                        w@.len() == i,
                        forall|j: int| 0 <= j < i ==> view3(#[trigger] w@[j]) == view3(v@[j]),
                    decreases v@.len() - i,
                {
                    proof {
                        assert(decreases_to!(*self => (*self)->Join_1));
                        assert(decreases_to!(*v => v[i as int]));
                    }
                    let c = v[i].clone();
                    w.push(c);
                    i = i + 1;
                }
                proof {
                    lemma_views3_eq(w@, v@);
                }
                D3::Join(*k, w)
            },
            D3::Difference(a, b) => D3::Difference(
                Box::new((**a).clone()),
                Box::new((**b).clone()),
            ),
        }
    }
}

/// Two shapes side by side under the combinator `k`.
fn pair3(k: JoinKind, a: D3, b: D3) -> (r: D3)
    ensures
        r@ == Shape3::Join(k, seq![a@, b@]),
{
    let v = vec![a, b];
    proof {
        lemma_kids_view3(v@, 2);
        assert(views3(v@) =~= seq![a@, b@]);
    }
    D3::Join(k, v)
}

/// Three shapes under the combinator `k`, in order.
fn triple3(k: JoinKind, a: D3, b: D3, c: D3) -> (r: D3)
    ensures
        r@ == Shape3::Join(k, seq![a@, b@, c@]),
{
    let v = vec![a, b, c];
    proof {
        lemma_kids_view3(v@, 3);
        assert(views3(v@) =~= seq![a@, b@, c@]);
    }
    D3::Join(k, v)
}

impl D2 {
    /// The space shape swept by raising the plane shape to `x`.
    pub fn linear_extrude(&self, x: X) -> (r: D3)
        ensures
            r@ == Shape3::LinearExtrude(x, Box::new(self@)),
    {
        D3::LinearExtrude(x, Box::new(self.clone()))
    }

    /// The space shape swept by turning the plane shape by `x` degrees about the y axis.
    pub fn rotate_extrude(&self, x: X) -> (r: D3)
        ensures
            r@ == Shape3::RotateExtrude(x, Box::new(self@)),
    {
        D3::RotateExtrude(x, Box::new(self.clone()))
    }
}

impl D3 {
    /// A cube with side length `side` with lower left corner at the origin.
    pub fn cube(side: X) -> (r: D3)
        ensures
            r@ == Shape3::Cube(side),
    {
        D3::Cube(side)
    }

    /// A rectangular cuboid with side lengths `xyz` with lower left corner at the origin.
    pub fn cuboid(xyz: XYZ) -> (r: D3)
        ensures
            r@ == Shape3::Cuboid(xyz),
    {
        D3::Cuboid(xyz)
    }

    /// A sphere of `radius` centered at the origin.
    pub fn sphere(radius: X) -> (r: D3)
        ensures
            r@ == Shape3::Sphere(radius),
    {
        D3::Sphere(radius)
    }

    /// A cylinder of height `h` and radius `r` standing on the xy plane.
    pub fn cylinder(h: X, r: X) -> (s: D3)
        ensures
            s@ == Shape3::Cylinder(h, r),
    {
        D3::Cylinder(h, r)
    }

    /// A polyhedron through `points` whose one face joins the first three points.
    pub fn polyhedron(points: Vec<XYZ>) -> (r: D3)
        ensures
            r@ == Shape3::Polyhedron(points@, seq![seq![0u32, 1u32, 2u32]]),
    {
        let face: Vec<u32> = vec![0, 1, 2];
        let faces = vec![face];
        proof {
            assert(face@ =~= seq![0u32, 1u32, 2u32]);
            assert(faces_view(faces@) =~= seq![seq![0u32, 1u32, 2u32]]);
        }
        D3::Polyhedron(points, faces)
    }

    /// A polyhedron through `points` with the given `faces`, each a list of point indices.
    pub fn polyhedron_with_faces(points: Vec<XYZ>, faces: Vec<Vec<u32>>) -> (r: D3)
        ensures
            r@ == Shape3::Polyhedron(points@, faces_view(faces@)),
    {
        D3::Polyhedron(points, faces)
    }

    /// A very large cube covering the half-space on the side `aim` of a plane.
    pub fn half_space(aim: Aim) -> (r: D3)
        ensures
            r@ == half_space3(aim),
    {
        let m = MAX_MILLIONTHS;
        let h = X::from_millionths(-(m / 2));
        let zero = X::from_millionths(0);
        let low = X::from_millionths(-m);
        let c = D3::cube(X::from_millionths(m));
        match aim {
            Aim::N => c.translate(v3(h, zero, h)),
            Aim::S => c.translate(v3(h, low, h)),
            Aim::E => c.translate(v3(zero, h, h)),
            Aim::W => c.translate(v3(low, h, h)),
            Aim::U => c.translate(v3(h, h, zero)),
            Aim::D => c.translate(v3(h, h, low)),
        }
    }

    /// The shape cut out of a cube of edge `l_edge` centered at the origin.
    pub fn invert(self, l_edge: X) -> (r: D3)
        ensures
            r@ == Shape3::Difference(
                Box::new(
                    Shape3::Translate(
                        xyzm(-half(l_edge.val()), -half(l_edge.val()), -half(l_edge.val())),
                        Box::new(Shape3::Cube(l_edge)),
                    ),
                ),
                Box::new(self@),
            ),
    {
        let shift = X::from_millionths(-(l_edge.millionths / 2));
        D3::cube(l_edge).translate(v3(shift, shift, shift)).sub(self)
    }

    /// An ellipsoid with radii `radii` centered at the origin.
    pub fn spheroid(radii: XYZ) -> (r: D3)
        ensures
            r@ == Shape3::Scale3(radii, Box::new(Shape3::Sphere(xm(SCALE as int)))),
    {
        D3::Sphere(X::from_millionths(SCALE)).scale3(radii)
    }

    /// The shape colored `color_name`.
    pub fn color(self, color_name: ColorEnum) -> (r: D3)
        ensures
            r@ == Shape3::Color(color_name, Box::new(self@)),
    {
        D3::Color(color_name, Box::new(self))
    }

    /// The shape scaled by the factor `scale_factor`.
    pub fn scale(self, scale_factor: X) -> (r: D3)
        ensures
            r@ == Shape3::Scale(scale_factor, Box::new(self@)),
    {
        D3::Scale(scale_factor, Box::new(self))
    }

    /// The shape scaled by `xyz.0`, `xyz.1` and `xyz.2` along the three axes.
    pub fn scale3(self, xyz: XYZ) -> (r: D3)
        ensures
            r@ == Shape3::Scale3(xyz, Box::new(self@)),
    {
        D3::Scale3(xyz, Box::new(self))
    }

    /// The shape moved by `xyz`; a translation absorbs the move into its own vector.
    pub fn translate(self, xyz: XYZ) -> (r: D3)
        requires
            offset_fits3(self@, xyz.0.val(), xyz.1.val(), xyz.2.val()),
        ensures
            r@ == translated3(self@, xyz),
    {
        match self {
            D3::Translate(v, d3) => D3::Translate(
                XYZ(v.0.plus(xyz.0), v.1.plus(xyz.1), v.2.plus(xyz.2)),
                d3,
            ),
            _ => D3::Translate(xyz, Box::new(self)),
        }
    }

    /// The shape turned by the angles `xyz`; a rotation absorbs the turn into its own angles.
    pub fn rotate(self, xyz: XYZ) -> (r: D3)
        requires
            turn_fits3(self@, xyz.0.val(), xyz.1.val(), xyz.2.val()),
        ensures
            r@ == rotated3(self@, xyz),
    {
        match self {
            D3::Rotate(v, d3) => D3::Rotate(
                XYZ(v.0.plus(xyz.0), v.1.plus(xyz.1), v.2.plus(xyz.2)),
                d3,
            ),
            _ => D3::Rotate(xyz, Box::new(self)),
        }
    }

    /// `self` extended by `other` under the combinator `k`.
    fn extend(self, k: JoinKind, other: D3) -> (r: D3)
        ensures
            r@ == extended3(self@, k, other@),
    {
        match self {
            D3::Join(k2, v) => {
                if k2 == k {
                    let mut v = v;
                    proof {
                        lemma_views3_push(v@, other);
                    }
                    v.push(other);
                    D3::Join(k, v)
                } else {
                    pair3(k, D3::Join(k2, v), other)
                }
            },
            _ => pair3(k, self, other),
        }
    }

    /// The union of `self` and `other`; a union grows by one child.
    pub fn add(self, other: D3) -> (r: D3)
        ensures
            r@ == extended3(self@, JoinKind::Union, other@),
    {
        self.extend(JoinKind::Union, other)
    }

    /// `other` cut out of `self`.
    pub fn difference(self, other: D3) -> (r: D3)
        ensures
            r@ == Shape3::Difference(Box::new(self@), Box::new(other@)),
    {
        D3::Difference(Box::new(self), Box::new(other))
    }

    /// `other` cut out of `self`.
    pub fn sub(self, other: D3) -> (r: D3)
        ensures
            r@ == Shape3::Difference(Box::new(self@), Box::new(other@)),
    {
        D3::Difference(Box::new(self), Box::new(other))
    }

    /// The Minkowski sum of `self` and `other`; a Minkowski sum grows by one child.
    pub fn minkowski(self, other: D3) -> (r: D3)
        ensures
            r@ == extended3(self@, JoinKind::Minkowski, other@),
    {
        self.extend(JoinKind::Minkowski, other)
    }

    /// The intersection of `self` and `other`; an intersection grows by one child.
    pub fn intersection(self, other: D3) -> (r: D3)
        ensures
            r@ == extended3(self@, JoinKind::Intersection, other@),
    {
        self.extend(JoinKind::Intersection, other)
    }

    /// The hull of `self`; the children of a union become the children of the hull.
    pub fn hull(self) -> (r: D3)
        ensures
            r@ == hulled3(self@),
    {
        match self {
            D3::Join(k, v) => {
                if k == JoinKind::Union {
                    D3::Join(JoinKind::Hull, v)
                } else {
                    let v1 = vec![D3::Join(k, v)];
                    proof {
                        lemma_kids_view3(v1@, 1);
                        assert(views3(v1@) =~= seq![view3(v1@[0])]);
                    }
                    D3::Join(JoinKind::Hull, v1)
                }
            },
            _ => {
                let ghost s = self@;
                let v1 = vec![self];
                proof {
                    lemma_kids_view3(v1@, 1);
                    assert(views3(v1@) =~= seq![s]);
                }
                D3::Join(JoinKind::Hull, v1)
            },
        }
    }

    /// The union of `self` and `f(self)`.
    pub fn add_map<F: Fn(D3) -> D3>(self, f: F) -> (r: D3)
        requires
            f.requires((self,)),
        ensures
            exists|m: D3| f.ensures((self,), m) && r@ == extended3(self@, JoinKind::Union, m@),
    {
        let c = self.clone();
        let m = f(self);
        c.add(m)
    }

    /// `f(self)`.
    pub fn map<F: Fn(D3) -> D3>(self, f: F) -> (r: D3)
        requires
            f.requires((self,)),
        ensures
            f.ensures((self,), r),
    {
        f(self)
    }

    /// A box of size `xyz` with bevelled edges of width `bevel_in`.
    pub fn beveled_box(xyz: XYZ, bevel_in: X) -> (r: D3)
        requires
            bevel_fits(xyz, bevel_in),
        ensures
            r@ == beveled_box3(xyz, bevel_in),
    {
        let x = xyz.0;
        let y = xyz.1;
        let z = xyz.2;
        let bevel = bevel_in;
        let b2 = bevel.times(2);
        let zero = X::from_millionths(0);
        triple3(
            JoinKind::Hull,
            D3::cuboid(v3(x, y.minus(b2), z.minus(b2))).translate(v3(zero, bevel, bevel)),
            D3::cuboid(v3(x.minus(b2), y.minus(b2), z)).translate(v3(bevel, bevel, zero)),
            D3::cuboid(v3(x.minus(b2), y, z.minus(b2))).translate(v3(bevel, zero, bevel)),
        )
    }

    /// A block of `xyz_dim.0 * xyz_dim.1 * xyz_dim.2` bevelled cubes of side `i_cube_side`,
    /// bevel `i_bevel` and gap `i_gap`, with a cuboid core joining them.
    pub fn beveled_cube_block(xyz_dim: (u32, u32, u32), i_cube_side: X, i_bevel: X, i_gap: X) -> (r: D3)
        requires
            block_fits(xyz_dim, i_cube_side, i_bevel, i_gap),
        ensures
            r@ == cube_block3(xyz_dim, i_cube_side, i_bevel, i_gap),
    {
        let cube_side = i_cube_side;
        let bevel = i_bevel;
        let gap = i_gap;
        let zero = X::from_millionths(0);
        let inner = cube_side.minus(gap.times(2));
        let unit = D3::beveled_box(v3(inner, inner, inner), bevel).translate(v3(gap, gap, gap));
        let row = unit.iter_translate(v3(cube_side, zero, zero), xyz_dim.0).union();
        let layer = row.iter_translate(v3(zero, cube_side, zero), xyz_dim.1).union();
        let all = layer.iter_translate(v3(zero, zero, cube_side), xyz_dim.2).union();
        let e = gap.plus(bevel);
        let e2 = e.times(2);
        let core = D3::cuboid(
            v3(
                cube_side.times(xyz_dim.0 as i64).minus(e2),
                cube_side.times(xyz_dim.1 as i64).minus(e2),
                cube_side.times(xyz_dim.2 as i64).minus(e2),
            ),
        ).translate(v3(e, e, e));
        all.add(core)
    }

    /// A cube of side `i_side` centered at the origin, rounded by the sphere of radius
    /// `i_side / sqrt(3)`.
    pub fn rounded_cube(i_side: X) -> (r: D3)
        ensures
            r@ == rounded_cube3(i_side),
    {
        let side = i_side;
        let h = X::from_millionths(-(side.millionths / 2));
        let radius = X::from_millionths(third_root(side.millionths));
        D3::cube(side).translate(v3(h, h, h)).intersection(D3::sphere(radius))
    }

    /// A truncated octahedron with edge length `l_edge` centered at the origin.
    pub fn truncated_octahedron(l_edge: X) -> (r: D3)
        requires
            fits(3 * l_edge.val()),
        ensures
            r@ == octahedron3(l_edge),
    {
        let r_square = double_root(l_edge.millionths);
        let r = X::from_millionths(r_square);
        let r2 = X::from_millionths(2 * r_square);
        let minus_r = X::from_millionths(-r_square);
        let h = X::from_millionths(-(l_edge.millionths / 2));
        let zero = X::from_millionths(0);
        let q = X::from_millionths(45_000_000);
        triple3(
            JoinKind::Hull,
            D3::cuboid(v3(l_edge, l_edge, r2)).translate(v3(h, h, minus_r)).rotate(v3(zero, zero, q)),
            D3::cuboid(v3(l_edge, r2, l_edge)).translate(v3(h, minus_r, h)).rotate(v3(zero, q, zero)),
            D3::cuboid(v3(r2, l_edge, l_edge)).translate(v3(minus_r, h, h)).rotate(v3(q, zero, zero)),
        )
    }

    /// The `n` copies of the shape moved by `0, xyz, 2 xyz, ...`, in that order.
    pub fn iter_translate(&self, xyz: XYZ, n: u32) -> (r: Vec<D3>)
        requires
            n == 0 || offset_fits3(
                self@,
                xyz.0.val() * (n - 1),
                xyz.1.val() * (n - 1),
                xyz.2.val() * (n - 1),
            ),
        ensures
            views3(r@) == translations3(self@, xyz, n as nat),
    {
        let mut out: Vec<D3> = Vec::new();
        let mut i: u32 = 0;
        while i < n
            invariant
                i <= n,
                n == 0 || offset_fits3(
                    self@,
                    xyz.0.val() * (n - 1),
                    xyz.1.val() * (n - 1),
                    xyz.2.val() * (n - 1),
                ),
                out@.len() == i,
                forall|j: int|
                    0 <= j < i ==> view3(#[trigger] out@[j]) == translated3(
                        self@,
                        xyz_scaled(xyz, j),
                    ),
            decreases n - i,
        {
            proof {
                lemma_scaled_fits(0, xyz.0.val(), i as int, n - 1);
                lemma_scaled_fits(0, xyz.1.val(), i as int, n - 1);
                lemma_scaled_fits(0, xyz.2.val(), i as int, n - 1);
                if let Shape3::Translate(w, _) = self@ {
                    lemma_scaled_fits(w.0.val(), xyz.0.val(), i as int, n - 1);
                    lemma_scaled_fits(w.1.val(), xyz.1.val(), i as int, n - 1);
                    lemma_scaled_fits(w.2.val(), xyz.2.val(), i as int, n - 1);
                }
            }
            let step = XYZ(xyz.0.times(i as i64), xyz.1.times(i as i64), xyz.2.times(i as i64));
            assert(step == xyz_scaled(xyz, i as int));
            out.push(self.clone().translate(step));
            i = i + 1;
        }
        proof {
            lemma_kids_view3(out@, out@.len() as int);
            assert(views3(out@) =~= translations3(self@, xyz, n as nat));
        }
        out
    }

    /// The `n` copies of the shape turned by `0, theta, 2 theta, ...`, in that order.
    pub fn iter_rotate(&self, theta: XYZ, n: u32) -> (r: Vec<D3>)
        requires
            n == 0 || turn_fits3(
                self@,
                theta.0.val() * (n - 1),
                theta.1.val() * (n - 1),
                theta.2.val() * (n - 1),
            ),
        ensures
            views3(r@) == rotations3(self@, theta, n as nat),
    {
        let mut out: Vec<D3> = Vec::new();
        let mut i: u32 = 0;
        while i < n
            invariant
                i <= n,
                n == 0 || turn_fits3(
                    self@,
                    theta.0.val() * (n - 1),
                    theta.1.val() * (n - 1),
                    theta.2.val() * (n - 1),
                ),
                out@.len() == i,
                forall|j: int|
                    0 <= j < i ==> view3(#[trigger] out@[j]) == rotated3(
                        self@,
                        xyz_scaled(theta, j),
                    ),
            decreases n - i,
        {
            proof {
                lemma_scaled_fits(0, theta.0.val(), i as int, n - 1);
                lemma_scaled_fits(0, theta.1.val(), i as int, n - 1);
                lemma_scaled_fits(0, theta.2.val(), i as int, n - 1);
                if let Shape3::Rotate(w, _) = self@ {
                    lemma_scaled_fits(w.0.val(), theta.0.val(), i as int, n - 1);
                    lemma_scaled_fits(w.1.val(), theta.1.val(), i as int, n - 1);
                    lemma_scaled_fits(w.2.val(), theta.2.val(), i as int, n - 1);
                }
            }
            let step = XYZ(
                theta.0.times(i as i64),
                theta.1.times(i as i64),
                theta.2.times(i as i64),
            );
            assert(step == xyz_scaled(theta, i as int));
            out.push(self.clone().rotate(step));
            i = i + 1;
        }
        proof {
            lemma_kids_view3(out@, out@.len() as int);
            assert(views3(out@) =~= rotations3(self@, theta, n as nat));
        }
        out
    }
}

/// The bevels of a box stay in range.
pub open spec fn bevel_fits(v: XYZ, b: X) -> bool {
    let bb = b.val();
    &&& fits(2 * bb)
    &&& fits(v.0.val() - 2 * bb)
    &&& fits(v.1.val() - 2 * bb)
    &&& fits(v.2.val() - 2 * bb)
}

/// A box of size `v` with bevelled edges of width `b`: the hull of three cuboids, each
/// shrunk by the bevel across one axis.
pub open spec fn beveled_box3(v: XYZ, b: X) -> Shape3 {
    let x = v.0.val();
    let y = v.1.val();
    let z = v.2.val();
    let bb = b.val();
    Shape3::Join(
        JoinKind::Hull,
        seq![
            Shape3::Translate(xyzm(0, bb, bb), Box::new(Shape3::Cuboid(xyzm(x, y - 2 * bb, z - 2 * bb)))),
            Shape3::Translate(xyzm(bb, bb, 0), Box::new(Shape3::Cuboid(xyzm(x - 2 * bb, y - 2 * bb, z)))),
            Shape3::Translate(xyzm(bb, 0, bb), Box::new(Shape3::Cuboid(xyzm(x - 2 * bb, y, z - 2 * bb)))),
        ],
    )
}

/// Every coordinate of a block of bevelled cubes stays in range.
pub open spec fn block_fits(d: (u32, u32, u32), s: X, b: X, g: X) -> bool {
    let sv = s.val();
    let bv = b.val();
    let gv = g.val();
    let e = gv + bv;
    &&& fits(2 * gv)
    &&& fits(sv - 2 * gv)
    &&& fits(2 * bv)
    &&& fits(sv - 2 * gv - 2 * bv)
    &&& d.0 == 0 || (fits(sv * (d.0 - 1)) && fits(gv + sv * (d.0 - 1)))
    &&& d.1 == 0 || fits(sv * (d.1 - 1))
    &&& d.2 == 0 || fits(sv * (d.2 - 1))
    &&& fits(e)
    &&& fits(2 * e)
    &&& fits(sv * d.0) && fits(sv * d.0 - 2 * e)
    &&& fits(sv * d.1) && fits(sv * d.1 - 2 * e)
    &&& fits(sv * d.2) && fits(sv * d.2 - 2 * e)
}

/// A block of `d.0 * d.1 * d.2` bevelled cubes of side `s` with gaps `g`, filled by a
/// cuboid core.
pub open spec fn cube_block3(d: (u32, u32, u32), s: X, b: X, g: X) -> Shape3 {
    let sv = s.val();
    let gv = g.val();
    let inner = sv - 2 * gv;
    let e = gv + b.val();
    let unit = translated3(beveled_box3(xyzm(inner, inner, inner), b), xyzm(gv, gv, gv));
    let row = Shape3::Join(JoinKind::Union, translations3(unit, xyzm(sv, 0, 0), d.0 as nat));
    let layer = Shape3::Join(JoinKind::Union, translations3(row, xyzm(0, sv, 0), d.1 as nat));
    let all = Shape3::Join(JoinKind::Union, translations3(layer, xyzm(0, 0, sv), d.2 as nat));
    let core = Shape3::Translate(
        xyzm(e, e, e),
        Box::new(Shape3::Cuboid(xyzm(sv * d.0 - 2 * e, sv * d.1 - 2 * e, sv * d.2 - 2 * e))),
    );
    extended3(all, JoinKind::Union, core)
}

/// `root` with the sign of `v`.
pub open spec fn signed(v: int, root: int) -> int {
    if v >= 0 {
        root
    } else {
        -root
    }
}

/// A cube of side `s` centered at the origin, rounded by a sphere of radius `s / sqrt(3)`.
pub open spec fn rounded_cube3(s: X) -> Shape3 {
    let sv = s.val();
    let h = -half(sv);
    Shape3::Join(
        JoinKind::Intersection,
        seq![
            Shape3::Translate(xyzm(h, h, h), Box::new(Shape3::Cube(s))),
            Shape3::Sphere(xm(signed(sv, floor_sqrt(sv * sv / 3)))),
        ],
    )
}

/// A truncated octahedron with edge `l` centered at the origin: the hull of three long
/// cuboids, each turned by 45 degrees about its own axis; `r` is `l * sqrt(2)`.
pub open spec fn octahedron3(l: X) -> Shape3 {
    let lv = l.val();
    let r = signed(lv, floor_sqrt(2 * lv * lv));
    let h = -half(lv);
    let q = 45_000_000int;
    Shape3::Join(
        JoinKind::Hull,
        seq![
            Shape3::Rotate(xyzm(0, 0, q), Box::new(Shape3::Translate(
                xyzm(h, h, -r), Box::new(Shape3::Cuboid(xyzm(lv, lv, 2 * r)))))),
            Shape3::Rotate(xyzm(0, q, 0), Box::new(Shape3::Translate(
                xyzm(h, -r, h), Box::new(Shape3::Cuboid(xyzm(lv, 2 * r, lv)))))),
            Shape3::Rotate(xyzm(q, 0, 0), Box::new(Shape3::Translate(
                xyzm(-r, h, h), Box::new(Shape3::Cuboid(xyzm(2 * r, lv, lv)))))),
        ],
    )
}

/// The magnitude of `m`.
fn magnitude(m: i64) -> (r: u128)
    ensures
        r * r == m * m,
        r <= 0x8000_0000_0000_0000,
        r == m || r == -m,
{
    let mag: u128 = if m < 0 { (0 - (m as i128)) as u128 } else { m as u128 };
    assert(mag * mag == m * m) by (nonlinear_arith)
        requires
            mag == m || mag == -m,
    ;
    mag
}

/// `m / sqrt(3)`, rounded toward zero.
fn third_root(m: i64) -> (r: i64)
    ensures
        r as int == signed(m as int, floor_sqrt(m * m / 3)),
{
    let mag = magnitude(m);
    assert(mag * mag <= 0x4000_0000_0000_0000_0000_0000_0000_0000) by (nonlinear_arith)
        requires
            mag <= 0x8000_0000_0000_0000,
    ;
    let root = isqrt(mag * mag / 3);
    if m < 0 {
        -(root as i64)
    } else {
        root as i64
    }
}

/// `m * sqrt(2)`, rounded toward zero.
fn double_root(m: i64) -> (r: i64)
    requires
        fits(3 * m),
    ensures
        r as int == signed(m as int, floor_sqrt(2 * m * m)),
        fits(2 * r),
        fits(-r),
{
    let mag = magnitude(m);
    assert(2 * (mag * mag) < 0x4000_0000_0000_0000_0000_0000_0000_0000) by (nonlinear_arith)
        requires
            3 * mag <= 0x8000_0000_0000_0000,
    ;
    let root = isqrt(2 * (mag * mag));
    assert(2 * root <= 3 * mag) by (nonlinear_arith)
        requires
            root * root <= 2 * (mag * mag),
            0 <= root,
            0 <= mag,
    ;
    assert(2 * m * m == 2 * (mag * mag)) by (nonlinear_arith)
        requires
            mag * mag == m * m,
    ;
    if m < 0 {
        -(root as i64)
    } else {
        root as i64
    }
}

impl DIterator<D3> for Vec<D3> {
    open spec fn joined(self, k: JoinKind) -> Shape3 {
        Shape3::Join(k, views3(self@))
    }

    fn hull(self) -> (r: D3) {
        D3::Join(JoinKind::Hull, self)
    }

    fn union(self) -> (r: D3) {
        D3::Join(JoinKind::Union, self)
    }

    fn intersection(self) -> (r: D3) {
        D3::Join(JoinKind::Intersection, self)
    }

    fn minkowski(self) -> (r: D3) {
        D3::Join(JoinKind::Minkowski, self)
    }

    fn sum(self) -> (r: D3) {
        D3::Join(JoinKind::Union, self)
    }

    fn product(self) -> (r: D3) {
        D3::Join(JoinKind::Intersection, self)
    }
}

impl std::ops::Add<D3> for D3 {
    type Output = D3;

    /// The union of the two shapes, as `D3::add`.
    fn add(self, other: D3) -> (r: D3)
        ensures
            r@ == extended3(self@, JoinKind::Union, other@),
    {
        D3::add(self, other)
    }
}

impl std::ops::Sub<D3> for D3 {
    type Output = D3;

    /// The second shape cut out of the first, as `D3::difference`.
    fn sub(self, other: D3) -> (r: D3)
        ensures
            r@ == Shape3::Difference(Box::new(self@), Box::new(other@)),
    {
        D3::difference(self, other)
    }
}

impl vstd::std_specs::ops::AddSpecImpl<D3> for D3 {
    /// Trees hold vectors, so `+` is stated through the views of `D3::add` only.
    open spec fn obeys_add_spec() -> bool {
        false
    }

    open spec fn add_req(self, rhs: D3) -> bool {
        true
    }

    open spec fn add_spec(self, rhs: D3) -> D3 {
        choose|r: D3| r@ == extended3(self@, JoinKind::Union, rhs@)
    }
}

impl vstd::std_specs::ops::SubSpecImpl<D3> for D3 {
    /// Trees hold vectors, so `-` is stated through the views of `D3::difference` only.
    open spec fn obeys_sub_spec() -> bool {
        false
    }

    open spec fn sub_req(self, rhs: D3) -> bool {
        true
    }

    open spec fn sub_spec(self, rhs: D3) -> D3 {
        choose|r: D3| r@ == Shape3::Difference(Box::new(self@), Box::new(rhs@))
    }
}

} // verus!
