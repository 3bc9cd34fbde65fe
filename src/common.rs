//! Tags shared by the plane and space languages, and the block layout of rendered nodes.
use vstd::prelude::*;
use crate::text::{indented, push_indented, push_str};

verus! {

/// Scalar bound, in millionths, for shapes that stand for an unbounded region:
/// the largest scalar divided by a thousand, so that such a shape can still be moved.
pub const MAX_MILLIONTHS: i64 = 9_223_372_036_854_775;

/// A direction, for half-planes and half-spaces.
#[derive(Clone, Copy, Debug, PartialEq, Eq, Structural)]
pub enum Aim {
    N,
    S,
    E,
    W,
    U,
    D,
}

/// A color tag.
#[derive(Clone, Copy, Debug, PartialEq, Eq, Structural)]
pub enum ColorEnum {
    Red,
    Green,
    Blue,
}

/// The kind of an n-ary combinator node.
#[derive(Clone, Copy, Debug, PartialEq, Eq, Structural)]
pub enum JoinKind {
    Union,
    Intersection,
    Hull,
    Minkowski,
}

/// Folding a finite sequence of shapes into one combinator node, children in sequence order.
pub trait DIterator<D: View>: Sized {
    /// The combinator node of kind `k` whose children are the shapes, in order.
    spec fn joined(self, k: JoinKind) -> D::V;

    /// The hull of the shapes.
    fn hull(self) -> (r: D)
        ensures
            r@ == self.joined(JoinKind::Hull),
    ;

    /// The union of the shapes.
    fn union(self) -> (r: D)
        ensures
            r@ == self.joined(JoinKind::Union),
    ;

    /// The intersection of the shapes.
    fn intersection(self) -> (r: D)
        ensures
            r@ == self.joined(JoinKind::Intersection),
    ;

    /// The Minkowski sum of the shapes.
    fn minkowski(self) -> (r: D)
        ensures
            r@ == self.joined(JoinKind::Minkowski),
    ;

    /// The union of the shapes, as a sum.
    fn sum(self) -> (r: D)
        ensures
            r@ == self.joined(JoinKind::Union),
    ;

    /// The intersection of the shapes, as a product.
    fn product(self) -> (r: D)
        ensures
            r@ == self.joined(JoinKind::Intersection),
    ;
}

/// Quoted name of a color.
pub open spec fn color_text(c: ColorEnum) -> Seq<char> {
    match c {
        ColorEnum::Red => "\"red\""@,
        ColorEnum::Green => "\"green\""@,
        ColorEnum::Blue => "\"blue\""@,
    }
}

/// Keyword of a combinator.
pub open spec fn kind_text(k: JoinKind) -> Seq<char> {
    match k {
        JoinKind::Union => "union"@,
        JoinKind::Intersection => "intersection"@,
        JoinKind::Hull => "hull"@,
        JoinKind::Minkowski => "minkowski"@,
    }
}

/// A node with children: its head, then its body on the lines below, indented.
pub open spec fn block(head: Seq<char>, body: Seq<char>) -> Seq<char> {
    head + " {\n  "@ + body + "\n}"@
}

/// The separator between two children in a body.
pub open spec fn sep() -> Seq<char> {
    "\n  "@
}

/// Appends the quoted name of a color.
pub fn push_color(out: &mut Vec<char>, c: ColorEnum)
    ensures
        final(out)@ == old(out)@ + color_text(c),
{
    match c {
        ColorEnum::Red => push_str(out, "\"red\""),
        ColorEnum::Green => push_str(out, "\"green\""),
        ColorEnum::Blue => push_str(out, "\"blue\""),
    }
}

/// Appends the keyword of a combinator.
pub fn push_kind(out: &mut Vec<char>, k: JoinKind)
    ensures
        final(out)@ == old(out)@ + kind_text(k),
{
    match k {
        JoinKind::Union => push_str(out, "union"),
        JoinKind::Intersection => push_str(out, "intersection"),
        JoinKind::Hull => push_str(out, "hull"),
        JoinKind::Minkowski => push_str(out, "minkowski"),
    }
}

/// Appends the opening of a body.
pub fn push_open(out: &mut Vec<char>)
    ensures
        final(out)@ == old(out)@ + " {\n  "@,
{
    push_str(out, " {\n  ");
}

/// Appends the separator between two children.
pub fn push_sep(out: &mut Vec<char>)
    ensures
        final(out)@ == old(out)@ + sep(),
{
    push_str(out, "\n  ");
}

/// Appends the closing of a body.
pub fn push_close(out: &mut Vec<char>)
    ensures
        final(out)@ == old(out)@ + "\n}"@,
{
    push_str(out, "\n}");
}

/// Appends a block whose body is one child's text.
pub fn push_wrapped(out: &mut Vec<char>, head: &Vec<char>, child: &Vec<char>)
    ensures
        final(out)@ == old(out)@ + block(head@, indented(child@)),
{
    let mut i: usize = 0;
    while i < head.len()
        invariant
            i <= head@.len(),
            out@ == old(out)@ + head@.subrange(0, i as int),
        decreases head@.len() - i,
    {
        out.push(head[i]);
        i = i + 1;
        assert(out@ =~= old(out)@ + head@.subrange(0, i as int));
    }
    assert(head@.subrange(0, head@.len() as int) =~= head@);
    push_open(out);
    push_indented(out, child);
    push_close(out);
    assert(final(out)@ =~= old(out)@ + block(head@, indented(child@)));
}

} // verus!
