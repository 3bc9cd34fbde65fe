//! Fixed-point scalars and vectors, and their exact decimal text.
use vstd::prelude::*;
use crate::text::string_of;

verus! {

/// Number of units in one: a scalar holds millionths.
pub const SCALE: i64 = 1_000_000;

/// Character of a decimal digit.
pub open spec fn digit_char(d: int) -> char {
    if d == 0 { '0' }
    else if d == 1 { '1' }
    else if d == 2 { '2' }
    else if d == 3 { '3' }
    else if d == 4 { '4' }
    else if d == 5 { '5' }
    else if d == 6 { '6' }
    else if d == 7 { '7' }
    else if d == 8 { '8' }
    else { '9' }
}

/// Decimal digits of `n`, without leading zeros.
pub open spec fn digits(n: nat) -> Seq<char>
    decreases n,
{
    if n < 10 {
        seq![digit_char(n as int)]
    } else {
        digits(n / 10) + seq![digit_char((n % 10) as int)]
    }
}

/// The `w` lowest decimal digits of `n`, zero padded.
pub open spec fn padded(n: nat, w: nat) -> Seq<char>
    decreases w,
{
    if w == 0 {
        seq![]
    } else {
        padded(n / 10, (w - 1) as nat) + seq![digit_char((n % 10) as int)]
    }
}

/// A fraction of `w` digits, with its trailing zeros dropped.
pub open spec fn fraction(f: nat, w: nat) -> Seq<char>
    decreases w,
{
    if w > 0 && f % 10 == 0 {
        fraction(f / 10, (w - 1) as nat)
    } else {
        padded(f, w)
    }
}

/// Shortest decimal text of `u` millionths.
pub open spec fn unsigned_text(u: nat) -> Seq<char> {
    let whole = u / (SCALE as nat);
    let part = u % (SCALE as nat);
    if part == 0 {
        digits(whole)
    } else {
        digits(whole) + seq!['.'] + fraction(part, 6)
    }
}

/// Shortest decimal text of `v` millionths, with a minus sign when negative.
pub open spec fn num_text(v: int) -> Seq<char> {
    if v < 0 {
        seq!['-'] + unsigned_text((-v) as nat)
    } else {
        unsigned_text(v as nat)
    }
}

/// Appends one decimal digit.
fn push_digit(out: &mut Vec<char>, d: u64)
    requires
        d < 10,
    ensures
        final(out)@ == old(out)@.push(digit_char(d as int)),
{
    let c = if d == 0 { '0' }
        else if d == 1 { '1' }
        else if d == 2 { '2' }
        else if d == 3 { '3' }
        else if d == 4 { '4' }
        else if d == 5 { '5' }
        else if d == 6 { '6' }
        else if d == 7 { '7' }
        else if d == 8 { '8' }
        else { '9' };
    out.push(c);
}

/// Appends the digits of `n`.
pub fn push_digits(out: &mut Vec<char>, n: u64)
    ensures
        final(out)@ == old(out)@ + digits(n as nat),
    decreases n,
{
    if n < 10 {
        push_digit(out, n);
        assert(final(out)@ =~= old(out)@ + digits(n as nat));
    } else {
        push_digits(out, n / 10);
        push_digit(out, n % 10);
        assert(final(out)@ =~= old(out)@ + digits(n as nat));
    }
}

/// Appends the `w` lowest digits of `n`, zero padded.
fn push_padded(out: &mut Vec<char>, n: u64, w: u64)
    ensures
        final(out)@ == old(out)@ + padded(n as nat, w as nat),
    decreases w,
{
    if w > 0 {
        push_padded(out, n / 10, w - 1);
        push_digit(out, n % 10);
        assert(final(out)@ =~= old(out)@ + padded(n as nat, w as nat));
    } else {
        assert(final(out)@ =~= old(out)@ + padded(n as nat, w as nat));
    }
}

/// Appends a fraction of `w` digits without its trailing zeros.
fn push_fraction(out: &mut Vec<char>, f: u64, w: u64)
    ensures
        final(out)@ == old(out)@ + fraction(f as nat, w as nat),
    decreases w,
{
    if w > 0 && f % 10 == 0 {
        push_fraction(out, f / 10, w - 1);
    } else {
        push_padded(out, f, w);
    }
}

/// Appends the text of `u` millionths.
fn push_unsigned(out: &mut Vec<char>, u: u64)
    ensures
        final(out)@ == old(out)@ + unsigned_text(u as nat),
{
    let whole = u / (SCALE as u64);
    let part = u % (SCALE as u64);
    push_digits(out, whole);
    if part != 0 {
        out.push('.');
        push_fraction(out, part, 6);
    }
    assert(final(out)@ =~= old(out)@ + unsigned_text(u as nat));
}

/// Appends the text of `v` millionths.
pub fn push_num(out: &mut Vec<char>, v: i64)
    ensures
        final(out)@ == old(out)@ + num_text(v as int),
{
    if v < 0 {
        out.push('-');
        let u = (0 - (v as i128)) as u64;
        push_unsigned(out, u);
    } else {
        push_unsigned(out, v as u64);
    }
    assert(final(out)@ =~= old(out)@ + num_text(v as int));
}

/// A scalar: a count of millionths, so that sums are exact.
#[derive(Clone, Copy, Debug, PartialEq, Eq, Structural)]
pub struct X {
    pub millionths: i64,
}

/// Whether `v` millionths can be held by a scalar.
pub open spec fn fits(v: int) -> bool {
    i64::MIN <= v <= i64::MAX
}

impl X {
    /// The value in millionths.
    pub open spec fn val(self) -> int {
        self.millionths as int
    }

    /// The scalar of a whole number.
    pub fn from_int(i: i32) -> (r: X)
        ensures
            r.val() == i * SCALE,
    {
        X { millionths: i as i64 * SCALE }
    }

    /// The scalar `millionths / 1_000_000`.
    pub fn from_millionths(millionths: i64) -> (r: X)
        ensures
            r.val() == millionths,
    {
        X { millionths }
    }

    /// The sum of two scalars.
    pub fn plus(self, o: X) -> (r: X)
        requires
            fits(self.val() + o.val()),
        ensures
            r.val() == self.val() + o.val(),
    {
        X { millionths: self.millionths + o.millionths }
    }

    /// The difference of two scalars.
    pub fn minus(self, o: X) -> (r: X)
        requires
            fits(self.val() - o.val()),
        ensures
            r.val() == self.val() - o.val(),
    {
        X { millionths: self.millionths - o.millionths }
    }

    /// The scalar multiplied by a whole number.
    pub fn times(self, k: i64) -> (r: X)
        requires
            fits(self.val() * k),
        ensures
            r.val() == self.val() * k,
    {
        X { millionths: self.millionths * k }
    }

    /// The shortest decimal text of the scalar (`5`, `2.5`, `-0.125`).
    pub fn to_string(&self) -> (r: String)
        ensures
            r@ == num_text(self.val()),
    {
        let mut out: Vec<char> = Vec::new();
        push_num(&mut out, self.millionths);
        assert(out@ =~= num_text(self.val()));
        string_of(&out)
    }
}


impl From<i32> for X {
    /// The scalar of a whole number.
    fn from(i: i32) -> (r: X) {
        X { millionths: i as i64 * SCALE }
    }
}

impl vstd::std_specs::convert::FromSpecImpl<i32> for X {
    open spec fn obeys_from_spec() -> bool {
        true
    }

    open spec fn from_spec(i: i32) -> X {
        X { millionths: (i * 1_000_000) as i64 }
    }
}

impl From<u32> for X {
    /// The scalar of a whole number.
    fn from(i: u32) -> (r: X) {
        X { millionths: i as i64 * SCALE }
    }
}

impl vstd::std_specs::convert::FromSpecImpl<u32> for X {
    open spec fn obeys_from_spec() -> bool {
        true
    }

    open spec fn from_spec(i: u32) -> X {
        X { millionths: (i * 1_000_000) as i64 }
    }
}

/// `r` is the square root of `x`, rounded down.
pub open spec fn is_root(r: int, x: int) -> bool {
    0 <= r && r * r <= x < (r + 1) * (r + 1)
}

/// The square root of `x`, rounded down.
pub open spec fn floor_sqrt(x: int) -> int {
    choose|r: int| is_root(r, x)
}

/// A number has at most one square root rounded down.
pub proof fn lemma_root_unique(r: int, q: int, x: int)
    requires
        is_root(r, x),
        is_root(q, x),
    ensures
        r == q,
{
    if r < q {
        assert((r + 1) * (r + 1) <= q * q) by (nonlinear_arith)
            requires
                0 <= r,
                r + 1 <= q,
        ;
    } else if q < r {
        assert((q + 1) * (q + 1) <= r * r) by (nonlinear_arith)
            requires
                0 <= q,
                q + 1 <= r,
        ;
    }
}

/// The square root of `x`, rounded down, found by halving an interval.
pub fn isqrt(x: u128) -> (r: u64)
    requires
        x < 0x4000_0000_0000_0000_0000_0000_0000_0000,
    ensures
        is_root(r as int, x as int),
        r as int == floor_sqrt(x as int),
        r < 0x8000_0000_0000_0000,
{
    let mut lo: u128 = 0;
    let mut hi: u128 = 0x8000_0000_0000_0000;
    assert(hi * hi == 0x4000_0000_0000_0000_0000_0000_0000_0000);
    while hi - lo > 1
        invariant
            lo < hi <= 0x8000_0000_0000_0000,
            lo * lo <= x,
            x < hi * hi,
        decreases hi - lo,
    {
        let mid = lo + (hi - lo) / 2;
        assert(mid * mid <= 0x4000_0000_0000_0000_0000_0000_0000_0000) by (nonlinear_arith)
            requires
                0 <= mid <= 0x8000_0000_0000_0000,
        ;
        if mid * mid <= x {
            lo = mid;
        } else {
            hi = mid;
        }
    }
    assert(hi == lo + 1);
    let r = lo as u64;
    assert(is_root(r as int, x as int));
    proof {
        lemma_root_unique(r as int, floor_sqrt(x as int), x as int);
    }
    r
}

/// The scalar `a + b`.
pub open spec fn xsum(a: X, b: X) -> X {
    X { millionths: (a.val() + b.val()) as i64 }
}

/// The scalar `a * k`.
pub open spec fn xscaled(a: X, k: int) -> X {
    X { millionths: (a.val() * k) as i64 }
}

/// The scalar of `m` millionths.
pub open spec fn xm(m: int) -> X {
    X { millionths: m as i64 }
}

/// The plane vector `v * k`.
pub open spec fn xy_scaled(v: XY, k: int) -> XY {
    XY(xscaled(v.0, k), xscaled(v.1, k))
}

/// Moving by `a * i` stays in range when moving by `a * m` does and `0 <= i <= m`.
pub proof fn lemma_scaled_fits(w: int, a: int, i: int, m: int)
    requires
        0 <= i <= m,
        fits(w),
        fits(w + a * m),
    ensures
        fits(w + a * i),
{
    assert(a >= 0 ==> 0 <= a * i <= a * m) by (nonlinear_arith)
        requires
            0 <= i <= m,
    ;
    assert(a < 0 ==> a * m <= a * i <= 0) by (nonlinear_arith)
        requires
            0 <= i <= m,
    ;
}

/// A vector in the plane.
#[derive(Clone, Copy, Debug, PartialEq, Eq, Structural)]
pub struct XY(pub X, pub X);

/// A vector in space.
#[derive(Clone, Copy, Debug, PartialEq, Eq, Structural)]
pub struct XYZ(pub X, pub X, pub X);

/// The plane vector `(x, y)`.
pub fn v2(x: X, y: X) -> (r: XY)
    ensures
        r == XY(x, y),
{
    XY(x, y)
}

/// The space vector `(x, y, z)`.
pub fn v3(x: X, y: X, z: X) -> (r: XYZ)
    ensures
        r == XYZ(x, y, z),
{
    XYZ(x, y, z)
}

/// Text of a list of scalar texts: `[a, b, c]`.
pub open spec fn bracket2(a: Seq<char>, b: Seq<char>) -> Seq<char> {
    seq!['['] + a + seq![',', ' '] + b + seq![']']
}

/// Text of a plane vector: `[x, y]`.
pub open spec fn xy_text(v: XY) -> Seq<char> {
    bracket2(num_text(v.0.val()), num_text(v.1.val()))
}

/// Text of a space vector: `[x, y, z]`.
pub open spec fn xyz_text(v: XYZ) -> Seq<char> {
    seq!['['] + num_text(v.0.val()) + seq![',', ' '] + num_text(v.1.val()) + seq![',', ' ']
        + num_text(v.2.val()) + seq![']']
}

/// Sum of two plane vectors, when each coordinate fits.
pub open spec fn xy_sum_fits(a: XY, b: XY) -> bool {
    fits(a.0.val() + b.0.val()) && fits(a.1.val() + b.1.val())
}

/// Sum of two space vectors, when each coordinate fits.
pub open spec fn xyz_sum_fits(a: XYZ, b: XYZ) -> bool {
    fits(a.0.val() + b.0.val()) && fits(a.1.val() + b.1.val()) && fits(a.2.val() + b.2.val())
}

/// Appends the text of a plane vector.
pub fn push_xy(out: &mut Vec<char>, v: XY)
    ensures
        final(out)@ == old(out)@ + xy_text(v),
{
    out.push('[');
    push_num(out, v.0.millionths);
    out.push(',');
    out.push(' ');
    push_num(out, v.1.millionths);
    out.push(']');
    assert(final(out)@ =~= old(out)@ + xy_text(v));
}

/// Appends the text of a space vector.
pub fn push_xyz(out: &mut Vec<char>, v: XYZ)
    ensures
        final(out)@ == old(out)@ + xyz_text(v),
{
    out.push('[');
    push_num(out, v.0.millionths);
    out.push(',');
    out.push(' ');
    push_num(out, v.1.millionths);
    out.push(',');
    out.push(' ');
    push_num(out, v.2.millionths);
    out.push(']');
    assert(final(out)@ =~= old(out)@ + xyz_text(v));
}

impl XY {
    /// The coordinate-wise sum.
    pub fn plus(self, o: XY) -> (r: XY)
        requires
            xy_sum_fits(self, o),
        ensures
            r.0.val() == self.0.val() + o.0.val(),
            r.1.val() == self.1.val() + o.1.val(),
    {
        XY(self.0.plus(o.0), self.1.plus(o.1))
    }

    /// The vector multiplied by a whole number.
    pub fn times(self, k: i64) -> (r: XY)
        requires
            fits(self.0.val() * k),
            fits(self.1.val() * k),
        ensures
            r.0.val() == self.0.val() * k,
            r.1.val() == self.1.val() * k,
    {
        XY(self.0.times(k), self.1.times(k))
    }

    /// The text `[x, y]`.
    pub fn to_string(&self) -> (r: String)
        ensures
            r@ == xy_text(*self),
    {
        let mut out: Vec<char> = Vec::new();
        push_xy(&mut out, *self);
        assert(out@ =~= xy_text(*self));
        string_of(&out)
    }
}

impl XYZ {
    /// The coordinate-wise sum.
    pub fn plus(self, o: XYZ) -> (r: XYZ)
        requires
            xyz_sum_fits(self, o),
        ensures
            r.0.val() == self.0.val() + o.0.val(),
            r.1.val() == self.1.val() + o.1.val(),
            r.2.val() == self.2.val() + o.2.val(),
    {
        XYZ(self.0.plus(o.0), self.1.plus(o.1), self.2.plus(o.2))
    }

    /// The vector multiplied by a whole number.
    pub fn times(self, k: i64) -> (r: XYZ)
        requires
            fits(self.0.val() * k),
            fits(self.1.val() * k),
            fits(self.2.val() * k),
        ensures
            r.0.val() == self.0.val() * k,
            r.1.val() == self.1.val() * k,
            r.2.val() == self.2.val() * k,
    {
        XYZ(self.0.times(k), self.1.times(k), self.2.times(k))
    }

    /// The text `[x, y, z]`.
    pub fn to_string(&self) -> (r: String)
        ensures
            r@ == xyz_text(*self),
    {
        let mut out: Vec<char> = Vec::new();
        push_xyz(&mut out, *self);
        assert(out@ =~= xyz_text(*self));
        string_of(&out)
    }
}

} // verus!
