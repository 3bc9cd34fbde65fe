//! Character buffers, string literals and the indentation of rendered blocks.
use vstd::prelude::*;

verus! {

/// Relies on `String::push`: appends one character at the end.
#[verifier::external_body]
fn push_char(s: &mut String, c: char)
    ensures
        final(s)@ == old(s)@.push(c),
{
    s.push(c);
}

/// The string holding exactly the characters of `chars`.
pub fn string_of(chars: &Vec<char>) -> (r: String)
    ensures
        r@ == chars@,
{
    let mut r = String::new();
    let mut i: usize = 0;
    while i < chars.len()
        invariant
            i <= chars@.len(),
            r@ == chars@.subrange(0, i as int),
        decreases chars@.len() - i,
    {
        push_char(&mut r, chars[i]);
        i = i + 1;
        assert(r@ =~= chars@.subrange(0, i as int));
    }
    assert(chars@.subrange(0, chars@.len() as int) =~= chars@);
    r
}

/// Appends the characters of `s`.
pub fn push_str(out: &mut Vec<char>, s: &str)
    ensures
        final(out)@ == old(out)@ + s@,
{
    let n = s.unicode_len();
    let mut i: usize = 0;
    while i < n
        invariant
            n == s@.len(),
            i <= n,
            out@ == old(out)@ + s@.subrange(0, i as int),
        decreases n - i,
    {
        out.push(s.get_char(i));
        i = i + 1;
        assert(out@ =~= old(out)@ + s@.subrange(0, i as int));
    }
    assert(s@.subrange(0, n as int) =~= s@);
}

/// `s` with two spaces after each newline: the text of a block nested one level deeper.
pub open spec fn indented(s: Seq<char>) -> Seq<char>
    decreases s.len(),
{
    if s.len() == 0 {
        seq![]
    } else {
        indented(s.drop_last()) + step(s.last())
    }
}

/// What one character becomes in an indented block.
pub open spec fn step(c: char) -> Seq<char> {
    if c == '\n' {
        seq!['\n', ' ', ' ']
    } else {
        seq![c]
    }
}

/// Indentation distributes over concatenation.
pub proof fn lemma_indent_concat(a: Seq<char>, b: Seq<char>)
    ensures
        indented(a + b) == indented(a) + indented(b),
    decreases b.len(),
{
    if b.len() == 0 {
        assert(a + b =~= a);
        assert(indented(b) =~= seq![]);
        assert(indented(a) + indented(b) =~= indented(a));
    } else {
        lemma_indent_concat(a, b.drop_last());
        assert((a + b).drop_last() =~= a + b.drop_last());
        assert((a + b).last() == b.last());
        assert(indented(a + b) =~= indented(a) + indented(b));
    }
}

/// Appends `s` with two spaces after each of its newlines.
pub fn push_indented(out: &mut Vec<char>, s: &Vec<char>)
    ensures
        final(out)@ == old(out)@ + indented(s@),
{
    let mut i: usize = 0;
    while i < s.len()
        invariant
            i <= s@.len(),
            out@ == old(out)@ + indented(s@.subrange(0, i as int)),
        decreases s@.len() - i,
    {
        let c = s[i];
        out.push(c);
        if c == '\n' {
            out.push(' ');
            out.push(' ');
        }
        proof {
            let p = s@.subrange(0, i as int + 1);
            assert(p.drop_last() =~= s@.subrange(0, i as int));
            assert(p.last() == c);
        }
        i = i + 1;
        assert(out@ =~= old(out)@ + indented(s@.subrange(0, i as int)));
    }
    assert(s@.subrange(0, s@.len() as int) =~= s@);
}

} // verus!
