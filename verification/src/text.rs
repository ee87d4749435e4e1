//! Small helpers for building text from verified code.

use vstd::prelude::*;

verus! {

/// Appends one character to a `String` (`String::push` of std).
#[verifier::external_body]
pub(crate) fn push_char(s: &mut String, c: char)
    ensures
        final(s)@ == old(s)@.push(c),
{
    s.push(c);
}

/// Appends every character of `chars` to `s`, in order.
pub(crate) fn push_chars(s: &mut String, chars: &[char])
    ensures
        final(s)@ == old(s)@ + chars@,
{
    let ghost start = s@;
    let mut i: usize = 0;
    while i < chars.len()
        invariant
            i <= chars@.len(),
            s@ == start + chars@.subrange(0, i as int),
        decreases chars@.len() - i,
    {
        push_char(s, chars[i]);
        i = i + 1;
        assert(chars@.subrange(0, i as int) == chars@.subrange(0, i - 1 as int).push(chars@[i - 1]));
    }
    assert(chars@.subrange(0, chars@.len() as int) == chars@);
}

/// `prefix` followed by `text`.
pub(crate) fn prefixed(prefix: &str, text: &[char]) -> (r: String)
    ensures
        r@ == prefix@ + text@,
{
    let mut out = prefix.to_owned();
    push_chars(&mut out, text);
    out
}

} // verus!
