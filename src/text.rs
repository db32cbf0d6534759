//! Building strings out of characters.
use vstd::prelude::*;

verus! {

/// The characters of a string, in order.
pub(crate) fn chars_of(text: &str) -> (r: Vec<char>)
    ensures
        r@ == text@,
{
    let mut v: Vec<char> = Vec::new();
    for c in it: text.chars()
        invariant
            it.seq() == text@,
            v@ == it.seq().take(it.index() as int),
    {
        v.push(c);
    }
    v
}

/// The string made of the characters of `s`, in order.
/// Relies on `String: FromIterator<char>`: collecting characters appends each in turn.
#[verifier::external_body]
pub(crate) fn string_of(s: &Vec<char>) -> (r: String)
    ensures
        r@ == s@,
{
    s.iter().collect()
}

/// The string made of the characters `s[from..to]`.
pub(crate) fn text_between(s: &Vec<char>, from: usize, to: usize) -> (r: String)
    requires
        from <= to <= s@.len(),
    ensures
        r@ == s@.subrange(from as int, to as int),
{
    let mut v: Vec<char> = Vec::new();
    let mut i = from;
    while i < to
        invariant
            from <= i <= to <= s@.len(),
            v@ == s@.subrange(from as int, i as int),
        decreases to - i,
    {
        v.push(s[i]);
        i = i + 1;
        assert(v@ =~= s@.subrange(from as int, i as int));
    }
    string_of(&v)
}

/// Appends the characters of `text` to `v`.
pub(crate) fn push_str(v: &mut Vec<char>, text: &str)
    ensures
        final(v)@ == old(v)@ + text@,
{
    let mut w = chars_of(text);
    v.append(&mut w);
}

} // verus!
