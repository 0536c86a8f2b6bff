use vstd::prelude::*;

verus! {

/// Appends one character to a string (`String::push`); the string grows by
/// exactly that character.
#[verifier::external_body]
pub fn push_char(s: &mut String, c: char)
    ensures
        final(s)@ == old(s)@.push(c),
{
    s.push(c);
}

/// The characters of a string slice, in order.
pub fn chars_of(s: &str) -> (r: Vec<char>)
    ensures
        r@ == s@,
{
    let mut out: Vec<char> = Vec::new();
    for c in it: s.chars()
        invariant
            out@ == it.seq().take(it.index() as int),
    {
        out.push(c);
    }
    out
}

/// What `{:?}` prints for a string slice: the text between double quotes,
/// with the escapes of Rust's `str::escape_debug`. Which characters that
/// escapes follows Unicode tables of the standard library.
pub uninterp spec fn rust_debug_text(s: Seq<char>) -> Seq<char>;

/// Formats a string slice with `{:?}` (`<str as Debug>::fmt`); the result is
/// `rust_debug_text` of the argument. Nothing more is stated of it.
#[verifier::external_body]
pub fn debug_text(s: &str) -> (r: String)
    ensures
        r@ == rust_debug_text(s@),
{
    format!("{:?}", s)
}

} // verus!
