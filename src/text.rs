use vstd::prelude::*;

verus! {

/// What `String::from_utf16` makes of a sequence of code units: the characters, or nothing
/// where the units are not valid UTF-16.
pub uninterp spec fn utf16_decoded(units: Seq<u16>) -> Option<Seq<char>>;

/// The code units that `str::encode_utf16` yields for a string.
pub uninterp spec fn utf16_encoded(s: Seq<char>) -> Seq<u16>;

/// Relies on `String::from_utf16`: `Err` exactly on invalid UTF-16, else the decoded string.
#[verifier::external_body]
pub fn string_from_utf16(units: &[u16]) -> (r: Option<String>)
    ensures
        match r {
            Some(s) => utf16_decoded(units@) == Some(s@),
            None => utf16_decoded(units@) is None,
        },
{
    String::from_utf16(units).ok()
}

/// Relies on `str::encode_utf16`: the code units of the string, collected in order.
#[verifier::external_body]
pub fn utf16_units(s: &str) -> (r: Vec<u16>)
    ensures
        r@ == utf16_encoded(s@),
{
    s.encode_utf16().collect()
}

/// Relies on `str::chars`: the characters of the string in order.
#[verifier::external_body]
pub fn chars_of(s: &str) -> (r: Vec<char>)
    ensures
        r@ == s@,
{
    s.chars().collect()
}

/// Relies on `String`'s `FromIterator<char>`: the string of exactly these characters.
#[verifier::external_body]
pub fn string_from_chars(chars: &[char]) -> (r: String)
    ensures
        r@ == chars@,
{
    chars.iter().collect()
}

} // verus!
