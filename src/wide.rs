//! Nul-terminated UTF-16 strings, as wide-character OS interfaces take them.
use vstd::prelude::*;

verus! {

/// The UTF-16 code units that encode `s`.
pub uninterp spec fn utf16_of(s: Seq<char>) -> Seq<u16>;

/// Relies on `str::encode_utf16`: the UTF-16 code units of the string, in
/// order, and none for the empty string.
#[verifier::external_body]
fn encode_utf16(s: &str) -> (r: Vec<u16>)
    ensures
        r@ == utf16_of(s@),
        s@.len() == 0 ==> r@.len() == 0,
{
    s.encode_utf16().collect()
}

/// Appends the terminating nul unit to already encoded text.
pub fn nul_terminated(units: Vec<u16>) -> (r: Vec<u16>)
    ensures
        r@ == units@.push(0),
{
    let mut r = units;
    r.push(0);
    r
}

/// Conversion to a nul-terminated UTF-16 string.
pub trait ToCU16Str {
    spec fn wide_source(&self) -> Seq<char>;

    fn to_c_u16(&self) -> (r: Vec<u16>)
        ensures
            r@ == utf16_of(self.wide_source()).push(0),
    ;
}

impl<'a> ToCU16Str for &'a str {
    open spec fn wide_source(&self) -> Seq<char> {
        (*self)@
    }

    fn to_c_u16(&self) -> (r: Vec<u16>) {
        nul_terminated(encode_utf16(*self))
    }
}

} // verus!
