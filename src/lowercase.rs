//! Case folding of family names.

use vstd::prelude::*;
use vstd::utf8::is_ascii_chars;

verus! {

/// The lowercase form that `str::to_lowercase` gives for a string.
pub uninterp spec fn lower_of(s: Seq<char>) -> Seq<char>;

/// Relies on `str::to_lowercase`: the result depends on the characters alone,
/// the empty string stays empty, and ASCII letters lowercase to ASCII
/// letters while other ASCII characters stay as they are.
#[verifier::external_body]
fn to_lowercase(s: &str) -> (r: String)
    ensures
        r@ == lower_of(s@),
        s@.len() == 0 ==> r@.len() == 0,
        is_ascii_chars(s@) ==> r@ == ascii_lower(s@),
{
    s.to_lowercase()
}

/// ASCII lowercase of one byte.
pub open spec fn ascii_lower_byte(b: u8) -> u8 {
    if 65 <= b <= 90 {
        (b + 32) as u8
    } else {
        b
    }
}

/// ASCII lowercase of a string of ASCII characters.
pub open spec fn ascii_lower(s: Seq<char>) -> Seq<char> {
    Seq::new(s.len(), |i: int| ascii_lower_byte(s[i] as u8) as char)
}

/// The folded form of a family name: its Unicode lowercase.
pub open spec fn fold_name(s: Seq<char>) -> Seq<char> {
    lower_of(s)
}

/// Reusable buffer for lowercasing family names.
pub struct LowercaseString {
    pub heap: String,
}

impl LowercaseString {
    pub fn new() -> (r: Self)
        ensures
            r.heap@.len() == 0,
    {
        LowercaseString { heap: String::new() }
    }

    /// Returns the folded form of `name`; an ASCII name folds letter by
    /// letter.
    pub fn get(&mut self, name: &str) -> (r: Option<String>)
        ensures
            r matches Some(v) && v@ == fold_name(name@),
            is_ascii_chars(name@) ==> (r matches Some(v) && v@ == ascii_lower(name@)),
            final(self).heap@ == fold_name(name@),
    {
        self.heap = to_lowercase(name);
        Some(self.heap.clone())
    }
}

} // verus!
