//! Lenient readings of numbers and booleans that manifests in the wild
//! write as strings.
use vstd::prelude::*;
use crate::number::{parse_magnitude_from, unsigned_part, magnitude};
use crate::text::str_eq;

verus! {

/// What `str::to_lowercase` makes of a string; it depends on the characters
/// alone.
pub uninterp spec fn lower_of(s: Seq<char>) -> Seq<char>;

/// Relies on `str::to_lowercase`: the lowercase form of `s`, which depends
/// on its characters alone.
#[verifier::external_body]
fn lowercase(s: &str) -> (r: String)
    ensures
        r@ == lower_of(s@),
{
    s.to_lowercase()
}

/// The truth value that a lowercase word names: `true` and `yes` are true;
/// `false`, `no` and the empty word are false.
pub open spec fn bool_word(w: Seq<char>) -> Option<bool> {
    if w == "true"@ || w == "yes"@ {
        Some(true)
    } else if w == "false"@ || w == "no"@ || w == ""@ {
        Some(false)
    } else {
        None
    }
}

/// The truth value that the lowercase word `w` names, if any.
pub fn bool_from_lowercase(w: &str) -> (r: Option<bool>)
    ensures
        r == bool_word(w@),
{
    if str_eq(w, "true") || str_eq(w, "yes") {
        Some(true)
    } else if str_eq(w, "false") || str_eq(w, "no") || str_eq(w, "") {
        Some(false)
    } else {
        None
    }
}

/// The truth value that `s` names, whatever its case.
pub fn string_value_into_bool(s: &str) -> (r: Option<bool>)
    ensures
        r == bool_word(lower_of(s@)),
{
    let w = lowercase(s);
    bool_from_lowercase(w.as_str())
}

/// The `u64` that `s` spells: an optional `+` and decimal digits, within
/// range.
pub open spec fn parsed_u64(s: Seq<char>) -> Option<u64> {
    match magnitude(unsigned_part(s, '+')) {
        Some(v) => if v <= u64::MAX {
            Some(v as u64)
        } else {
            None
        },
        None => None,
    }
}

/// Reads a `u64` as `str::parse` does.
pub fn parse_u64(s: &str) -> (r: Option<u64>)
    ensures
        r == parsed_u64(s@),
{
    parse_magnitude_from(s)
}

/// The number that a string in a manifest stands for: its value as an
/// integer when it is one, else `as_float` (the string read as a float and
/// truncated, if it reads as one), else 0.
pub fn string_value_into_u64(s: &str, as_float: Option<u64>) -> (r: u64)
    ensures
        r == (match parsed_u64(s@) {
            Some(v) => v,
            None => match as_float {
                Some(f) => f,
                None => 0,
            },
        }),
{
    match parse_u64(s) {
        Some(v) => v,
        None => match as_float {
            Some(f) => f,
            None => 0,
        },
    }
}

} // verus!
