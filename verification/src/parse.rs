//! Readers for the fields of a record: integers, durations and free text.

use vstd::prelude::*;
use vstd::string::StringExecFns;
use crate::error::ParseTodoError;
use crate::numeral::{IntErrorKind, parse_int, parse_signed, parse_unsigned};
use crate::text::{chars_of, expand_tabs, expand_tabs_chars, free_of, lemma_expand_tabs, string_from_chars};

verus! {

/// What the user is told about each kind of malformed integer.
pub open spec fn int_error_text(k: IntErrorKind) -> Seq<char> {
    match k {
        IntErrorKind::Empty => "cannot parse integer from empty string"@,
        IntErrorKind::InvalidDigit => "invalid digit found in string"@,
        IntErrorKind::PosOverflow => "number too large to fit in target type"@,
        IntErrorKind::NegOverflow => "number too small to fit in target type"@,
    }
}

/// The message for a text `s` that is no integer of the type named `ty`.
pub open spec fn int_failure(s: Seq<char>, ty: Seq<char>, k: IntErrorKind) -> Seq<char> {
    "Error parsing "@ + s + " to "@ + ty + ": "@ + int_error_text(k)
}

/// The words for each kind of malformed integer.
pub fn int_error_str(k: IntErrorKind) -> (reason: &'static str)
    ensures
        reason@ == int_error_text(k),
{
    match k {
        IntErrorKind::Empty => "cannot parse integer from empty string",
        IntErrorKind::InvalidDigit => "invalid digit found in string",
        IntErrorKind::PosOverflow => "number too large to fit in target type",
        IntErrorKind::NegOverflow => "number too small to fit in target type",
    }
}

/// Builds the error for a text that is no integer of the type named `ty`.
fn int_error(s: &str, ty: &str, k: IntErrorKind) -> (e: ParseTodoError)
    ensures
        e@ == int_failure(s@, ty@, k),
{
    let mut m = String::from_str("Error parsing ");
    m.append(s);
    m.append(" to ");
    m.append(ty);
    m.append(": ");
    m.append(int_error_str(k));
    ParseTodoError::new(m.as_str())
}

/// Strict base-10 reading of a `usize`: an optional `+`, then digits only.
pub fn parse_usize(s: &str) -> (r: Result<usize, ParseTodoError>)
    ensures
        match parse_int(s@, false, 0, usize::MAX as int) {
            Ok(n) => r is Ok && r->Ok_0 == n,
            Err(k) => r is Err && r->Err_0@ == int_failure(s@, "usize"@, k),
        },
{
    match parse_unsigned(s, usize::MAX as u64) {
        Ok(n) => Ok(n as usize),
        Err(k) => Err(int_error(s, "usize", k)),
    }
}

/// Strict base-10 reading of a `u64`: an optional `+`, then digits only.
pub fn parse_u64(s: &str) -> (r: Result<u64, ParseTodoError>)
    ensures
        match parse_int(s@, false, 0, u64::MAX as int) {
            Ok(n) => r is Ok && r->Ok_0 == n,
            Err(k) => r is Err && r->Err_0@ == int_failure(s@, "u64"@, k),
        },
{
    match parse_unsigned(s, u64::MAX) {
        Ok(n) => Ok(n),
        Err(k) => Err(int_error(s, "u64", k)),
    }
}

/// Strict base-10 reading of an `isize`: an optional `+` or `-`, then digits only.
pub fn parse_isize(s: &str) -> (r: Result<isize, ParseTodoError>)
    ensures
        match parse_int(s@, true, isize::MIN as int, isize::MAX as int) {
            Ok(n) => r is Ok && r->Ok_0 == n,
            Err(k) => r is Err && r->Err_0@ == int_failure(s@, "isize"@, k),
        },
{
    match parse_signed(s, isize::MIN as i64, isize::MAX as i64) {
        Ok(n) => Ok(n as isize),
        Err(k) => Err(int_error(s, "isize", k)),
    }
}

/// A duration in whole seconds; the text never stands for an absent duration.
pub fn parse_duration_result(s: &str) -> (r: Result<Option<u64>, ParseTodoError>)
    ensures
        match parse_int(s@, false, 0, u64::MAX as int) {
            Ok(n) => r is Ok && r->Ok_0 == Some(n as u64),
            Err(k) => r is Err && r->Err_0@ == int_failure(s@, "u64"@, k),
        },
{
    match parse_u64(s) {
        Ok(u) => Ok(Some(u)),
        Err(e) => Err(e),
    }
}

/// Free text as it is stored: every tab written as four spaces, so that no
/// text can be mistaken for two fields.
pub fn parse_string(s: &str) -> (r: String)
    ensures
        r@ == expand_tabs(s@),
        free_of(r@, '\t'),
{
    let v = chars_of(s);
    let expanded = expand_tabs_chars(&v);
    proof {
        lemma_expand_tabs(s@);
    }
    string_from_chars(&expanded)
}

} // verus!
