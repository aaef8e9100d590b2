//! Identifier generation: random short ids for type definitions (the graph
//! engine wants label names that start with a letter, so a letter prefix is
//! put in front), fresh attribute ids, and the creation timestamp.

use vstd::prelude::*;
use crate::text::{is_ascii_upper, is_ascii_digit, is_ascii_alphanumeric,
    string_from_chars, char_from_u32};

verus! {

/// Relies on rand's `Alphanumeric` distribution: every sampled byte is an
/// ASCII letter or digit.
#[verifier::external_body]
fn sample_alphanumeric() -> (c: char)
    ensures
        is_ascii_alphanumeric(c),
{
    rand::Rng::sample(&mut rand::rng(), rand::distr::Alphanumeric) as char
}

/// The uppercase form of an ASCII letter or digit.
fn upper_alphanumeric(c: char) -> (r: char)
    requires
        is_ascii_alphanumeric(c),
    ensures
        is_ascii_upper(r) || is_ascii_digit(r),
{
    if 'a' <= c && c <= 'z' {
        let u = c as u32 - 32;
        match char_from_u32(u) {
            Some(r) => r,
            None => c,
        }
    } else {
        c
    }
}

/// A character is a valid piece of a generated id: an uppercase ASCII
/// letter or a digit.
pub open spec fn is_id_char(c: char) -> bool {
    is_ascii_upper(c) || is_ascii_digit(c)
}

/// A random identifier of the given length over uppercase letters and
/// digits.
pub fn create_id(length: u64) -> (r: String)
    requires
        length <= usize::MAX as u64,
    ensures
        r@.len() == length,
        forall|i: int| 0 <= i < r@.len() ==> is_id_char(#[trigger] r@[i]),
{
    let mut out: Vec<char> = Vec::new();
    let mut i: u64 = 0;
    while i < length
        invariant
            i <= length,
            length <= usize::MAX as u64,
            out@.len() == i,
            forall|q: int| 0 <= q < out@.len() ==> is_id_char(#[trigger] out@[q]),
        decreases length - i,
    {
        let c = sample_alphanumeric();
        out.push(upper_alphanumeric(c));
        i = i + 1;
    }
    string_from_chars(&out)
}

/// A generated id for a type definition: the kind's letter prefix in front
/// of the random part, so the id can serve as an engine label name.
pub open spec fn type_id_ok(s: Seq<char>, prefix: char) -> bool {
    s.len() == 9 && s[0] == prefix && forall|i: int| 1 <= i < s.len() ==> is_id_char(#[trigger] s[i])
}

/// A fresh type id with the given kind prefix.
pub fn create_type_id(prefix: char) -> (r: String)
    ensures
        type_id_ok(r@, prefix),
{
    let suffix = create_id(8);
    let tail = crate::text::str_chars(suffix.as_str());
    let mut out: Vec<char> = Vec::new();
    out.push(prefix);
    let mut i: usize = 0;
    while i < tail.len()
        invariant
            i <= tail@.len(),
            out@.len() == i + 1,
            out@[0] == prefix,
            forall|q: int| 0 <= q < tail@.len() ==> is_id_char(#[trigger] tail@[q]),
            forall|q: int| 1 <= q < out@.len() ==> is_id_char(#[trigger] out@[q]),
        decreases tail@.len() - i,
    {
        out.push(tail[i]);
        i = i + 1;
    }
    string_from_chars(&out)
}

/// Relies on `uuid::Uuid::new_v4` and its `Display` impl: a fresh random
/// identifier in the hyphenated text form. Nothing can be promised of a
/// random value.
#[verifier::external_body]
pub fn new_uuid_string() -> String {
    uuid::Uuid::new_v4().to_string()
}

/// Relies on `chrono::Utc::now` and `DateTime::to_rfc3339`: the current
/// time in RFC 3339 text form. Nothing can be promised of the clock.
#[verifier::external_body]
pub fn now_rfc3339() -> String {
    chrono::Utc::now().to_rfc3339()
}

} // verus!
