//! Times as text: the current time, and RFC 3339 timestamps read back.
use vstd::prelude::*;

verus! {

/// A character that a time written `%Y-%m-%d %H:%M:%S UTC` can hold: a
/// digit, a sign of the year, a separator, or a letter of `UTC`.
pub open spec fn is_stamp_char(c: char) -> bool {
    ('0' <= c && c <= '9') || c == '-' || c == '+' || c == ':' || c == ' ' || c == 'U' || c == 'T'
        || c == 'C'
}

/// Text made of such characters only.
pub open spec fn is_clock_stamp(t: Seq<char>) -> bool {
    forall|i: int| 0 <= i < t.len() ==> is_stamp_char(#[trigger] t[i])
}

/// `chrono::Utc::now()` written with the pattern `%Y-%m-%d %H:%M:%S UTC`.
/// Its fields are numbers (the year with a sign outside 0 to 9999) and its
/// literal text is `-`, `:`, spaces and `UTC`, so every outcome is made of
/// those characters; which time it is, nothing states.
#[verifier::external_body]
pub(crate) fn utc_now_text() -> (r: String)
    ensures
        is_clock_stamp(r@),
{
    chrono::Utc::now().format("%Y-%m-%d %H:%M:%S UTC").to_string()
}

/// Text made of the characters of an RFC 3339 time in UTC as `chrono`
/// writes it: digits, the separators `-`, `:`, `T` and `.`, and signs.
pub open spec fn is_rfc3339_stamp(t: Seq<char>) -> bool {
    forall|i: int|
        0 <= i < t.len() ==> {
            let c = #[trigger] t[i];
            ('0' <= c && c <= '9') || c == '-' || c == '+' || c == ':' || c == 'T' || c == '.'
        }
}

/// `chrono::Utc::now()` in RFC 3339 form (`to_rfc3339`, which writes the
/// offset `+00:00`), so every outcome is made of digits, `-`, `+`, `:`,
/// `T` and `.`; which time it is, nothing states.
#[verifier::external_body]
pub(crate) fn utc_now_rfc3339() -> (r: String)
    ensures
        is_rfc3339_stamp(r@),
{
    chrono::Utc::now().to_rfc3339()
}


/// The instant that the RFC 3339 timestamp `text` names, written again by
/// `chrono` in UTC with `to_rfc3339`; none where `text` is no such
/// timestamp.
pub uninterp spec fn rfc3339_as_utc(text: Seq<char>) -> Option<Seq<char>>;

/// `chrono::DateTime::parse_from_rfc3339`, the result moved to UTC
/// (`with_timezone(&Utc)`) and written with `to_rfc3339`.
#[verifier::external_body]
pub(crate) fn parse_rfc3339_utc(text: &str) -> (r: Option<String>)
    ensures
        match r {
            Some(t) => rfc3339_as_utc(text@) == Some(t@),
            None => rfc3339_as_utc(text@) is None,
        },
{
    chrono::DateTime::parse_from_rfc3339(text).ok().map(|dt| dt.with_timezone(&chrono::Utc).to_rfc3339())
}

} // verus!
