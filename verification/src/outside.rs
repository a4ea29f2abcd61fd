//! Small services of other crates: fresh identifiers, time stamps, media types.
use crate::message::Timestamp;
use crate::text;
use vstd::prelude::*;

verus! {

/// Calls `uuid::Uuid::new_v4` and writes the identifier in its hyphenated form,
/// which has 36 characters. Nothing is stated of which identifier it is.
#[verifier::external_body]
pub(crate) fn fresh_id() -> (r: String)
    ensures
        r@.len() == 36,
{
    uuid::Uuid::new_v4().to_string()
}

/// The RFC 3339 text of a point in time in UTC, where chrono can represent it.
pub uninterp spec fn rfc3339_text(secs: i64, nanos: u32) -> Option<Seq<char>>;

/// Calls `chrono::DateTime::to_rfc3339` on the point in time that
/// `chrono::DateTime::from_timestamp` makes of seconds and nanoseconds, which is
/// none where they are out of range. What the text is for a given point in time
/// is not stated.
#[verifier::external_body]
pub(crate) fn rfc3339(secs: i64, nanos: u32) -> (r: Option<String>)
    ensures
        text::opt_text(r) == rfc3339_text(secs, nanos),
{
    chrono::DateTime::<chrono::Utc>::from_timestamp(secs, nanos).map(|t| t.to_rfc3339())
}

/// The text of a time stamp, empty where there is none to write.
pub open spec fn stamp(t: Option<Timestamp>) -> Seq<char> {
    match opt_stamp(t) {
        Some(s) => s,
        None => Seq::empty(),
    }
}

/// The text of a time stamp, where there is one to write.
pub open spec fn opt_stamp(t: Option<Timestamp>) -> Option<Seq<char>> {
    match t {
        Some(t) => rfc3339_text(t.secs, t.nanos),
        None => None,
    }
}

/// Writes a time stamp, where there is one.
pub fn write_opt_stamp(t: &Option<Timestamp>) -> (r: Option<String>)
    ensures
        text::opt_text(r) == opt_stamp(*t),
{
    match t {
        Some(t) => rfc3339(t.secs, t.nanos),
        None => None,
    }
}

/// Writes a time stamp, or nothing.
pub fn write_stamp(t: &Option<Timestamp>) -> (r: String)
    ensures
        r@ == stamp(*t),
{
    match write_opt_stamp(t) {
        Some(s) => s,
        None => String::new(),
    }
}

/// The calendar day of a point in time in UTC, where chrono can represent it.
pub uninterp spec fn day_text(secs: i64) -> Option<Seq<char>>;

/// Calls `chrono::DateTime::format` with `%Y-%m-%d` on the point in time that
/// `chrono::DateTime::from_timestamp` makes of seconds, which is none where they
/// are out of range. What the text is for a given point in time is not stated.
#[verifier::external_body]
pub(crate) fn day(secs: i64) -> (r: Option<String>)
    ensures
        text::opt_text(r) == day_text(secs),
{
    chrono::DateTime::<chrono::Utc>::from_timestamp(secs, 0).map(|t| t.format("%Y-%m-%d").to_string())
}

/// The hyphenated form of an identifier, where uuid reads a text as one.
pub uninterp spec fn uuid_form(s: Seq<char>) -> Option<Seq<char>>;

/// Calls `uuid::Uuid::from_str` and writes the identifier in its hyphenated form.
/// It is none where the text is no identifier. Which texts are identifiers is not
/// stated.
#[verifier::external_body]
pub(crate) fn read_uuid(s: &str) -> (r: Option<String>)
    ensures
        text::opt_text(r) == uuid_form(s@),
{
    s.parse::<uuid::Uuid>().ok().map(|u| u.to_string())
}

/// The media type that mime_guess takes a file to have, by the extension of its
/// path.
pub uninterp spec fn media_type(path: Seq<char>) -> Seq<char>;

/// Calls `mime_guess::from_path` and takes the first guess, or
/// `application/octet-stream` where there is none. Which type belongs to which
/// extension is not stated.
#[verifier::external_body]
pub(crate) fn guess_media_type(path: &str) -> (r: String)
    ensures
        r@ == media_type(path@),
{
    mime_guess::from_path(path).first_or_octet_stream().to_string()
}

/// A time stamp that can be written is, and nothing is written where there is none.
pub proof fn law_time_stamps_are_written(t: Timestamp, s: Seq<char>)
    ensures
        rfc3339_text(t.secs, t.nanos) == Some(s) ==> stamp(Some(t)) == s && opt_stamp(Some(t))
            == Some(s),
        rfc3339_text(t.secs, t.nanos) is None ==> opt_stamp(Some(t)) is None,
        stamp(None).len() == 0 && opt_stamp(None) is None,
{
}

} // verus!
