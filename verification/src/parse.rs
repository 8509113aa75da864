//! Text the SQL backends read back: RFC 3339 timestamps (chrono), UUIDs
//! (uuid) and JSON documents (serde_json). Each parser is an outside call
//! whose result is named here; what the stores do with it is verified.

use vstd::prelude::*;

verus! {

/// `chrono::DateTime::parse_from_rfc3339` on this text: the Unix seconds and
/// the nanoseconds within the second of the instant, or the error's text.
pub uninterp spec fn rfc3339_parse(text: Seq<char>) -> Result<(i64, u32), Seq<char>>;

/// `uuid::Uuid::parse_str` on this text: the UUID's 128-bit value, or the
/// error's text.
pub uninterp spec fn uuid_parse(text: Seq<char>) -> Result<u128, Seq<char>>;

/// `serde_json::from_str::<serde_json::Value>` on this text: `None` when it
/// parses, else the error's text.
pub uninterp spec fn json_value_error(text: Seq<char>) -> Option<Seq<char>>;

/// `serde_json::from_str::<Vec<String>>` on this text.
pub uninterp spec fn json_string_list(text: Seq<char>) -> Result<Seq<Seq<char>>, Seq<char>>;

/// `serde_json::to_string` of a list of strings.
pub uninterp spec fn json_string_array_text(items: Seq<Seq<char>>) -> Result<Seq<char>, Seq<char>>;

/// Calls `chrono::DateTime::parse_from_rfc3339` and reads the instant back
/// as Unix seconds and subsecond nanoseconds (`timestamp`,
/// `timestamp_subsec_nanos`), or the error as text. The result is the name
/// `rfc3339_parse` of the input; nothing more is claimed.
#[verifier::external_body]
fn parse_rfc3339_fields(text: &str) -> (r: Result<(i64, u32), String>)
    ensures
        match r {
            Ok(v) => rfc3339_parse(text@) == Ok::<(i64, u32), Seq<char>>(v),
            Err(e) => rfc3339_parse(text@) == Err::<(i64, u32), Seq<char>>(e@),
        },
{
    chrono::DateTime::parse_from_rfc3339(text).map(|d| (d.timestamp(), d.timestamp_subsec_nanos())).map_err(|e| e.to_string())
}

/// Nanoseconds since the Unix epoch of seconds and subsecond nanoseconds.
/// A leap second, whose subsecond nanoseconds reach 1,000,000,000 or more,
/// lands in the second that follows it.
pub open spec fn instant_nanos(secs: i64, nanos: u32) -> i128 {
    (secs * 1_000_000_000 + nanos) as i128
}

/// An RFC 3339 timestamp as nanoseconds since the Unix epoch, or the
/// parser's error text.
pub open spec fn instant_of(text: Seq<char>) -> Result<i128, Seq<char>> {
    match rfc3339_parse(text) {
        Ok((s, n)) => Ok(instant_nanos(s, n)),
        Err(e) => Err(e),
    }
}

pub fn parse_instant(text: &str) -> (r: Result<i128, String>)
    ensures
        match r {
            Ok(t) => instant_of(text@) == Ok::<i128, Seq<char>>(t),
            Err(e) => instant_of(text@) == Err::<i128, Seq<char>>(e@),
        },
{
    match parse_rfc3339_fields(text) {
        Ok((s, n)) => {
            assert(-0x8000_0000_0000_0000 * 1_000_000_000 <= s * 1_000_000_000 <= 0x7fff_ffff_ffff_ffff * 1_000_000_000) by (nonlinear_arith)
                requires
                    -0x8000_0000_0000_0000 <= s <= 0x7fff_ffff_ffff_ffff,
            ;
            let t: i128 = (s as i128) * 1_000_000_000 + (n as i128);
            Ok(t)
        },
        Err(e) => Err(e),
    }
}

/// `chrono::DateTime::<chrono::Utc>::from_timestamp` of these seconds and
/// nanoseconds, written with `to_rfc3339`; `None` when chrono has no such
/// instant.
pub uninterp spec fn rfc3339_format(secs: i64, nanos: u32) -> Option<Seq<char>>;

/// Calls `chrono::DateTime::<chrono::Utc>::from_timestamp` and writes the
/// instant with `to_rfc3339`. The result is the name `rfc3339_format` of the
/// arguments; nothing more is claimed.
#[verifier::external_body]
fn format_rfc3339_fields(secs: i64, nanos: u32) -> (r: Option<String>)
    ensures
        match r {
            Some(t) => rfc3339_format(secs, nanos) == Some(t@),
            None => rfc3339_format(secs, nanos) == None::<Seq<char>>,
        },
{
    chrono::DateTime::<chrono::Utc>::from_timestamp(secs, nanos).map(|d| d.to_rfc3339())
}

/// The RFC 3339 text of an instant given in nanoseconds since the Unix
/// epoch: its whole seconds (rounded down) and the nanoseconds past them.
pub open spec fn instant_text(t: i128) -> Option<Seq<char>> {
    let secs = t / 1_000_000_000;
    if i64::MIN <= secs <= i64::MAX {
        rfc3339_format(secs as i64, (t % 1_000_000_000) as u32)
    } else {
        None
    }
}

/// Writes an instant as RFC 3339 text, as the SQLite tables store it.
pub fn format_instant(t: i128) -> (r: Option<String>)
    ensures
        match r {
            Some(s) => instant_text(t) == Some(s@),
            None => instant_text(t) == None::<Seq<char>>,
        },
{
    let secs: i128;
    let sub: u32;
    if t >= 0 {
        let u: u128 = t as u128;
        let q: u128 = u / 1_000_000_000;
        let m: u128 = u % 1_000_000_000;
        assert(q == t / 1_000_000_000 && m == t % 1_000_000_000);
        secs = q as i128;
        sub = m as u32;
    } else {
        let u: u128 = (-(t + 1)) as u128;
        let q: u128 = u / 1_000_000_000;
        let m: u128 = u % 1_000_000_000;
        assert(u == 1_000_000_000 * q + m && 0 <= m < 1_000_000_000);
        assert(t == 1_000_000_000 * (-(q as int) - 1) + (999_999_999 - m as int));
        assert(-(q as int) - 1 == t / 1_000_000_000 && 999_999_999 - m as int == t % 1_000_000_000) by {
            vstd::arithmetic::div_mod::lemma_fundamental_div_mod_converse(
                t as int,
                1_000_000_000,
                -(q as int) - 1,
                999_999_999 - m as int,
            );
        }
        secs = -(q as i128) - 1;
        sub = (999_999_999 - m) as u32;
    }
    if secs < i64::MIN as i128 || secs > i64::MAX as i128 {
        return None;
    }
    format_rfc3339_fields(secs as i64, sub)
}

/// Calls `uuid::Uuid::parse_str` and reads the UUID back as its 128-bit
/// value (`as_u128`), or the error as text. The result is the name
/// `uuid_parse` of the input; nothing more is claimed.
#[verifier::external_body]
pub(crate) fn parse_uuid(text: &str) -> (r: Result<u128, String>)
    ensures
        match r {
            Ok(v) => uuid_parse(text@) == Ok::<u128, Seq<char>>(v),
            Err(e) => uuid_parse(text@) == Err::<u128, Seq<char>>(e@),
        },
{
    uuid::Uuid::parse_str(text).map(|u| u.as_u128()).map_err(|e| e.to_string())
}

/// Calls `serde_json::from_str::<serde_json::Value>`, keeping only the
/// error's text. The result is the name `json_value_error` of the input.
#[verifier::external_body]
pub(crate) fn check_json(text: &str) -> (r: Option<String>)
    ensures
        match r {
            Some(e) => json_value_error(text@) == Some(e@),
            None => json_value_error(text@) == None::<Seq<char>>,
        },
{
    serde_json::from_str::<serde_json::Value>(text).err().map(|e| e.to_string())
}

/// Calls `serde_json::from_str::<Vec<String>>`. The result is the name
/// `json_string_list` of the input.
#[verifier::external_body]
pub(crate) fn parse_string_list(text: &str) -> (r: Result<Vec<String>, String>)
    ensures
        match r {
            Ok(v) => json_string_list(text@) == Ok::<Seq<Seq<char>>, Seq<char>>(v@.map_values(|s: String| s@)),
            Err(e) => json_string_list(text@) == Err::<Seq<Seq<char>>, Seq<char>>(e@),
        },
{
    serde_json::from_str::<Vec<String>>(text).map_err(|e| e.to_string())
}

/// Calls `serde_json::to_string` on a list of strings. The result is the
/// name `json_string_array_text` of the items.
#[verifier::external_body]
pub(crate) fn string_list_json(items: &Vec<String>) -> (r: Result<String, String>)
    ensures
        match r {
            Ok(t) => json_string_array_text(items@.map_values(|s: String| s@)) == Ok::<Seq<char>, Seq<char>>(t@),
            Err(e) => json_string_array_text(items@.map_values(|s: String| s@)) == Err::<Seq<char>, Seq<char>>(e@),
        },
{
    serde_json::to_string(items).map_err(|e| e.to_string())
}

} // verus!
