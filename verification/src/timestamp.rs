//! Points in time as the media hash list writes them, and the time stamp in
//! the list's file name.
//!
//! A point in time is a whole number of seconds since 1970-01-01T00:00:00Z,
//! leap seconds not counted. The calendar arithmetic is that of the `chrono`
//! crate.

use vstd::prelude::*;
use vstd::string::StringExecFns;
use crate::text::{chars_of, spec_text};

verus! {

/// The first second of the common era's year 1970, where the count starts.
pub const UNIX_EPOCH: i64 = 0;

/// The last second of the year 9999: 9999-12-31T23:59:59Z.
pub const END_OF_YEAR_9999: i64 = 253_402_300_799;

/// The time `unix_seconds` after the epoch in UTC, written as in RFC 3339 to
/// the second and with `Z` for the offset, as in `2018-01-26T18:30:09Z`; or
/// nothing where the calendar of `chrono` does not reach.
pub uninterp spec fn rfc3339_utc_seconds(unix_seconds: i64) -> Option<Seq<char>>;

/// `chrono::DateTime::from_timestamp_secs`, then `to_rfc3339_opts` with
/// `SecondsFormat::Secs` and `Z`: the result depends on the count of seconds
/// alone, and there is one for every second from the epoch to the end of the
/// year 9999, which lies well within the years that `chrono` can hold.
#[verifier::external_body]
fn chrono_rfc3339(unix_seconds: i64) -> (text: Option<String>)
    ensures
        spec_text(text) == rfc3339_utc_seconds(unix_seconds),
        UNIX_EPOCH <= unix_seconds <= END_OF_YEAR_9999 ==> text is Some,
{
    match chrono::DateTime::from_timestamp_secs(unix_seconds) {
        Some(time) => Some(time.to_rfc3339_opts(chrono::SecondsFormat::Secs, true)),
        None => None,
    }
}

/// Writes a point in time as the media hash list wants it. There is a result
/// at least for every second from the epoch to the end of the year 9999.
pub fn format_timestamp_rfc3339(unix_seconds: i64) -> (text: Option<String>)
    ensures
        spec_text(text) == rfc3339_utc_seconds(unix_seconds),
        UNIX_EPOCH <= unix_seconds <= END_OF_YEAR_9999 ==> text is Some,
{
    chrono_rfc3339(unix_seconds)
}

/// A time stamp made fit for a file name: colons and the final `Z` go, and
/// the `T` between date and time becomes an underscore. All occurrences are
/// treated alike, wherever they stand.
pub open spec fn spec_file_name_stamp(date: Seq<char>) -> Seq<char>
    decreases date.len(),
{
    if date.len() == 0 {
        Seq::<char>::empty()
    } else {
        let head = spec_file_name_stamp(date.drop_last());
        let c = date.last();
        if c == ':' || c == 'Z' {
            head
        } else if c == 'T' {
            head.push('_')
        } else {
            head.push(c)
        }
    }
}

/// The name of the media hash list of a run: the name of the source
/// directory, an underscore, the stamp of the run's start, and `.mhl`.
pub open spec fn spec_manifest_file_name(source_name: Seq<char>, start_date: Seq<char>) -> Seq<
    char,
> {
    source_name + seq!['_'] + spec_file_name_stamp(start_date) + ".mhl"@
}

/// A time stamp made fit for a file name.
pub fn file_name_stamp(date: &str) -> (stamp: String)
    ensures
        stamp@ == spec_file_name_stamp(date@),
{
    let chars = chars_of(date);
    let mut stamp = String::new();
    let mut i: usize = 0;
    while i < chars.len()
        invariant
            i <= chars.len(),
            chars@ == date@,
            stamp@ == spec_file_name_stamp(chars@.take(i as int)),
        decreases chars.len() - i,
    {
        let c: char = chars[i];
        proof {
            assert(chars@.take(i + 1).drop_last() =~= chars@.take(i as int));
            assert(chars@.take(i + 1).last() == c);
        }
        if c == ':' || c == 'Z' {
        } else if c == 'T' {
            stamp.push('_');
        } else {
            stamp.push(c);
        }
        i += 1;
    }
    assert(chars@.take(chars.len() as int) =~= chars@);
    stamp
}

/// The name of the media hash list of a run.
pub fn manifest_file_name(source_name: &str, start_date: &str) -> (name: String)
    ensures
        name@ == spec_manifest_file_name(source_name@, start_date@),
{
    let mut name = String::from_str(source_name);
    name.push('_');
    let stamp = file_name_stamp(start_date);
    name.append(stamp.as_str());
    name.append(".mhl");
    name
}

} // verus!
