//! The naming convention that ties a snapshot to its volume: the volume of
//! the snapshot `name`, taken at `timestamp`, is called
//! `<prefix>-<timestamp>-<name>`, and a volume is a snapshot's exactly when
//! its name starts with the prefix, a hyphen, ten or more decimal digits and
//! another hyphen.

use vstd::prelude::*;
use crate::text::{
    all_digits,
    chars_of,
    decimal,
    decimal_value,
    digits_end,
    lemma_decimal_digits,
    lemma_decimal_len,
    lemma_decimal_value,
    lemma_digits_end,
    lemma_digits_end_is_run,
    pow10,
    push_signed_decimal,
    read_decimal,
    scan_digits,
    signed_decimal,
    string_of,
};

verus! {

/// A snapshot: the time it was taken at, in seconds since the epoch, and
/// the name its user gave it.
#[derive(Debug)]
pub struct Snapshot {
    pub timestamp: i64,
    pub name: String,
}

/// The prefix of the names of the volumes that hold snapshots.
pub const SNAPSHOT_PREFIX: &'static str = "vsnap";

/// The least number of digits of the timestamp in a volume's name.
pub const TIMESTAMP_MIN_DIGITS: usize = 10;

/// The name of the volume of the snapshot `name` taken at `timestamp`.
pub open spec fn volume_name(prefix: Seq<char>, timestamp: int, name: Seq<char>) -> Seq<char> {
    prefix + seq!['-'] + signed_decimal(timestamp) + seq!['-'] + name
}

/// Where the timestamp's digits start in a volume name.
pub open spec fn timestamp_start(prefix: Seq<char>) -> int {
    prefix.len() as int + 1
}

/// Where the timestamp's digits end in the volume name `v`.
pub open spec fn timestamp_end(prefix: Seq<char>, v: Seq<char>) -> int {
    digits_end(v, timestamp_start(prefix))
}

/// Whether `v` names the volume of a snapshot.
pub open spec fn is_snapshot_volume(prefix: Seq<char>, v: Seq<char>) -> bool {
    let start = timestamp_start(prefix);
    let end = timestamp_end(prefix, v);
    &&& start <= v.len()
    &&& v.take(start) == prefix.push('-')
    &&& end - start >= TIMESTAMP_MIN_DIGITS
    &&& end < v.len()
    &&& v[end] == '-'
}

/// The digits of the timestamp in the snapshot volume name `v`.
pub open spec fn timestamp_digits(prefix: Seq<char>, v: Seq<char>) -> Seq<char> {
    v.subrange(timestamp_start(prefix), timestamp_end(prefix, v))
}

/// The name of the snapshot whose volume is named `v`.
pub open spec fn snapshot_name(prefix: Seq<char>, v: Seq<char>) -> Seq<char> {
    v.skip(timestamp_end(prefix, v) + 1)
}

/// The convention recognises what it describes: a prefix, a hyphen, ten or
/// more digits, a hyphen and any name make a snapshot volume name, which
/// is taken apart into those digits and that name.
pub proof fn lemma_recognised(prefix: Seq<char>, digits: Seq<char>, name: Seq<char>)
    requires
        all_digits(digits),
        digits.len() >= TIMESTAMP_MIN_DIGITS,
    ensures
        is_snapshot_volume(prefix, prefix + seq!['-'] + digits + seq!['-'] + name),
        timestamp_digits(prefix, prefix + seq!['-'] + digits + seq!['-'] + name) == digits,
        snapshot_name(prefix, prefix + seq!['-'] + digits + seq!['-'] + name) == name,
{
    let v = prefix + seq!['-'] + digits + seq!['-'] + name;
    let start = timestamp_start(prefix);
    let end: int = start + digits.len();
    lemma_digits_end(v, start, end);
    assert(v.take(start) == prefix.push('-'));
}

/// Nothing else is recognised: a snapshot volume name is its prefix, a
/// hyphen, its ten or more timestamp digits, a hyphen and its snapshot's
/// name.
pub proof fn lemma_shape(prefix: Seq<char>, v: Seq<char>)
    requires
        is_snapshot_volume(prefix, v),
    ensures
        v == prefix + seq!['-'] + timestamp_digits(prefix, v) + seq!['-'] + snapshot_name(prefix, v),
        all_digits(timestamp_digits(prefix, v)),
        timestamp_digits(prefix, v).len() >= TIMESTAMP_MIN_DIGITS,
{
    let start = timestamp_start(prefix);
    lemma_digits_end_is_run(v, start);
    let digits = timestamp_digits(prefix, v);
    let whole = prefix + seq!['-'] + digits + seq!['-'] + snapshot_name(prefix, v);
    assert forall|i: int| 0 <= i < v.len() implies v[i] == whole[i] by {
        if i < start {
            assert(v.take(start)[i] == prefix.push('-')[i]);
        }
    }
}

/// Encoding can be undone. The volume name made for a snapshot taken at
/// `timestamp`, a time of ten digits or more, is a snapshot volume name,
/// and gives back the snapshot's name and its timestamp.
pub proof fn lemma_round_trip(prefix: Seq<char>, timestamp: int, name: Seq<char>)
    requires
        timestamp >= 1_000_000_000,
    ensures
        is_snapshot_volume(prefix, volume_name(prefix, timestamp, name)),
        snapshot_name(prefix, volume_name(prefix, timestamp, name)) == name,
        timestamp_digits(prefix, volume_name(prefix, timestamp, name)) == decimal(timestamp as nat),
        decimal_value(timestamp_digits(prefix, volume_name(prefix, timestamp, name))) == timestamp,
{
    let digits = decimal(timestamp as nat);
    lemma_decimal_digits(timestamp as nat);
    lemma_decimal_value(timestamp as nat);
    assert(pow10(9) == 1_000_000_000) by {
        reveal_with_fuel(pow10, 10);
    }
    lemma_decimal_len(timestamp as nat, 9);
    lemma_recognised(prefix, digits, name);
}

/// A time before the year 2001 has fewer than ten digits, and the volume
/// name made for it is not recognised as a snapshot's.
pub proof fn lemma_short_timestamp(prefix: Seq<char>, timestamp: int, name: Seq<char>)
    requires
        timestamp < 1_000_000_000,
    ensures
        !is_snapshot_volume(prefix, volume_name(prefix, timestamp, name)),
{
    let v = volume_name(prefix, timestamp, name);
    let start = timestamp_start(prefix);
    if timestamp >= 0 {
        let digits = decimal(timestamp as nat);
        lemma_decimal_digits(timestamp as nat);
        assert(pow10(9) == 1_000_000_000) by {
            reveal_with_fuel(pow10, 10);
        }
        lemma_decimal_len(timestamp as nat, 9);
        let end: int = start + digits.len();
        lemma_digits_end(v, start, end);
    }
}

/// The name of the volume of the snapshot `name` taken at `timestamp`,
/// under the convention with this prefix.
pub fn encode(prefix: &str, timestamp: i64, name: &str) -> (v: String)
    ensures
        v@ == volume_name(prefix@, timestamp as int, name@),
{
    let mut out = chars_of(prefix);
    out.push('-');
    push_signed_decimal(&mut out, timestamp);
    out.push('-');
    let mut rest = chars_of(name);
    out.append(&mut rest);
    string_of(&out)
}

/// Where the timestamp's digits end in `v`, when `v` names a snapshot
/// volume.
fn recognise(prefix: &Vec<char>, v: &Vec<char>) -> (end: Option<usize>)
    ensures
        end is Some <==> is_snapshot_volume(prefix@, v@),
        end matches Some(e) ==> e == timestamp_end(prefix@, v@) && prefix.len() + 1 + TIMESTAMP_MIN_DIGITS
            <= e < v.len(),
{
    if v.len() <= prefix.len() {
        return None;
    }
    let start = prefix.len() + 1;
    let mut i: usize = 0;
    while i < prefix.len()
        invariant
            i <= prefix.len() < v.len(),
            start == prefix.len() + 1,
            forall|j: int| 0 <= j < i ==> v@[j] == prefix@[j],
        decreases prefix.len() - i,
    {
        if v[i] != prefix[i] {
            proof {
                assert(v@.take(start as int)[i as int] != prefix@.push('-')[i as int]);
            }
            return None;
        }
        i += 1;
    }
    if v[prefix.len()] != '-' {
        proof {
            assert(v@.take(start as int)[prefix.len() as int] != prefix@.push('-')[prefix.len() as int]);
        }
        return None;
    }
    assert(v@.take(start as int) =~= prefix@.push('-'));
    let end = scan_digits(v, start);
    if end - start < TIMESTAMP_MIN_DIGITS || end >= v.len() || v[end] != '-' {
        return None;
    }
    Some(end)
}

/// Whether `volume_name` names the volume of a snapshot, under the
/// convention with this prefix.
pub fn recognises(prefix: &str, volume_name: &str) -> (matched: bool)
    ensures
        matched == is_snapshot_volume(prefix@, volume_name@),
{
    let p = chars_of(prefix);
    let v = chars_of(volume_name);
    recognise(&p, &v).is_some()
}

fn name_after(v: &Vec<char>, end: usize) -> (name: String)
    requires
        end < v.len(),
    ensures
        name@ == v@.skip(end + 1),
{
    let mut rest: Vec<char> = Vec::new();
    let mut i: usize = end + 1;
    while i < v.len()
        invariant
            end + 1 <= i <= v.len(),
            rest@ == v@.subrange(end + 1, i as int),
        decreases v.len() - i,
    {
        rest.push(v[i]);
        i += 1;
    }
    string_of(&rest)
}

/// The snapshot's name in `volume_name`: what follows the prefix and
/// the timestamp. A name that is not a snapshot volume's holds none.
pub fn strip(prefix: &str, volume_name: &str) -> (name: Option<String>)
    ensures
        name is Some <==> is_snapshot_volume(prefix@, volume_name@),
        name matches Some(n) ==> n@ == snapshot_name(prefix@, volume_name@),
{
    let p = chars_of(prefix);
    let v = chars_of(volume_name);
    match recognise(&p, &v) {
        Some(end) => Some(name_after(&v, end)),
        None => None,
    }
}

/// The timestamp that a volume name holds.
pub open spec fn timestamp_of(prefix: Seq<char>, v: Seq<char>) -> nat {
    decimal_value(timestamp_digits(prefix, v))
}

/// Why a volume name gives no time.
#[derive(Clone, Copy, PartialEq, Eq, Structural, Debug)]
pub enum TimestampError {
    /// The name is not a snapshot volume's.
    NotASnapshot,
    /// The digits spell a number of seconds too large to hold.
    TooLarge,
    /// The number of seconds is no time of the calendar.
    OutOfRange,
}

/// The time that a snapshot volume name holds, in seconds since the
/// epoch, before the calendar is asked.
pub open spec fn timestamp_in(prefix: Seq<char>, v: Seq<char>) -> Result<i64, TimestampError> {
    if !is_snapshot_volume(prefix, v) {
        Err(TimestampError::NotASnapshot)
    } else if timestamp_of(prefix, v) > i64::MAX {
        Err(TimestampError::TooLarge)
    } else {
        Ok(timestamp_of(prefix, v) as i64)
    }
}

fn read_timestamp(prefix: &Vec<char>, v: &Vec<char>) -> (seconds: Result<i64, TimestampError>)
    ensures
        seconds == timestamp_in(prefix@, v@),
{
    proof {
        if prefix.len() < v.len() {
            lemma_digits_end_is_run(v@, timestamp_start(prefix@));
        }
    }
    match recognise(prefix, v) {
        Some(end) => match read_decimal(v, prefix.len() + 1, end) {
            Some(t) => if t <= i64::MAX as u64 {
                Ok(t as i64)
            } else {
                Err(TimestampError::TooLarge)
            },
            None => Err(TimestampError::TooLarge),
        },
        None => Err(TimestampError::NotASnapshot),
    }
}

/// The snapshot that `volume_name` was made for: `None` when it names no
/// snapshot volume, or when its digits spell a time too large to hold.
pub fn decode(prefix: &str, volume_name: &str) -> (snapshot: Option<Snapshot>)
    ensures
        snapshot is Some <==> is_snapshot_volume(prefix@, volume_name@) && timestamp_of(
            prefix@,
            volume_name@,
        ) <= i64::MAX,
        snapshot matches Some(s) ==> s.timestamp == timestamp_of(prefix@, volume_name@) && s.name@
            == snapshot_name(prefix@, volume_name@),
{
    let p = chars_of(prefix);
    let v = chars_of(volume_name);
    match (read_timestamp(&p, &v), recognise(&p, &v)) {
        (Ok(timestamp), Some(end)) => Some(Snapshot { timestamp, name: name_after(&v, end) }),
        _ => None,
    }
}

impl Snapshot {
    /// The name of the volume that holds this snapshot.
    pub fn to_volume_name(&self) -> (v: String)
        ensures
            v@ == volume_name(SNAPSHOT_PREFIX@, self.timestamp as int, self.name@),
    {
        encode(SNAPSHOT_PREFIX, self.timestamp, self.name.as_str())
    }
}

/// The name of the volume that holds the snapshot `name` taken at
/// `timestamp`.
pub fn get_snapshot_volume_name(timestamp: i64, name: &str) -> (v: String)
    ensures
        v@ == volume_name(SNAPSHOT_PREFIX@, timestamp as int, name@),
{
    encode(SNAPSHOT_PREFIX, timestamp, name)
}

/// Whether `volume_name` names the volume of a snapshot.
pub fn is_snapshot_volume_name(volume_name: &str) -> (matched: bool)
    ensures
        matched == is_snapshot_volume(SNAPSHOT_PREFIX@, volume_name@),
{
    recognises(SNAPSHOT_PREFIX, volume_name)
}

/// The snapshot's name in `volume_name`: what follows the prefix and
/// the timestamp. A name that is not a snapshot volume's holds none.
pub fn strip_snapshot_prefix(volume_name: &str) -> (name: Option<String>)
    ensures
        name is Some <==> is_snapshot_volume(SNAPSHOT_PREFIX@, volume_name@),
        name matches Some(n) ==> n@ == snapshot_name(SNAPSHOT_PREFIX@, volume_name@),
{
    strip(SNAPSHOT_PREFIX, volume_name)
}

/// The time that `volume_name` holds, in seconds since the epoch.
pub fn extract_snapshot_timestamp(volume_name: &str) -> (seconds: Result<i64, TimestampError>)
    ensures
        seconds == timestamp_in(SNAPSHOT_PREFIX@, volume_name@),
{
    read_timestamp(&chars_of(SNAPSHOT_PREFIX), &chars_of(volume_name))
}

/// Whether `chrono` has a date and time for this number of seconds since
/// the epoch: whether `chrono::DateTime::from_timestamp`, called with the
/// seconds and no nanoseconds, returns a value.
pub uninterp spec fn calendar_holds(seconds: int) -> bool;

/// Asks `chrono::DateTime::from_timestamp` for the date and time of
/// `seconds`, with no nanoseconds, and tells whether it returned one. The
/// call computes on its argument alone and does not panic; which seconds
/// it accepts is left to `chrono`.
#[verifier::external_body]
fn calendar_has(seconds: i64) -> (held: bool)
    ensures
        held == calendar_holds(seconds as int),
{
    chrono::DateTime::from_timestamp(seconds, 0).is_some()
}

/// The time of a snapshot, once the calendar has been asked: the seconds
/// when it holds them, and an error when it does not.
pub fn checked_datetime(seconds: i64, held: bool) -> (datetime: Result<i64, TimestampError>)
    ensures
        datetime == if held {
            Ok::<i64, TimestampError>(seconds)
        } else {
            Err::<i64, TimestampError>(TimestampError::OutOfRange)
        },
{
    if held {
        Ok(seconds)
    } else {
        Err(TimestampError::OutOfRange)
    }
}

/// The time at which the snapshot in `volume_name` was taken, in seconds
/// since the epoch: a time that the calendar holds.
pub fn extract_snapshot_datetime(volume_name: &str) -> (datetime: Result<i64, TimestampError>)
    ensures
        datetime == match timestamp_in(SNAPSHOT_PREFIX@, volume_name@) {
            Ok(seconds) => if calendar_holds(seconds as int) {
                Ok::<i64, TimestampError>(seconds)
            } else {
                Err::<i64, TimestampError>(TimestampError::OutOfRange)
            },
            Err(e) => Err::<i64, TimestampError>(e),
        },
{
    match extract_snapshot_timestamp(volume_name) {
        Ok(seconds) => checked_datetime(seconds, calendar_has(seconds)),
        Err(e) => Err(e),
    }
}

} // verus!
