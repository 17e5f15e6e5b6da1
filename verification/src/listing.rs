//! What the list of snapshots shows of each: the snapshot's name, the
//! time it was taken at, its size where sizes are shown, and its volume.

use vstd::prelude::*;
use crate::discovery::VolumeSize;
use crate::naming::{
    calendar_holds,
    extract_snapshot_datetime,
    strip_snapshot_prefix,
    snapshot_name,
    timestamp_in,
    TimestampError,
    SNAPSHOT_PREFIX,
};
use crate::text::{owned, push_decimal, push_str, signed_decimal, string_of};

verus! {

/// The number of bytes in the unit that sizes are shown in.
pub const MEBIBYTE: u64 = 1048576;

/// What is shown in place of a size that is not known.
pub const UNAVAILABLE: &'static str = "Unavailable";

/// One line of the list of snapshots.
#[derive(Debug)]
pub struct SnapshotRow {
    /// The snapshot's name.
    pub snapshot_name: String,
    /// When the snapshot was taken, in seconds since the epoch.
    pub timestamp: i64,
    /// The snapshot's size in words, where sizes are shown.
    pub size: Option<String>,
    /// The name of the snapshot's volume.
    pub volume_name: String,
}

/// A [`SnapshotRow`] with its strings as sequences of characters.
pub struct SnapshotRowView {
    pub snapshot_name: Seq<char>,
    pub timestamp: i64,
    pub size: Option<Seq<char>>,
    pub volume_name: Seq<char>,
}

impl DeepView for SnapshotRow {
    type V = SnapshotRowView;

    open spec fn deep_view(&self) -> SnapshotRowView {
        SnapshotRowView {
            snapshot_name: self.snapshot_name@,
            timestamp: self.timestamp,
            size: match self.size {
                Some(s) => Some(s@),
                None => None,
            },
            volume_name: self.volume_name@,
        }
    }
}

/// A number of bytes in whole mebibytes, rounded towards zero.
pub open spec fn mebibytes(bytes: int) -> int {
    if bytes >= 0 {
        bytes / (MEBIBYTE as int)
    } else {
        -((-bytes) / (MEBIBYTE as int))
    }
}

/// A size in words: its whole mebibytes when it is known.
pub open spec fn size_text(size: Option<VolumeSize>) -> Seq<char> {
    match size {
        Some(VolumeSize::Bytes(bytes)) => signed_decimal(mebibytes(bytes as int)) + " MB"@,
        _ => UNAVAILABLE@,
    }
}

/// The time that a snapshot volume name holds, as the calendar knows
/// it.
pub open spec fn datetime_in(v: Seq<char>) -> Result<i64, TimestampError> {
    match timestamp_in(SNAPSHOT_PREFIX@, v) {
        Ok(seconds) => if calendar_holds(seconds as int) {
            Ok(seconds)
        } else {
            Err(TimestampError::OutOfRange)
        },
        Err(e) => Err(e),
    }
}

/// The line for the volume `v`, with its size where `size` is given.
pub open spec fn row_of(v: Seq<char>, size: Option<Option<VolumeSize>>) -> Result<
    SnapshotRowView,
    TimestampError,
> {
    match datetime_in(v) {
        Ok(timestamp) => Ok(
            SnapshotRowView {
                snapshot_name: snapshot_name(SNAPSHOT_PREFIX@, v),
                timestamp,
                size: match size {
                    Some(s) => Some(size_text(s)),
                    None => None,
                },
                volume_name: v,
            },
        ),
        Err(e) => Err(e),
    }
}

/// The headings of the list, with one for the sizes where they are
/// shown.
pub open spec fn header_of(with_sizes: bool) -> Seq<Seq<char>> {
    if with_sizes {
        seq!["Snapshot Name"@, "Local Datetime"@, "Size"@, "Volume Name"@]
    } else {
        seq!["Snapshot Name"@, "Local Datetime"@, "Volume Name"@]
    }
}

/// The headings of the list.
pub fn table_header(with_sizes: bool) -> (header: Vec<String>)
    ensures
        header.deep_view() == header_of(with_sizes),
{
    let mut header: Vec<String> = Vec::new();
    header.push(owned("Snapshot Name"));
    header.push(owned("Local Datetime"));
    if with_sizes {
        header.push(owned("Size"));
    }
    header.push(owned("Volume Name"));
    header
}

/// A size in words.
pub fn describe_size(size: Option<VolumeSize>) -> (text: String)
    ensures
        text@ == size_text(size),
{
    match size {
        Some(VolumeSize::Bytes(bytes)) => {
            let mut out: Vec<char> = Vec::new();
            if bytes >= 0 {
                push_decimal(&mut out, bytes as u64 / MEBIBYTE);
            } else {
                let magnitude: u64 = if bytes == i64::MIN {
                    9223372036854775808u64
                } else {
                    (-bytes) as u64
                };
                let whole = magnitude / MEBIBYTE;
                if whole > 0 {
                    out.push('-');
                }
                push_decimal(&mut out, whole);
            }
            push_str(&mut out, " MB");
            string_of(&out)
        },
        _ => owned(UNAVAILABLE),
    }
}

/// The line of the list for the volume `volume_name`, with its size
/// where `size` is given. A volume name that holds no time of the
/// calendar has no line.
pub fn snapshot_row(volume_name: &str, size: Option<Option<VolumeSize>>) -> (row: Result<
    SnapshotRow,
    TimestampError,
>)
    ensures
        match row {
            Ok(r) => row_of(volume_name@, size) == Ok::<SnapshotRowView, TimestampError>(r.deep_view()),
            Err(e) => row_of(volume_name@, size) == Err::<SnapshotRowView, TimestampError>(e),
        },
{
    match strip_snapshot_prefix(volume_name) {
        Some(snapshot_name) => match extract_snapshot_datetime(volume_name) {
            Ok(timestamp) => Ok(
                SnapshotRow {
                    snapshot_name,
                    timestamp,
                    size: match size {
                        Some(s) => Some(describe_size(s)),
                        None => None,
                    },
                    volume_name: owned(volume_name),
                },
            ),
            Err(e) => Err(e),
        },
        None => Err(TimestampError::NotASnapshot),
    }
}

} // verus!
