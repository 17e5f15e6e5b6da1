//! What is kept beside a snapshot's archive: the size of what was
//! archived, so that a restore knows its total from the start.

use vstd::prelude::*;
use crate::wire::{ascii, decode_metadata, encode_metadata, holds, metadata_in, metadata_json};

verus! {

/// The file that holds the metadata, in the snapshot's directory.
pub const SNAPSHOT_METADATA: &'static str = "metadata.json";

/// The metadata of a snapshot.
#[derive(Clone, Copy, PartialEq, Eq, Structural, Debug)]
pub struct SnapshotMetadata {
    /// The number of bytes in the files of the snapshot, before any
    /// compression.
    pub total_size: u64,
}

/// The metadata file could not be understood.
#[derive(Clone, Copy, PartialEq, Eq, Structural, Debug)]
pub struct MalformedMetadata;

impl SnapshotMetadata {
    /// The metadata of a snapshot of `total_size` bytes.
    pub fn new(total_size: u64) -> (metadata: SnapshotMetadata)
        ensures
            metadata.total_size == total_size,
    {
        SnapshotMetadata { total_size }
    }

    /// The content of the metadata file.
    pub fn write(&self) -> (content: Vec<u8>)
        ensures
            content@ == ascii(metadata_json(self.total_size)),
    {
        encode_metadata(self.total_size)
    }

    /// The metadata that the content of a metadata file gives. Content
    /// that was not written for any metadata is an error.
    pub fn read(content: &[u8]) -> (metadata: Result<SnapshotMetadata, MalformedMetadata>)
        ensures
            match metadata {
                Ok(m) => metadata_in(content@) == Some(m.total_size) && holds(content@, m.total_size),
                Err(_) => metadata_in(content@) is None,
            },
    {
        match decode_metadata(content) {
            Some(total_size) => Ok(SnapshotMetadata { total_size }),
            None => Err(MalformedMetadata),
        }
    }
}

} // verus!
