//! What the worker container is started with: its command, the volumes
//! mounted into it, its name and its image.

use vstd::prelude::*;
use crate::text::{chars_of, owned, push_signed_decimal, push_str, signed_decimal, string_of};

verus! {

/// Where the worker finds the volume to take a snapshot of.
pub const SOURCE_DIR: &'static str = "/mnt/source";

/// Where the worker finds the volume that holds the snapshot.
pub const SNAPSHOT_DIR: &'static str = "/mnt/snapshot";

/// Where the worker finds the volume to restore into.
pub const RESTORE_DIR: &'static str = "/mnt/restore";

/// The repository of the worker image.
pub const WORKER_IMAGE: &'static str = "fominv/vsnap";

/// The prefix of the names of worker containers.
pub const WORKER_NAME_PREFIX: &'static str = "vsnap-";

/// A volume mounted into the worker container.
#[derive(Debug)]
pub struct Mount {
    /// The name of the volume.
    pub source: String,
    /// The path at which the worker finds it.
    pub target: String,
    /// Whether the worker may only read it.
    pub read_only: bool,
}

/// A [`Mount`] with its strings as sequences of characters.
pub struct MountView {
    pub source: Seq<char>,
    pub target: Seq<char>,
    pub read_only: bool,
}

impl DeepView for Mount {
    type V = MountView;

    open spec fn deep_view(&self) -> MountView {
        MountView { source: self.source@, target: self.target@, read_only: self.read_only }
    }
}

/// The command of a worker and the volumes mounted for it.
#[derive(Debug)]
pub struct Invocation {
    pub cmd: Vec<String>,
    pub mounts: Vec<Mount>,
}

/// An [`Invocation`] with its strings as sequences of characters.
pub struct InvocationView {
    pub cmd: Seq<Seq<char>>,
    pub mounts: Seq<MountView>,
}

impl DeepView for Invocation {
    type V = InvocationView;

    open spec fn deep_view(&self) -> InvocationView {
        InvocationView { cmd: self.cmd.deep_view(), mounts: self.mounts.deep_view() }
    }
}

/// The invocation that takes a snapshot: the worker reads the source
/// volume, which it cannot change, and writes the snapshot volume.
pub open spec fn snapshot_invocation(source_volume: Seq<char>, snapshot_volume: Seq<char>, compress: bool) -> InvocationView {
    InvocationView {
        cmd: if compress {
            seq!["snapshot"@, SOURCE_DIR@, SNAPSHOT_DIR@, "--compress"@]
        } else {
            seq!["snapshot"@, SOURCE_DIR@, SNAPSHOT_DIR@]
        },
        mounts: seq![
            MountView { source: source_volume, target: SOURCE_DIR@, read_only: true },
            MountView { source: snapshot_volume, target: SNAPSHOT_DIR@, read_only: false },
        ],
    }
}

/// The invocation that restores a snapshot: the worker reads the
/// snapshot volume, which it cannot change, and writes the volume to
/// restore into.
pub open spec fn restore_invocation(snapshot_volume: Seq<char>, restore_volume: Seq<char>) -> InvocationView {
    InvocationView {
        cmd: seq!["restore"@, SNAPSHOT_DIR@, RESTORE_DIR@],
        mounts: seq![
            MountView { source: snapshot_volume, target: SNAPSHOT_DIR@, read_only: true },
            MountView { source: restore_volume, target: RESTORE_DIR@, read_only: false },
        ],
    }
}

/// The invocation of the worker that takes a snapshot of
/// `source_volume_name` into `snapshot_volume_name`.
pub fn snapshot(source_volume_name: &str, snapshot_volume_name: &str, compress: bool) -> (invocation:
    Invocation)
    ensures
        invocation.deep_view() == snapshot_invocation(source_volume_name@, snapshot_volume_name@, compress),
{
    let mut cmd: Vec<String> = Vec::new();
    cmd.push(owned("snapshot"));
    cmd.push(owned(SOURCE_DIR));
    cmd.push(owned(SNAPSHOT_DIR));
    if compress {
        cmd.push(owned("--compress"));
    }
    let mut mounts: Vec<Mount> = Vec::new();
    mounts.push(Mount { source: owned(source_volume_name), target: owned(SOURCE_DIR), read_only: true });
    mounts.push(
        Mount { source: owned(snapshot_volume_name), target: owned(SNAPSHOT_DIR), read_only: false },
    );
    let invocation = Invocation { cmd, mounts };
    proof {
        let want = snapshot_invocation(source_volume_name@, snapshot_volume_name@, compress);
        assert(invocation.cmd.deep_view() =~= want.cmd);
        assert(invocation.mounts.deep_view() =~= want.mounts);
    }
    invocation
}

/// The invocation of the worker that restores the snapshot in
/// `snapshot_volume_name` into `restore_volume_name`.
pub fn restore_snapshot(snapshot_volume_name: &str, restore_volume_name: &str) -> (invocation: Invocation)
    ensures
        invocation.deep_view() == restore_invocation(snapshot_volume_name@, restore_volume_name@),
{
    let mut cmd: Vec<String> = Vec::new();
    cmd.push(owned("restore"));
    cmd.push(owned(SNAPSHOT_DIR));
    cmd.push(owned(RESTORE_DIR));
    let mut mounts: Vec<Mount> = Vec::new();
    mounts.push(
        Mount { source: owned(snapshot_volume_name), target: owned(SNAPSHOT_DIR), read_only: true },
    );
    mounts.push(Mount { source: owned(restore_volume_name), target: owned(RESTORE_DIR), read_only: false });
    let invocation = Invocation { cmd, mounts };
    proof {
        let want = restore_invocation(snapshot_volume_name@, restore_volume_name@);
        assert(invocation.cmd.deep_view() =~= want.cmd);
        assert(invocation.mounts.deep_view() =~= want.mounts);
    }
    invocation
}

/// The name of the worker container of an operation begun at `now`,
/// seconds since the epoch.
pub fn container_name(now: i64) -> (name: String)
    ensures
        name@ == WORKER_NAME_PREFIX@ + signed_decimal(now as int),
{
    let mut out = chars_of(WORKER_NAME_PREFIX);
    push_signed_decimal(&mut out, now);
    string_of(&out)
}

/// The reference of the worker image of this version.
pub fn image_reference(version: &str) -> (image: String)
    ensures
        image@ == WORKER_IMAGE@ + seq![':'] + version@,
{
    let mut out = chars_of(WORKER_IMAGE);
    out.push(':');
    push_str(&mut out, version);
    string_of(&out)
}

} // verus!
