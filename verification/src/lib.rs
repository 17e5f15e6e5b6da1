//! Snapshots of container volumes, taken and restored by a short-lived
//! worker container: the decisions of the tool on the host and of the
//! worker, with contracts that Verus proves.
//!
//! The library performs no input or output. Its caller talks to the
//! container runtime, the terminal and the disk, and hands what it learns
//! to the library as plain values.
//!
//! On the host:
//! - [`naming`] gives a snapshot's volume its name and reads the name back;
//! - [`discovery`] finds a snapshot's volume among those listed, and checks
//!   that a volume is there and that no container uses it;
//! - [`operation`] decides, request by request, how a snapshot is created,
//!   restored, dropped and listed;
//! - [`worker`] decides, request by request, how the worker container is
//!   run, and sees to it that the container is removed whatever happens;
//! - [`invocation`] says what the worker container is started with;
//! - [`listing`] says what the list of snapshots shows.
//!
//! In the worker:
//! - [`task`] decides, order by order, how a tree is archived into a
//!   snapshot and a snapshot restored into a tree;
//! - [`archive`] counts what there is to move, names the archive's file
//!   and keeps the entries of an archive within the directory that they
//!   are restored into;
//! - [`metadata`] keeps the size of a snapshot beside its archive.
//!
//! Between the two:
//! - [`progress`] counts what the worker has moved, reads the worker's
//!   output line by line and tells the host what to show of it;
//! - [`wire`] writes the progress records and the metadata as bytes, and
//!   reads them token by token.
//!
//! [`error`] names what can go wrong, and [`text`] holds what the rest
//! needs of characters and decimal numerals.
//!
//! Two things are taken on trust and marked where they stand: what
//! `String::push` does, in [`text`], and that `chrono` answers alike for
//! the same number of seconds, in [`naming`].

pub mod archive;
pub mod discovery;
pub mod error;
pub mod invocation;
pub mod listing;
pub mod metadata;
pub mod naming;
pub mod operation;
pub mod progress;
pub mod task;
pub mod text;
pub mod wire;
pub mod worker;
