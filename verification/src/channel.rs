//! Wait-free publication of voice snapshots from the real-time producer to
//! the presentation consumer.
//!
//! The transport is a triple buffer from an outside crate: the producer owns
//! the writing end, the consumer the reading end, and neither ever waits on
//! the other. The crate's documentation promises that the reader always sees
//! the most recently published complete value and never a partially written
//! one; that promise cannot be restated as a per-call contract over either
//! end alone, so it stands here in the trusted items' comments, and the
//! consumer-side functions of this library are verified for every snapshot
//! that could come out.

use crate::midi::Snapshot;
use vstd::prelude::*;

verus! {

#[verifier::external_type_specification]
#[verifier::external_body]
#[verifier::reject_recursive_types(T)]
pub struct ExInput<T: Send>(triple_buffer::Input<T>);

#[verifier::external_type_specification]
#[verifier::external_body]
#[verifier::reject_recursive_types(T)]
pub struct ExOutput<T: Send>(triple_buffer::Output<T>);

/// The producer's end of the snapshot channel.
pub struct SnapshotWriter {
    input: triple_buffer::Input<Snapshot>,
}

/// The consumer's end of the snapshot channel.
pub struct SnapshotReader {
    output: triple_buffer::Output<Snapshot>,
}

/// Relies on triple_buffer::triple_buffer: it creates a connected
/// single-producer single-consumer channel holding the given initial value,
/// which the reader sees until the first publication.
#[verifier::external_body]
fn raw_channel(initial: Snapshot) -> (r: (SnapshotWriter, SnapshotReader)) {
    let (input, output) = triple_buffer::triple_buffer(&initial);
    (SnapshotWriter { input }, SnapshotReader { output })
}

/// Creates a snapshot channel whose reader sees an empty snapshot until the
/// producer first publishes.
pub fn snapshot_channel() -> (r: (SnapshotWriter, SnapshotReader)) {
    raw_channel(Snapshot::empty())
}

impl SnapshotWriter {
    /// Relies on triple_buffer::Input::write: it moves the value into a back
    /// buffer and atomically exposes it to the reader, without blocking and
    /// without waiting on the reader.
    #[verifier::external_body]
    pub fn publish(&mut self, snapshot: Snapshot) {
        self.input.write(snapshot);
    }
}

impl SnapshotReader {
    /// Relies on triple_buffer::Output::read: it returns the most recently
    /// published complete value, or the initial value before any publication,
    /// without blocking and without ever observing a partial write.
    #[verifier::external_body]
    pub fn latest(&mut self) -> (r: Snapshot) {
        self.output.read().clone()
    }
}

} // verus!
