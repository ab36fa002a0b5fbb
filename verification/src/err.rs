//! The error kinds of the image builder.

use vstd::prelude::*;

verus! {

/// Everything that can go wrong while an image is configured, laid out
/// or written into.
#[derive(Debug, Clone, Copy, PartialEq, Eq, Structural)]
pub enum BobErr {
    /// A partition description lacks a field or holds a malformed one.
    PartitionParse,
    /// `build` was asked for an image whose size was never configured.
    MissingArgument,
    /// The backing store refused an operation.
    IO,
    /// The image cannot hold the reserved blocks at its front and back.
    ImageTooSmall,
    /// More partitions were asked for than the entry array has slots.
    TooManyPartitions,
    /// A partition name does not fit the 72 bytes an entry has for it.
    PartitionNameTooLong,
    /// No partition carries the name that was looked up.
    NoSuchPartition,
    /// A write would run past the end of the partition.
    PartitionBoundsExceeded,
}

} // verus!
