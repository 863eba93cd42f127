//! What inspecting one record can come to.

use vstd::prelude::*;

verus! {

/// What is to become of a container after one of its records was read.
#[derive(Clone, Copy, Debug, PartialEq, Eq, Structural)]
pub enum Verdict {
    /// The directory names no record for the cell: nothing was inspected.
    Absent,
    /// The record gives no reason to remove the container.
    Keep,
    /// The cell was inhabited for the given time, which is below the
    /// threshold: the container is to be removed.
    Delete(i64),
}

/// Why a record could not be judged.
#[derive(Clone, Copy, Debug, PartialEq, Eq, Structural)]
pub enum Failure {
    /// Bytes that the layout announces could not be read.
    Unreadable,
    /// The record header declares a length of zero, which leaves no room
    /// for the method byte it counts.
    Underflow,
    /// The payload does not inflate.
    Inflate,
    /// The inflated payload is no tag tree.
    Malformed,
}

/// What is to be told of a cell once its record has been dealt with.
#[derive(Clone, Copy, Debug, PartialEq, Eq, Structural)]
pub enum Notice {
    /// Nothing: the cell has no record, or its container is kept.
    Quiet,
    /// The container of cell `(x, z)` was removed; its record reported the
    /// given time.
    Removed { x: i32, z: i32, time: i64 },
    /// The record of cell `(x, z)` could not be judged.
    Failed { x: i32, z: i32, failure: Failure },
}

impl Failure {
    /// Whether the container itself is at fault (it cannot be read, or a
    /// header is broken) rather than the contents of one record.
    pub open spec fn is_fatal(self) -> bool {
        self == Failure::Unreadable || self == Failure::Underflow
    }

    /// Tells whether the container itself is at fault rather than the
    /// contents of one record.
    pub fn fatal(&self) -> (r: bool)
        ensures
            r == self.is_fatal(),
    {
        match self {
            Failure::Unreadable => true,
            Failure::Underflow => true,
            Failure::Inflate => false,
            Failure::Malformed => false,
        }
    }
}

impl Verdict {
    /// Whether the verdict asks for the container to be removed.
    pub open spec fn is_removal(self) -> bool {
        self is Delete
    }

    /// Tells whether the verdict asks for the container to be removed.
    pub fn removes(&self) -> (r: bool)
        ensures
            r == self.is_removal(),
    {
        match self {
            Verdict::Delete(_) => true,
            _ => false,
        }
    }
}

} // verus!
