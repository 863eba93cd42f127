//! One grid cell and the reading of its record: which bytes to fetch from
//! the container, in what order, and what they come to.

use crate::inflate::{inflate_zlib, zlib_inflated};
use crate::bytes::be24_at;
use crate::layout::{
    declared_length, declared_length_of, entry_is_vacant, entry_offset, entry_offset_of,
    entry_vacant, record_offset, record_offset_of, ENTRY_BYTES, HEADER_BYTES, SECTOR_BYTES,
};
use crate::tree::{decoded_time, inhabited_time};
use crate::verdict::{Failure, Notice, Verdict};
use vstd::prelude::*;
use vstd::slice::slice_subrange;

verus! {

/// A grid cell, with the threshold its inhabited time is held against.
#[derive(Clone, Copy, Debug, PartialEq, Eq, Structural)]
pub struct Chunk {
    /// The cell's place along the first axis.
    pub x: i32,
    /// The cell's place along the second axis.
    pub z: i32,
    /// The threshold: a cell inhabited for less has its container removed.
    pub limit: usize,
}

/// What the bytes of a pending read are, once they arrive.
#[derive(Clone, Copy, Debug, PartialEq, Eq, Structural)]
pub enum Stage {
    /// The cell's directory entry.
    Entry,
    /// The header of the record that starts at the given sector.
    Header { sector: u32 },
    /// A payload of the given length.
    Payload { length: u32 },
}

/// What is to be done next with a container.
#[derive(Clone, Copy, Debug, PartialEq, Eq)]
pub enum Step {
    /// Read exactly `length` bytes at byte `offset` and hand them to
    /// `Chunk::advance` along with `stage`.
    Read { stage: Stage, offset: u64, length: u64 },
    /// Nothing more is to be read: this is how the record came out.
    Done(Result<Verdict, Failure>),
}

impl Stage {
    /// How many bytes the stage waits for.
    pub open spec fn wanted(self) -> int {
        match self {
            Stage::Entry => 4,
            Stage::Header { .. } => 5,
            Stage::Payload { length } => length as int,
        }
    }
}

impl Step {
    /// How many reads can still follow the step.
    pub open spec fn reads_left(self) -> nat {
        match self {
            Step::Done(_) => 0,
            Step::Read { stage: Stage::Payload { .. }, .. } => 1,
            Step::Read { stage: Stage::Header { .. }, .. } => 2,
            Step::Read { stage: Stage::Entry, .. } => 3,
        }
    }
}

/// The bytes that a read of `length` bytes at `offset` delivers from a
/// container that holds `region`: `None` where they are not all there.
pub open spec fn fetched(region: Seq<u8>, offset: int, length: int) -> Option<Seq<u8>> {
    if 0 <= offset && 0 <= length && offset + length <= region.len() {
        Some(region.subrange(offset, offset + length))
    } else {
        None
    }
}

/// What the bytes handed to `Chunk::advance` stand for.
pub open spec fn reply_of(reply: Option<&[u8]>) -> Option<Seq<u8>> {
    match reply {
        Some(bytes) => Some(bytes@),
        None => None,
    }
}

impl Chunk {
    /// The retention rule: a cell that records a time strictly below the
    /// threshold has its container removed; any other is kept.
    pub open spec fn judgement(self, time: Option<i64>) -> Verdict {
        match time {
            Some(t) => if (t as int) < (self.limit as int) {
                Verdict::Delete(t)
            } else {
                Verdict::Keep
            },
            None => Verdict::Keep,
        }
    }

    /// What is told of the cell for a given outcome: a removal names the
    /// cell and the time, a failure names the cell, anything else is passed
    /// over in silence.
    pub open spec fn notice_of(self, outcome: Result<Verdict, Failure>) -> Notice {
        match outcome {
            Ok(Verdict::Delete(time)) => Notice::Removed { x: self.x, z: self.z, time },
            Ok(_) => Notice::Quiet,
            Err(failure) => Notice::Failed { x: self.x, z: self.z, failure },
        }
    }

    /// What the inflated bytes of a record come to.
    pub open spec fn time_outcome(self, data: Seq<u8>) -> Result<Verdict, Failure> {
        match decoded_time(data) {
            Ok(time) => Ok(self.judgement(time)),
            Err(failure) => Err(failure),
        }
    }

    /// What the payload of a record comes to.
    pub open spec fn payload_outcome(self, payload: Seq<u8>) -> Result<Verdict, Failure> {
        match zlib_inflated(payload) {
            Some(data) => self.time_outcome(data),
            None => Err(Failure::Inflate),
        }
    }

    /// The first step: read the cell's directory entry.
    pub open spec fn first_step(self) -> Step {
        Step::Read {
            stage: Stage::Entry,
            offset: entry_offset_of(self.x as int, self.z as int) as u64,
            length: ENTRY_BYTES,
        }
    }

    /// The step that follows when the read of `stage` delivered `reply`, or
    /// failed (`None`).
    pub open spec fn next_step(self, stage: Stage, reply: Option<Seq<u8>>) -> Step {
        match reply {
            None => Step::Done(Err(Failure::Unreadable)),
            Some(bytes) => if bytes.len() != stage.wanted() {
                Step::Done(Err(Failure::Unreadable))
            } else {
                match stage {
                    Stage::Entry => if entry_is_vacant(bytes) {
                        Step::Done(Ok(Verdict::Absent))
                    } else {
                        Step::Read {
                            stage: Stage::Header { sector: be24_at(bytes, 0) as u32 },
                            offset: record_offset_of(bytes) as u64,
                            length: HEADER_BYTES,
                        }
                    },
                    Stage::Header { sector } => if declared_length_of(bytes) == 0 {
                        Step::Done(Err(Failure::Underflow))
                    } else {
                        Step::Read {
                            stage: Stage::Payload { length: (declared_length_of(bytes) - 1) as u32 },
                            offset: (sector * SECTOR_BYTES + HEADER_BYTES) as u64,
                            length: (declared_length_of(bytes) - 1) as u64,
                        }
                    },
                    Stage::Payload { .. } => Step::Done(self.payload_outcome(bytes)),
                }
            },
        }
    }

    /// What following the steps from `step` on comes to, each read served
    /// from `region`.
    pub open spec fn run_from(self, region: Seq<u8>, step: Step) -> Result<Verdict, Failure>
        decreases step.reads_left(),
    {
        match step {
            Step::Done(result) => result,
            Step::Read { stage, offset, length } => {
                self.run_from(
                    region,
                    self.next_step(stage, fetched(region, offset as int, length as int)),
                )
            },
        }
    }

    /// What the record of the cell comes to in a container that holds
    /// `region`, said directly: the directory entry at the cell's place,
    /// the header at the sector it names, the payload behind the header.
    pub open spec fn outcome(self, region: Seq<u8>) -> Result<Verdict, Failure> {
        let at = entry_offset_of(self.x as int, self.z as int);
        if region.len() < at + 4 {
            Err(Failure::Unreadable)
        } else if entry_is_vacant(region.subrange(at, at + 4)) {
            Ok(Verdict::Absent)
        } else {
            let start = record_offset_of(region.subrange(at, at + 4));
            if region.len() < start + 5 {
                Err(Failure::Unreadable)
            } else {
                let declared = declared_length_of(region.subrange(start, start + 5));
                if declared == 0 {
                    Err(Failure::Underflow)
                } else if region.len() < start + 5 + (declared - 1) {
                    Err(Failure::Unreadable)
                } else {
                    self.payload_outcome(region.subrange(start + 5, start + 5 + (declared - 1)))
                }
            }
        }
    }

    /// Following the steps over a container comes to what `outcome` says of
    /// it.
    pub proof fn lemma_run_is_outcome(self, region: Seq<u8>)
        ensures
            self.run_from(region, self.first_step()) == self.outcome(region),
    {
        reveal_with_fuel(Chunk::run_from, 4);
    }

    /// The cell `(x, z)`, held against the threshold `limit`.
    pub fn new(x: i32, z: i32, limit: usize) -> (chunk: Chunk)
        ensures
            chunk.x == x,
            chunk.z == z,
            chunk.limit == limit,
    {
        Chunk { x, z, limit }
    }

    /// Applies the retention rule to the time a record reports.
    pub fn judge(&self, time: Option<i64>) -> (verdict: Verdict)
        ensures
            verdict == self.judgement(time),
    {
        match time {
            Some(t) => {
                if t < 0 || (t as u64) < (self.limit as u64) {
                    Verdict::Delete(t)
                } else {
                    Verdict::Keep
                }
            },
            None => Verdict::Keep,
        }
    }

    /// Says what is to be told of the cell once its record came out as
    /// `outcome`.
    pub fn notice(&self, outcome: Result<Verdict, Failure>) -> (notice: Notice)
        ensures
            notice == self.notice_of(outcome),
    {
        match outcome {
            Ok(Verdict::Delete(time)) => Notice::Removed { x: self.x, z: self.z, time },
            Ok(_) => Notice::Quiet,
            Err(failure) => Notice::Failed { x: self.x, z: self.z, failure },
        }
    }

    /// Judges the inflated bytes of a record: decodes the tag tree in them
    /// and applies the retention rule to the time it records.
    pub fn check_time(&self, data: &[u8]) -> (r: Result<Verdict, Failure>)
        ensures
            r == self.time_outcome(data@),
    {
        match inhabited_time(data) {
            Ok(time) => Ok(self.judge(time)),
            Err(failure) => Err(failure),
        }
    }

    /// Judges the payload of a record: inflates it and judges the result.
    pub fn check_payload(&self, payload: &[u8]) -> (r: Result<Verdict, Failure>)
        ensures
            r == self.payload_outcome(payload@),
    {
        match inflate_zlib(payload) {
            Ok(data) => self.check_time(data.as_slice()),
            Err(_) => Err(Failure::Inflate),
        }
    }

    /// Names the first read: the cell's directory entry.
    pub fn start(&self) -> (step: Step)
        ensures
            step == self.first_step(),
    {
        Step::Read { stage: Stage::Entry, offset: entry_offset(self.x, self.z), length: ENTRY_BYTES }
    }

    /// Takes the outcome of the read that `stage` stands for, the bytes or
    /// `None` where the read failed, and names the step that follows.
    pub fn advance(&self, stage: Stage, reply: Option<&[u8]>) -> (step: Step)
        ensures
            step == self.next_step(stage, reply_of(reply)),
    {
        let bytes: &[u8] = match reply {
            Some(bytes) => bytes,
            None => {
                return Step::Done(Err(Failure::Unreadable));
            },
        };
        match stage {
            Stage::Entry => {
                if bytes.len() != 4 {
                    return Step::Done(Err(Failure::Unreadable));
                }
                let entry: [u8; 4] = [bytes[0], bytes[1], bytes[2], bytes[3]];
                if entry_vacant(&entry) {
                    Step::Done(Ok(Verdict::Absent))
                } else {
                    let offset: u64 = record_offset(&entry);
                    Step::Read {
                        stage: Stage::Header { sector: (offset / SECTOR_BYTES) as u32 },
                        offset,
                        length: HEADER_BYTES,
                    }
                }
            },
            Stage::Header { sector } => {
                if bytes.len() != 5 {
                    return Step::Done(Err(Failure::Unreadable));
                }
                let header: [u8; 5] = [bytes[0], bytes[1], bytes[2], bytes[3], bytes[4]];
                let declared: u32 = declared_length(&header);
                if declared == 0 {
                    Step::Done(Err(Failure::Underflow))
                } else {
                    Step::Read {
                        stage: Stage::Payload { length: declared - 1 },
                        offset: sector as u64 * SECTOR_BYTES + HEADER_BYTES,
                        length: (declared - 1) as u64,
                    }
                }
            },
            Stage::Payload { length } => {
                if bytes.len() as u64 != length as u64 {
                    Step::Done(Err(Failure::Unreadable))
                } else {
                    Step::Done(self.check_payload(bytes))
                }
            },
        }
    }

    /// Reads the cell's record out of a container held in memory and judges
    /// it.
    pub fn load_data_and_decode(&self, region: &[u8]) -> (r: Result<Verdict, Failure>)
        ensures
            r == self.outcome(region@),
    {
        let mut step: Step = self.start();
        proof {
            self.lemma_run_is_outcome(region@);
        }
        loop
            invariant
                self.run_from(region@, step) == self.outcome(region@),
            decreases step.reads_left(),
        {
            match step {
                Step::Done(result) => {
                    return result;
                },
                Step::Read { stage, offset, length } => {
                    let reply = fetch(region, offset, length);
                    step = self.advance(stage, reply);
                },
            }
        }
    }
}

/// Serves a read of `length` bytes at `offset` from a container held in
/// memory.
pub fn fetch<'a>(region: &'a [u8], offset: u64, length: u64) -> (r: Option<&'a [u8]>)
    ensures
        reply_of(r) == fetched(region@, offset as int, length as int),
{
    let size: usize = region.len();
    if offset <= size as u64 && length <= size as u64 - offset {
        Some(slice_subrange(region, offset as usize, (offset + length) as usize))
    } else {
        None
    }
}

} // verus!
