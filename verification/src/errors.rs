//! The fatal failures a transfer run can end with.

use crate::record::SequenceRecord;
use vstd::prelude::*;

verus! {

/// Every way a run aborts. Any of these is fatal: there is no retry and
/// no partial-success mode.
#[derive(Debug)]
pub enum RunError {
    /// An input path whose metadata cannot be read.
    FileNotFound(Option<Vec<u8>>),
    /// An output sink that cannot be created or finished.
    OutputNotWritable(Option<Vec<u8>>),
    /// An output path that already exists and whose overwrite was declined.
    FileExists(Option<Vec<u8>>),
    /// A record identifier that differs from its index-read counterpart.
    ReadIDMismatch,
    /// Serialized output that could not be written to its sink, with the
    /// offending record where one is at hand.
    ReadWriteError(Option<SequenceRecord>),
    /// Input bytes that do not parse as FASTQ records.
    MalformedInput,
}

} // verus!
