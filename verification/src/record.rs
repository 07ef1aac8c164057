//! The sequence record: one four-line FASTQ entry in structured form.

use vstd::prelude::*;

verus! {

/// Mathematical image of a [`SequenceRecord`]: every field as a byte sequence.
pub ghost struct RecordView {
    pub id: Seq<u8>,
    pub desc: Option<Seq<u8>>,
    pub bases: Seq<u8>,
    pub qual: Seq<u8>,
}

impl RecordView {
    /// A structurally parsed record carries one quality byte per base.
    pub open spec fn wf(self) -> bool {
        self.bases.len() == self.qual.len()
    }
}

/// One sequencing read: identifier, optional free-text description,
/// base string and quality string.
#[derive(Debug)]
pub struct SequenceRecord {
    pub id: Vec<u8>,
    pub desc: Option<Vec<u8>>,
    pub bases: Vec<u8>,
    pub qual: Vec<u8>,
}

impl View for SequenceRecord {
    type V = RecordView;

    open spec fn view(&self) -> RecordView {
        RecordView {
            id: self.id@,
            desc: match self.desc {
                Some(d) => Some(d@),
                None => None,
            },
            bases: self.bases@,
            qual: self.qual@,
        }
    }
}

/// One parsed input stream, as the original's lazy reader hands it out:
/// the well-formed records in order, and whether the stream ended cleanly.
/// When `clean` is false, pulling the record after the last one listed
/// here surfaced a read error instead.
#[derive(Debug)]
pub struct RecordStream {
    pub records: Vec<SequenceRecord>,
    pub clean: bool,
}

/// The view of an optional byte string.
pub open spec fn opt_view(o: Option<Vec<u8>>) -> Option<Seq<u8>> {
    match o {
        Some(v) => Some(v@),
        None => None,
    }
}

/// The views of a parsed stream, record by record.
pub open spec fn views(s: Seq<SequenceRecord>) -> Seq<RecordView> {
    s.map_values(|r: SequenceRecord| r@)
}

} // verus!
