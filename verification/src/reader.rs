//! The format-sniffing reader: classifies an input byte stream by its
//! leading magic bytes, decodes it if compressed, and parses its records.

use crate::errors::RunError;
use crate::fastq::{parse_fastq, spec_parse_clean, spec_parse_prefix};
use crate::gzip::{gunzip_of, gzip_decompress};
use crate::record::{views, RecordStream, RecordView};
use vstd::prelude::*;

verus! {

/// True when the byte string begins with the two-byte gzip magic number.
pub open spec fn spec_is_gzip(bytes: Seq<u8>) -> bool {
    bytes.len() >= 2 && bytes[0] == 0x1fu8 && bytes[1] == 0x8bu8
}

/// An input stream, classified once at acceptance: plain FASTQ text, or a
/// gzip stream whose content is FASTQ text.
pub enum ReadFile {
    Fastq(Vec<u8>),
    Gzip(Vec<u8>),
}

impl ReadFile {
    /// The stream's bytes as they came in.
    pub open spec fn raw(self) -> Seq<u8> {
        match self {
            ReadFile::Fastq(b) => b@,
            ReadFile::Gzip(b) => b@,
        }
    }

    /// The stream's plain text: the bytes themselves, or the decoded gzip
    /// content.
    pub open spec fn spec_text(self) -> Option<Seq<u8>> {
        match self {
            ReadFile::Fastq(b) => Some(b@),
            ReadFile::Gzip(b) => gunzip_of(b@),
        }
    }

    /// Classifies input bytes by the gzip magic number — never by a file
    /// name.
    pub fn sniff(bytes: Vec<u8>) -> (r: ReadFile)
        ensures
            r.raw() == bytes@,
            r is Gzip <==> spec_is_gzip(bytes@),
    {
        if bytes.len() >= 2 && bytes[0] == 0x1f && bytes[1] == 0x8b {
            ReadFile::Gzip(bytes)
        } else {
            ReadFile::Fastq(bytes)
        }
    }

    /// Decodes the stream to plain text; fails only on a gzip stream that
    /// does not decode.
    pub fn decode(self) -> (r: Result<Vec<u8>, RunError>)
        ensures
            r matches Ok(v) ==> self.spec_text() == Some(v@),
            r is Err ==> self.spec_text() is None,
            r matches Err(e) ==> e == RunError::MalformedInput,
    {
        match self {
            ReadFile::Fastq(b) => Ok(b),
            ReadFile::Gzip(b) => match gzip_decompress(&b) {
                Ok(v) => Ok(v),
                Err(_) => Err(RunError::MalformedInput),
            },
        }
    }
}

/// The records an input byte stream yields before it stops or errs: its
/// plain text parsed up to the first malformed record, where the plain
/// text of a gzip stream is its decoded content (none when it does not
/// decode).
pub open spec fn spec_read_records(bytes: Seq<u8>) -> Seq<RecordView> {
    if spec_is_gzip(bytes) {
        match gunzip_of(bytes) {
            Some(t) => spec_parse_prefix(t, 0),
            None => Seq::empty(),
        }
    } else {
        spec_parse_prefix(bytes, 0)
    }
}

/// Whether the whole input byte stream is well-formed records: a gzip
/// stream that does not decode is not, and neither is text with a
/// malformed record in it.
pub open spec fn spec_read_clean(bytes: Seq<u8>) -> bool {
    if spec_is_gzip(bytes) {
        match gunzip_of(bytes) {
            Some(t) => spec_parse_clean(t, 0),
            None => false,
        }
    } else {
        spec_parse_clean(bytes, 0)
    }
}

/// Reads one whole input as the original's lazy reader would hand it out:
/// sniffs compression by magic bytes, decodes a compressed stream, and
/// parses the four-line records. The stream holds every record before the
/// first malformed one, and says whether the input ended cleanly there; a
/// gzip stream that does not decode yields no records, uncleanly.
pub fn read_fastq(bytes: Vec<u8>) -> (r: RecordStream)
    ensures
        views(r.records@) == spec_read_records(bytes@),
        r.clean == spec_read_clean(bytes@),
        forall|j: int| 0 <= j < r.records@.len() ==> (#[trigger] r.records@[j])@.wf(),
{
    let rf = ReadFile::sniff(bytes);
    match rf.decode() {
        Ok(text) => parse_fastq(&text),
        Err(_) => RecordStream { records: Vec::new(), clean: false },
    }
}

} // verus!
