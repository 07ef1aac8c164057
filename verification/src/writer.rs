//! The record writer: serializes records into the four-line FASTQ layout,
//! accumulating them for a sink in one of two encodings fixed at creation.

use crate::gzip::{gunzip_of, gzip_compress};
use crate::paths::spec_extension;
use crate::record::{opt_view, SequenceRecord};
use crate::scan::{copy_range, push_range};
use vstd::prelude::*;

verus! {

/// Serialized four-line layout of one record: `@header[ desc]`, the base
/// string, a lone `+`, and the quality string, each line ending in a
/// newline.
pub open spec fn spec_record_bytes(
    header: Seq<u8>,
    desc: Option<Seq<u8>>,
    bases: Seq<u8>,
    qual: Seq<u8>,
) -> Seq<u8> {
    seq![64u8] + header + (match desc {
        Some(t) => seq![32u8] + t,
        None => Seq::<u8>::empty(),
    }) + seq![10u8] + bases + seq![10u8] + seq![43u8, 10u8] + qual + seq![10u8]
}

/// An output file being composed: the serialized records so far, and the
/// encoding chosen once when the file was created.
pub enum OutputFile {
    Fastq { read: Vec<u8> },
    Gzip { read: Vec<u8> },
}

impl OutputFile {
    /// The serialized records accumulated so far, before any compression.
    pub open spec fn buf(self) -> Seq<u8> {
        match self {
            OutputFile::Fastq { read } => read@,
            OutputFile::Gzip { read } => read@,
        }
    }

    pub open spec fn is_compressed(self) -> bool {
        self is Gzip
    }

    /// Serializes one record — under the given header and description, with
    /// the record's base and quality strings — and appends it to the file.
    /// The writer is handed back for the next call.
    pub fn write(self, header: &Vec<u8>, desc: &Option<Vec<u8>>, rec: &SequenceRecord) -> (r:
        OutputFile)
        ensures
            r.buf() == self.buf() + spec_record_bytes(header@, opt_view(*desc), rec@.bases, rec@.qual),
            r.is_compressed() == self.is_compressed(),
    {
        let ghost b0 = self.buf();
        let (mut buf, gz) = match self {
            OutputFile::Fastq { read } => (read, false),
            OutputFile::Gzip { read } => (read, true),
        };
        buf.push(64);
        push_range(&mut buf, header, 0, header.len());
        match desc {
            Some(t) => {
                buf.push(32);
                push_range(&mut buf, t, 0, t.len());
            },
            None => {},
        }
        buf.push(10);
        push_range(&mut buf, &rec.bases, 0, rec.bases.len());
        buf.push(10);
        buf.push(43);
        buf.push(10);
        push_range(&mut buf, &rec.qual, 0, rec.qual.len());
        buf.push(10);
        assert(buf@ =~= b0 + spec_record_bytes(header@, opt_view(*desc), rec@.bases, rec@.qual));
        if gz {
            OutputFile::Gzip { read: buf }
        } else {
            OutputFile::Fastq { read: buf }
        }
    }

    /// Closes the file: hands back the bytes that belong on disk. A plain
    /// file is the accumulated text itself; a compressed file is a gzip
    /// stream that decodes to it.
    pub fn finish(self) -> (r: Vec<u8>)
        ensures
            !self.is_compressed() ==> r@ == self.buf(),
            self.is_compressed() ==> gunzip_of(r@) == Some(self.buf()),
    {
        match self {
            OutputFile::Fastq { read } => read,
            OutputFile::Gzip { read } => match gzip_compress(&read) {
                Ok(v) => v,
                Err(_) => vstd::pervasive::unreached(),
            },
        }
    }
}

/// The delimiter placed between identifier and UMI: the caller's, or `:`.
pub open spec fn spec_delim(umi_sep: Option<Seq<u8>>) -> Seq<u8> {
    match umi_sep {
        Some(s) => s,
        None => seq![58u8],
    }
}

/// The header a rewritten record carries: its identifier, the delimiter,
/// and the UMI base string read as text.
pub open spec fn spec_header(id: Seq<u8>, delim: Seq<u8>, umi: Seq<u8>) -> Seq<u8> {
    id + delim + umi
}

/// The description after the optional mate-number edit: its first byte
/// overwritten with the digit, when one is supplied.
pub open spec fn spec_edited_desc(desc: Option<Seq<u8>>, edit_nr: Option<u8>) -> Option<Seq<u8>> {
    match edit_nr {
        Some(dg) => Some(seq![(48 + dg) as u8] + desc.unwrap().subrange(1, desc.unwrap().len() as int)),
        None => desc,
    }
}

/// Writes one record with the UMI embedded in its header: the new header
/// is the record's identifier, the delimiter (`:` unless overridden), and
/// the UMI base string. With an edit digit the description's first byte
/// becomes that digit; the description must then be present and
/// non-empty.
pub fn write_to_file(
    input: &SequenceRecord,
    output: OutputFile,
    umi: &Vec<u8>,
    umi_sep: &Option<Vec<u8>>,
    edit_nr: Option<u8>,
) -> (r: OutputFile)
    requires
        edit_nr matches Some(dg) ==> dg <= 9 && (input.desc matches Some(t) && t@.len() >= 1),
    ensures
        r.buf() == output.buf() + spec_record_bytes(
            spec_header(input@.id, spec_delim(opt_view(*umi_sep)), umi@),
            spec_edited_desc(input@.desc, edit_nr),
            input@.bases,
            input@.qual,
        ),
        r.is_compressed() == output.is_compressed(),
{
    let mut header: Vec<u8> = Vec::new();
    push_range(&mut header, &input.id, 0, input.id.len());
    match umi_sep {
        Some(s) => push_range(&mut header, s, 0, s.len()),
        None => header.push(58),
    }
    push_range(&mut header, umi, 0, umi.len());
    assert(header@ =~= spec_header(input@.id, spec_delim(opt_view(*umi_sep)), umi@));
    let desc: Option<Vec<u8>> = match edit_nr {
        Some(dg) => match &input.desc {
            Some(t) => {
                let mut nd: Vec<u8> = Vec::new();
                nd.push(48 + dg);
                push_range(&mut nd, t, 1, t.len());
                assert(nd@ =~= seq![(48 + dg) as u8] + t@.subrange(1, t@.len() as int));
                Some(nd)
            },
            None => vstd::pervasive::unreached(),
        },
        None => match &input.desc {
            Some(t) => Some(copy_range(t, 0, t.len())),
            None => None,
        },
    };
    proof {
        assert(opt_view(desc) == spec_edited_desc(input@.desc, edit_nr));
    }
    output.write(&header, &desc, input)
}

/// The bytes `gz`, the one extension that selects the compressed encoding.
pub open spec fn gz_ext() -> Seq<u8> {
    seq![103u8, 122u8]
}

/// Creates an output file for the given name: the compressed encoding
/// exactly when the name's final extension is `gz`, the plain encoding
/// otherwise. Nothing is written yet.
pub fn output_file(name: &Vec<u8>) -> (r: OutputFile)
    ensures
        r.buf() == Seq::<u8>::empty(),
        r.is_compressed() == (spec_extension(name@) == Some(gz_ext())),
{
    let is_gz = extension_is_gz(name);
    if is_gz {
        OutputFile::Gzip { read: Vec::new() }
    } else {
        OutputFile::Fastq { read: Vec::new() }
    }
}

/// Whether the name's final extension is exactly `gz`.
fn extension_is_gz(name: &Vec<u8>) -> (r: bool)
    ensures
        r == (spec_extension(name@) == Some(gz_ext())),
{
    let cs = crate::paths::find_comp_start(name, false);
    if cs == name.len() {
        return false;
    }
    match crate::paths::find_ext_dot(name, cs) {
        Some(d) => {
            let e_len = name.len() - (d + 1);
            if e_len == 2 && name[d + 1] == 103 && name[d + 2] == 122 {
                assert(name@.subrange(d + 1, name@.len() as int) =~= gz_ext());
                true
            } else {
                proof {
                    let e = name@.subrange(d + 1, name@.len() as int);
                    if e.len() == 2 && e[0] == 103 && e[1] == 122 {
                        assert(false);
                    }
                }
                false
            }
        },
        None => false,
    }
}

} // verus!
