//! Embeds per-read unique molecular identifiers (UMIs), taken from a
//! separate index-read stream, into the record headers of two paired
//! FASTQ read streams.
//!
//! Text — paths, identifiers, descriptions, bases and quality strings —
//! is modelled throughout as byte strings (`Vec<u8>`), which is what the
//! FASTQ layout and the file system actually deal in.

pub mod engine;
pub mod errors;
pub mod fastq;
pub mod reader;
pub mod gzip;
pub mod options;
pub mod record;
pub mod writer;
pub mod paths;
pub mod scan;
