use umi_transfer::reader::read_fastq;
use umi_transfer::record::SequenceRecord;
use umi_transfer::writer::{output_file, write_to_file};

fn one_record() -> SequenceRecord {
    SequenceRecord {
        id: b"A".to_vec(),
        desc: None,
        bases: b"GATTACA".to_vec(),
        qual: b"IIIIIII".to_vec(),
    }
}

#[test]
fn gz_named_output_is_a_gzip_stream_that_round_trips() {
    let out = output_file(&b"out.fastq.gz".to_vec());
    let rec = one_record();
    let out = write_to_file(&rec, out, &b"ACGT".to_vec(), &None, None);
    let bytes = out.finish();

    // really compressed: the gzip magic, not the serialized text
    assert!(bytes.len() >= 2);
    assert_eq!(bytes[0], 0x1f);
    assert_eq!(bytes[1], 0x8b);
    assert_ne!(bytes, b"@A:ACGT\nGATTACA\n+\nIIIIIII\n".to_vec());

    // and it decodes back to exactly the records that were written
    let stream = read_fastq(bytes);
    assert!(stream.clean);
    assert_eq!(stream.records.len(), 1);
    assert_eq!(stream.records[0].id, b"A:ACGT".to_vec());
    assert_eq!(stream.records[0].bases, b"GATTACA".to_vec());
    assert_eq!(stream.records[0].qual, b"IIIIIII".to_vec());
}

#[test]
fn plain_named_output_stays_plain_text() {
    let out = output_file(&b"out.fastq".to_vec());
    let rec = one_record();
    let out = write_to_file(&rec, out, &b"ACGT".to_vec(), &None, None);
    assert_eq!(out.finish(), b"@A:ACGT\nGATTACA\n+\nIIIIIII\n".to_vec());
}

#[test]
fn only_the_exact_gz_extension_compresses() {
    // extension present but not `gz`: plain
    let out = output_file(&b"out.fastq".to_vec());
    assert_eq!(out.finish(), Vec::<u8>::new());

    // no extension at all: plain
    let out = output_file(&b"out".to_vec());
    assert_eq!(out.finish(), Vec::<u8>::new());

    // `gz` extension: a gzip stream even when empty
    let out = output_file(&b"out.gz".to_vec());
    let bytes = out.finish();
    assert!(bytes.len() >= 2);
    assert_eq!(bytes[0], 0x1f);
    assert_eq!(bytes[1], 0x8b);
}

#[test]
fn corrupt_gzip_input_yields_nothing_uncleanly() {
    let mut data = vec![0x1f, 0x8b];
    data.extend_from_slice(b"this is not a gzip stream");
    let stream = read_fastq(data);
    assert!(!stream.clean);
    assert!(stream.records.is_empty());
}
