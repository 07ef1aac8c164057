use umi_transfer::engine::{malformed_stream, run};
use umi_transfer::errors::RunError;
use umi_transfer::record::{RecordStream, SequenceRecord};
use umi_transfer::writer::output_file;

fn rec(id: &str, desc: Option<&str>, bases: &str, qual: &str) -> SequenceRecord {
    SequenceRecord {
        id: id.as_bytes().to_vec(),
        desc: desc.map(|d| d.as_bytes().to_vec()),
        bases: bases.as_bytes().to_vec(),
        qual: qual.as_bytes().to_vec(),
    }
}

fn clean(records: Vec<SequenceRecord>) -> RecordStream {
    RecordStream { records, clean: true }
}

#[test]
fn three_matching_records_embed_the_umi() {
    let r1 = clean(vec![rec("A", None, "GATTACA", "IIIIIII")]);
    let r2 = clean(vec![rec("A", None, "TGTAATC", "JJJJJJJ")]);
    let ru = clean(vec![rec("A", None, "ACGT", "IIII")]);
    let out1 = output_file(&b"x1.fastq".to_vec());
    let out2 = output_file(&b"x2.fastq".to_vec());

    let (res, w1, w2) = run(&r1, &r2, &ru, out1, out2, &None, None);
    assert!(res.is_ok());
    assert_eq!(w1.finish(), b"@A:ACGT\nGATTACA\n+\nIIIIIII\n".to_vec());
    assert_eq!(w2.finish(), b"@A:ACGT\nTGTAATC\n+\nJJJJJJJ\n".to_vec());
}

#[test]
fn mismatched_read1_id_aborts_before_any_write() {
    let r1 = clean(vec![rec("A", None, "GATTACA", "IIIIIII")]);
    let r2 = clean(vec![rec("A", None, "TGTAATC", "JJJJJJJ")]);
    let ru = clean(vec![rec("B", None, "ACGT", "IIII")]);
    let out1 = output_file(&b"x1.fastq".to_vec());
    let out2 = output_file(&b"x2.fastq".to_vec());

    let (res, w1, w2) = run(&r1, &r2, &ru, out1, out2, &None, None);
    assert!(matches!(res, Err(RunError::ReadIDMismatch)));
    assert_eq!(w1.finish(), Vec::<u8>::new());
    assert_eq!(w2.finish(), Vec::<u8>::new());
}

#[test]
fn mismatch_at_later_step_keeps_earlier_output() {
    let r1 = clean(vec![
        rec("A", None, "AC", "II"),
        rec("X", None, "GG", "II"),
        rec("C", None, "TT", "II"),
    ]);
    let r2 = clean(vec![
        rec("A", None, "CA", "JJ"),
        rec("X", None, "CC", "JJ"),
        rec("C", None, "AA", "JJ"),
    ]);
    let ru = clean(vec![
        rec("A", None, "ACGT", "IIII"),
        rec("B", None, "TTTT", "IIII"),
        rec("C", None, "GGGG", "IIII"),
    ]);
    let out1 = output_file(&b"x1.fastq".to_vec());
    let out2 = output_file(&b"x2.fastq".to_vec());

    let (res, w1, w2) = run(&r1, &r2, &ru, out1, out2, &None, None);
    assert!(matches!(res, Err(RunError::ReadIDMismatch)));
    // step 0 was written, the mismatched step 1 and everything later were not
    assert_eq!(w1.finish(), b"@A:ACGT\nAC\n+\nII\n".to_vec());
    assert_eq!(w2.finish(), b"@A:ACGT\nCA\n+\nJJ\n".to_vec());
}

#[test]
fn mismatch_on_read2_still_writes_that_step_for_read1() {
    let r1 = clean(vec![rec("A", None, "AC", "II")]);
    let r2 = clean(vec![rec("Z", None, "CA", "JJ")]);
    let ru = clean(vec![rec("A", None, "ACGT", "IIII")]);
    let out1 = output_file(&b"x1.fastq".to_vec());
    let out2 = output_file(&b"x2.fastq".to_vec());

    let (res, w1, w2) = run(&r1, &r2, &ru, out1, out2, &None, None);
    assert!(matches!(res, Err(RunError::ReadIDMismatch)));
    assert_eq!(w1.finish(), b"@A:ACGT\nAC\n+\nII\n".to_vec());
    assert_eq!(w2.finish(), Vec::<u8>::new());
}

#[test]
fn delimiter_override_is_used_in_the_header() {
    let r1 = clean(vec![rec("A", None, "AC", "II")]);
    let r2 = clean(vec![rec("A", None, "CA", "JJ")]);
    let ru = clean(vec![rec("A", None, "ACGT", "IIII")]);
    let out1 = output_file(&b"x1.fastq".to_vec());
    let out2 = output_file(&b"x2.fastq".to_vec());

    let sep = Some(b"_".to_vec());
    let (res, w1, w2) = run(&r1, &r2, &ru, out1, out2, &sep, None);
    assert!(res.is_ok());
    assert_eq!(w1.finish(), b"@A_ACGT\nAC\n+\nII\n".to_vec());
    assert_eq!(w2.finish(), b"@A_ACGT\nCA\n+\nJJ\n".to_vec());
}

#[test]
fn edit_digit_overwrites_first_byte_of_read2_description() {
    let r1 = clean(vec![rec("A", Some("1:N:0:GG"), "AC", "II")]);
    let r2 = clean(vec![rec("A", Some("1:N:0:GG"), "CA", "JJ")]);
    let ru = clean(vec![rec("A", None, "ACGT", "IIII")]);
    let out1 = output_file(&b"x1.fastq".to_vec());
    let out2 = output_file(&b"x2.fastq".to_vec());

    let (res, w1, w2) = run(&r1, &r2, &ru, out1, out2, &None, Some(2));
    assert!(res.is_ok());
    // read 1 keeps its description untouched; read 2's first byte becomes the digit
    assert_eq!(w1.finish(), b"@A:ACGT 1:N:0:GG\nAC\n+\nII\n".to_vec());
    assert_eq!(w2.finish(), b"@A:ACGT 2:N:0:GG\nCA\n+\nJJ\n".to_vec());
}

#[test]
fn shortest_clean_stream_governs_the_number_of_steps() {
    let r1 = clean(vec![rec("A", None, "AC", "II"), rec("B", None, "GG", "II")]);
    let r2 = clean(vec![rec("A", None, "CA", "JJ"), rec("B", None, "CC", "JJ")]);
    let ru = clean(vec![rec("A", None, "ACGT", "IIII")]);
    let out1 = output_file(&b"x1.fastq".to_vec());
    let out2 = output_file(&b"x2.fastq".to_vec());

    let (res, w1, w2) = run(&r1, &r2, &ru, out1, out2, &None, None);
    assert!(res.is_ok());
    assert_eq!(w1.finish(), b"@A:ACGT\nAC\n+\nII\n".to_vec());
    assert_eq!(w2.finish(), b"@A:ACGT\nCA\n+\nJJ\n".to_vec());
}

#[test]
fn read_error_at_step_two_keeps_step_one_and_aborts() {
    // read 1's stream errs after its first record; the others go on
    let r1 = RecordStream { records: vec![rec("A", None, "AC", "II")], clean: false };
    let r2 = clean(vec![rec("A", None, "CA", "JJ"), rec("B", None, "CC", "JJ")]);
    let ru = clean(vec![
        rec("A", None, "ACGT", "IIII"),
        rec("B", None, "TTTT", "IIII"),
    ]);
    let out1 = output_file(&b"x1.fastq".to_vec());
    let out2 = output_file(&b"x2.fastq".to_vec());

    let (res, w1, w2) = run(&r1, &r2, &ru, out1, out2, &None, None);
    assert!(matches!(res, Err(RunError::MalformedInput)));
    assert_eq!(malformed_stream(&r1, &r2, &ru), 1);
    // the full step before the read error was written
    assert_eq!(w1.finish(), b"@A:ACGT\nAC\n+\nII\n".to_vec());
    assert_eq!(w2.finish(), b"@A:ACGT\nCA\n+\nJJ\n".to_vec());
}

#[test]
fn clean_exhaustion_beats_anothers_read_error() {
    // the index read ends cleanly at one record, so read 2's later error
    // is never reached
    let r1 = clean(vec![rec("A", None, "AC", "II"), rec("B", None, "GG", "II")]);
    let r2 = RecordStream {
        records: vec![rec("A", None, "CA", "JJ"), rec("B", None, "CC", "JJ")],
        clean: false,
    };
    let ru = clean(vec![rec("A", None, "ACGT", "IIII")]);
    let out1 = output_file(&b"x1.fastq".to_vec());
    let out2 = output_file(&b"x2.fastq".to_vec());

    let (res, _w1, _w2) = run(&r1, &r2, &ru, out1, out2, &None, None);
    assert!(res.is_ok());
    assert_eq!(malformed_stream(&r1, &r2, &ru), 0);
}

#[test]
fn index_read_error_is_attributed_to_the_index_stream() {
    let r1 = clean(vec![rec("A", None, "AC", "II"), rec("B", None, "GG", "II")]);
    let r2 = clean(vec![rec("A", None, "CA", "JJ"), rec("B", None, "CC", "JJ")]);
    let ru = RecordStream { records: vec![rec("A", None, "ACGT", "IIII")], clean: false };
    let out1 = output_file(&b"x1.fastq".to_vec());
    let out2 = output_file(&b"x2.fastq".to_vec());

    let (res, _w1, _w2) = run(&r1, &r2, &ru, out1, out2, &None, None);
    assert!(matches!(res, Err(RunError::MalformedInput)));
    assert_eq!(malformed_stream(&r1, &r2, &ru), 3);
}
