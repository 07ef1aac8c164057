use umi_transfer::fastq::parse_fastq;
use umi_transfer::reader::read_fastq;

#[test]
fn parses_a_single_record() {
    let data = b"@A some description\nACGT\n+\nIIII\n".to_vec();
    let stream = parse_fastq(&data);
    assert!(stream.clean);
    assert_eq!(stream.records.len(), 1);
    assert_eq!(stream.records[0].id, b"A".to_vec());
    assert_eq!(stream.records[0].desc, Some(b"some description".to_vec()));
    assert_eq!(stream.records[0].bases, b"ACGT".to_vec());
    assert_eq!(stream.records[0].qual, b"IIII".to_vec());
}

#[test]
fn parses_records_without_description() {
    let data = b"@r1\nAC\n+\nII\n@r2\nGT\n+\nJJ\n".to_vec();
    let stream = parse_fastq(&data);
    assert!(stream.clean);
    assert_eq!(stream.records.len(), 2);
    assert_eq!(stream.records[0].id, b"r1".to_vec());
    assert_eq!(stream.records[0].desc, None);
    assert_eq!(stream.records[1].id, b"r2".to_vec());
    assert_eq!(stream.records[1].bases, b"GT".to_vec());
}

#[test]
fn parses_last_record_without_trailing_newline() {
    let data = b"@A\nACGT\n+\nIIII".to_vec();
    let stream = parse_fastq(&data);
    assert!(stream.clean);
    assert_eq!(stream.records.len(), 1);
    assert_eq!(stream.records[0].qual, b"IIII".to_vec());
}

#[test]
fn empty_input_holds_no_records_cleanly() {
    let stream = parse_fastq(&Vec::new());
    assert!(stream.clean);
    assert!(stream.records.is_empty());
}

#[test]
fn header_without_at_sign_is_malformed() {
    let data = b"A\nACGT\n+\nIIII\n".to_vec();
    let stream = parse_fastq(&data);
    assert!(!stream.clean);
    assert!(stream.records.is_empty());
}

#[test]
fn separator_line_must_be_a_lone_plus() {
    let data = b"@A\nACGT\nplus\nIIII\n".to_vec();
    let stream = parse_fastq(&data);
    assert!(!stream.clean);
    assert!(stream.records.is_empty());
}

#[test]
fn quality_must_match_sequence_length() {
    let data = b"@A\nACGT\n+\nIII\n".to_vec();
    let stream = parse_fastq(&data);
    assert!(!stream.clean);
    assert!(stream.records.is_empty());
}

#[test]
fn truncated_record_is_malformed() {
    let data = b"@A\nACGT\n".to_vec();
    let stream = parse_fastq(&data);
    assert!(!stream.clean);
    assert!(stream.records.is_empty());
}

#[test]
fn malformed_tail_still_yields_the_good_prefix() {
    // two well-formed records, then a record with a bad separator line
    let data = b"@r1\nAC\n+\nII\n@r2\nGT\n+\nJJ\n@r3\nAA\nbad\nKK\n".to_vec();
    let stream = parse_fastq(&data);
    assert!(!stream.clean);
    assert_eq!(stream.records.len(), 2);
    assert_eq!(stream.records[0].id, b"r1".to_vec());
    assert_eq!(stream.records[1].id, b"r2".to_vec());
}

#[test]
fn read_fastq_takes_plain_text() {
    let data = b"@A\nACGT\n+\nIIII\n".to_vec();
    let stream = read_fastq(data);
    assert!(stream.clean);
    assert_eq!(stream.records.len(), 1);
    assert_eq!(stream.records[0].id, b"A".to_vec());
}
