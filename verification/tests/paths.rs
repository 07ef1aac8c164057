use umi_transfer::errors::RunError;
use umi_transfer::paths::{append_umi_to_path, check_outputpath, needs_confirmation, rectify_extension};

#[test]
fn test_correctly_derive_output_name() {
    // plain file with simple extension
    let p = b"test.fastq".to_vec();
    let result = append_umi_to_path(&p);
    assert_eq!(result, b"test_with_UMIs.fastq".to_vec());

    // plain file with multiple extensions
    let p = b"test.fastq.gz".to_vec();
    let result = append_umi_to_path(&p);
    assert_eq!(result, b"test_with_UMIs.fastq.gz".to_vec());

    // path and file with multiple extensions
    let p = b"/some/path/test.fastq.gz".to_vec();
    let result = append_umi_to_path(&p);
    assert_eq!(result, b"/some/path/test_with_UMIs.fastq.gz".to_vec());

    // path with hidden dir and file with multiple extensions
    let p = b"/some/.hidden/path/test.fastq.gz".to_vec();
    let result = append_umi_to_path(&p);
    assert_eq!(result, b"/some/.hidden/path/test_with_UMIs.fastq.gz".to_vec());

    // path with hidden dir and hidden file with multiple extensions
    let p = b"/some/.hidden/path/.test.fastq.gz".to_vec();
    let result = append_umi_to_path(&p);
    assert_eq!(result, b"/some/.hidden/path/.test_with_UMIs.fastq.gz".to_vec());

    // relative path with hidden dir and hidden file with multiple extensions
    let p = b"./some/.hidden/path/.test.fastq.gz".to_vec();
    let result = append_umi_to_path(&p);
    assert_eq!(result, b"./some/.hidden/path/.test_with_UMIs.fastq.gz".to_vec());
}

#[test]
fn derive_output_name_without_extension_is_identity() {
    let p = b"test".to_vec();
    assert_eq!(append_umi_to_path(&p), b"test".to_vec());

    let p = b".hidden".to_vec();
    assert_eq!(append_umi_to_path(&p), b".hidden".to_vec());
}

#[test]
fn test_rectify_extension() {
    let p = b"test.fastq".to_vec();
    let result = rectify_extension(p, false);
    assert_eq!(result, b"test.fastq".to_vec());

    let p = b"test.fastq".to_vec();
    let result = rectify_extension(p, true);
    assert_eq!(result, b"test.fastq.gz".to_vec());

    let p = b"test".to_vec();
    let result = rectify_extension(p, true);
    assert_eq!(result, b"test.gz".to_vec());

    let p = b"test.fastq.gz".to_vec();
    let result = rectify_extension(p, false);
    assert_eq!(result, b"test.fastq".to_vec());

    let p = b"test.fastq.gz".to_vec();
    let result = rectify_extension(p, true);
    assert_eq!(result, b"test.fastq.gz".to_vec());
}

#[test]
fn rectify_extension_is_idempotent_on_ordinary_names() {
    for (name, compress) in [
        (&b"test.fastq"[..], true),
        (&b"test.fastq"[..], false),
        (&b"test"[..], true),
        (&b"test"[..], false),
        (&b"test.fastq.gz"[..], true),
        (&b"test.fastq.gz"[..], false),
        (&b"/dir/.hidden.tar.gz"[..], false),
    ] {
        let once = rectify_extension(name.to_vec(), compress);
        let twice = rectify_extension(once.clone(), compress);
        assert_eq!(once, twice);
    }
}

#[test]
fn test_check_outputpath_existing_file_with_force() {
    let file_path = b"ACTG.fq".to_vec();
    let force = true;

    let result = check_outputpath(file_path.clone(), force, true, false);

    assert!(result.is_ok());
    assert_eq!(result.unwrap(), file_path);
}

#[test]
fn test_check_outputpath_new_file() {
    let file_path = b"new_file".to_vec();
    let force = true;

    let result = check_outputpath(file_path.clone(), force, false, false);

    assert!(result.is_ok());
    assert_eq!(result.unwrap(), b"new_file".to_vec());
}

#[test]
fn check_outputpath_declined_overwrite_fails() {
    let result = check_outputpath(b"taken.fastq".to_vec(), false, true, false);
    match result {
        Err(RunError::FileExists(Some(p))) => assert_eq!(p, b"taken.fastq".to_vec()),
        _ => panic!("expected FileExists"),
    }
}

#[test]
fn check_outputpath_confirmed_overwrite_passes() {
    let result = check_outputpath(b"taken.fastq".to_vec(), false, true, true);
    assert_eq!(result.unwrap(), b"taken.fastq".to_vec());
}

#[test]
fn confirmation_is_asked_only_without_force() {
    assert!(needs_confirmation(true, false));
    assert!(!needs_confirmation(true, true));
    assert!(!needs_confirmation(false, false));
    assert!(!needs_confirmation(false, true));
}
