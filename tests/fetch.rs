use std::collections::HashMap;
use std::io::Write;

use pmcollection::fetch::{is_success_status, plan_decoded, plan_response, settle, FetchError, FetchOutcome, FetchPlan, Step};

fn gzip(data: &[u8]) -> Vec<u8> {
    let mut encoder = flate2::write::GzEncoder::new(Vec::new(), flate2::Compression::default());
    encoder.write_all(data).unwrap();
    encoder.finish().unwrap()
}

fn carry_out(files: &mut HashMap<String, Vec<u8>>, plan: &FetchPlan) {
    for step in &plan.steps {
        match step {
            Step::Write { file_name, data } => {
                files.insert(file_name.clone(), data.clone());
            }
            Step::Remove { file_name } => {
                files.remove(file_name);
            }
        }
    }
}

fn success_of(plan: &FetchPlan) -> (usize, String) {
    match &plan.outcome {
        FetchOutcome::Success { bytes_written, file_name } => (*bytes_written, file_name.clone()),
        other => panic!("expected success, got {:?}", other),
    }
}

#[test]
fn status_success_is_2xx() {
    assert!(is_success_status(200));
    assert!(is_success_status(204));
    assert!(is_success_status(299));
    assert!(!is_success_status(199));
    assert!(!is_success_status(300));
    assert!(!is_success_status(404));
    assert!(!is_success_status(500));
}

#[test]
fn two_files_written_under_their_names() {
    let mut files = HashMap::new();
    let a = plan_response("http://host/a.txt", 200, b"A".to_vec(), false);
    let b = plan_response("http://host/b.txt", 200, b"B".to_vec(), false);
    carry_out(&mut files, &a);
    carry_out(&mut files, &b);
    assert_eq!(success_of(&a), (1, "a.txt".to_string()));
    assert_eq!(success_of(&b), (1, "b.txt".to_string()));
    assert_eq!(files.len(), 2);
    assert_eq!(files["a.txt"], b"A".to_vec());
    assert_eq!(files["b.txt"], b"B".to_vec());
}

#[test]
fn not_found_writes_nothing() {
    let plan = plan_response("http://host/missing.txt", 404, Vec::new(), false);
    assert!(plan.steps.is_empty());
    match &plan.outcome {
        FetchOutcome::Failure { url, detail: FetchError::Status(code) } => {
            assert_eq!(url, "http://host/missing.txt");
            assert_eq!(*code, 404);
        }
        other => panic!("expected a status failure, got {:?}", other),
    }
}

#[test]
fn empty_last_segment_is_bad_name() {
    let plan = plan_response("http://host/dir/", 200, b"x".to_vec(), false);
    assert!(plan.steps.is_empty());
    assert!(matches!(plan.outcome, FetchOutcome::Failure { detail: FetchError::BadFileName, .. }));
}

#[test]
fn gzip_body_is_decompressed_and_compressed_removed() {
    let contents = b"known contents\nline two\n".to_vec();
    let compressed = gzip(&contents);
    let plan = plan_response("http://host/data.txt.gz", 200, compressed.clone(), true);
    assert_eq!(plan.steps.len(), 3);
    let mut files = HashMap::new();
    carry_out(&mut files, &plan);
    assert_eq!(success_of(&plan), (contents.len(), "data.txt".to_string()));
    assert_eq!(files.get("data.txt"), Some(&contents));
    assert!(!files.contains_key("data.txt.gz"));
    assert_ne!(compressed, contents);
}

#[test]
fn malformed_gzip_keeps_compressed_file() {
    let body = b"this is not gzip".to_vec();
    let plan = plan_response("http://host/broken.gz", 200, body.clone(), true);
    let mut files = HashMap::new();
    carry_out(&mut files, &plan);
    assert!(matches!(plan.outcome, FetchOutcome::Failure { detail: FetchError::Decode, .. }));
    assert_eq!(files.get("broken.gz"), Some(&body));
    assert!(!files.contains_key("broken"));
    assert_eq!(files.len(), 1);
}

#[test]
fn truncated_gzip_is_a_decode_failure() {
    let compressed = gzip(b"some bytes that get cut off");
    let cut = compressed[..compressed.len() / 2].to_vec();
    let plan = plan_response("http://host/cut.gz", 200, cut, true);
    assert!(matches!(plan.outcome, FetchOutcome::Failure { detail: FetchError::Decode, .. }));
    assert_eq!(plan.steps.len(), 1);
}

#[test]
fn gzip_without_suffix_replaces_file_in_place() {
    let contents = b"payload".to_vec();
    let plan = plan_response("http://host/payload", 200, gzip(&contents), true);
    assert_eq!(plan.steps.len(), 2);
    let mut files = HashMap::new();
    carry_out(&mut files, &plan);
    assert_eq!(success_of(&plan), (contents.len(), "payload".to_string()));
    assert_eq!(files.get("payload"), Some(&contents));
    assert_eq!(files.len(), 1);
}

#[test]
fn bare_gz_name_is_bad_name_in_decompression_mode() {
    let body = gzip(b"x");
    let plan = plan_response("http://host/.gz", 200, body.clone(), true);
    assert_eq!(plan.steps.len(), 1);
    let mut files = HashMap::new();
    carry_out(&mut files, &plan);
    assert_eq!(files.get(".gz"), Some(&body));
    assert_eq!(files.len(), 1);
    assert!(matches!(plan.outcome, FetchOutcome::Failure { detail: FetchError::BadFileName, .. }));
}

#[test]
fn malformed_bare_gz_name_keeps_body() {
    let body = b"not gzip either".to_vec();
    let plan = plan_response("http://host/.gz", 200, body.clone(), true);
    let mut files = HashMap::new();
    carry_out(&mut files, &plan);
    assert_eq!(files.get(".gz"), Some(&body));
    assert!(matches!(plan.outcome, FetchOutcome::Failure { .. }));
}

#[test]
fn settle_without_failure_gives_planned_outcome() {
    let plan = plan_response("http://host/a.txt", 200, b"A".to_vec(), false);
    match settle("http://host/a.txt", plan, None) {
        FetchOutcome::Success { bytes_written, file_name } => {
            assert_eq!(bytes_written, 1);
            assert_eq!(file_name, "a.txt");
        }
        other => panic!("expected success, got {:?}", other),
    }
}

#[test]
fn settle_with_failed_step_is_io_failure() {
    let plan = plan_response("http://host/d.gz", 200, gzip(b"abc"), true);
    assert_eq!(plan.steps.len(), 3);
    match settle("http://host/d.gz", plan, Some((1, "disk full".to_string()))) {
        FetchOutcome::Failure { url, detail: FetchError::Io(message) } => {
            assert_eq!(url, "http://host/d.gz");
            assert_eq!(message, "disk full");
        }
        other => panic!("expected an I/O failure, got {:?}", other),
    }
}

#[test]
fn decoded_plan_with_given_result() {
    let plan = plan_decoded("http://h/x.gz", "x.gz", b"zz".to_vec(), Some(b"abc".to_vec()));
    assert_eq!(success_of(&plan), (3, "x".to_string()));
    match &plan.steps[2] {
        Step::Remove { file_name } => assert_eq!(file_name, "x.gz"),
        other => panic!("expected a removal, got {:?}", other),
    }
    let failed = plan_decoded("http://h/x.gz", "x.gz", b"zz".to_vec(), None);
    assert_eq!(failed.steps.len(), 1);
    assert!(matches!(failed.outcome, FetchOutcome::Failure { detail: FetchError::Decode, .. }));
}

#[test]
fn colliding_names_last_writer_wins() {
    let first = plan_response("http://a/x", 200, b"first".to_vec(), false);
    let second = plan_response("http://b/x", 200, b"second".to_vec(), false);
    let mut files = HashMap::new();
    carry_out(&mut files, &first);
    carry_out(&mut files, &second);
    assert_eq!(files.len(), 1);
    assert_eq!(files["x"], b"second".to_vec());
}
