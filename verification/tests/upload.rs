use share_home::upload::ParseOutcome;
use share_home::upload::PartialCause;
use share_home::upload::SaveOutcome;
use share_home::upload::UploadError;
use share_home::upload::boundary_param;
use share_home::upload::classify_save;
use share_home::upload::entry_plan;
use share_home::upload::prepare_upload;

fn segs(parts: &[&str]) -> Vec<String> {
    parts.iter().map(|p| p.to_string()).collect()
}

fn params(pairs: &[(&str, &str)]) -> Vec<(String, String)> {
    pairs.iter().map(|(k, v)| (k.to_string(), v.to_string())).collect()
}

fn form_data_body(boundary: &str, disposition: &str, payload: &[u8]) -> Vec<u8> {
    let mut body = Vec::new();
    body.extend_from_slice(format!("--{}\r\n", boundary).as_bytes());
    body.extend_from_slice(format!("Content-Disposition: {}\r\n\r\n", disposition).as_bytes());
    body.extend_from_slice(payload);
    body.extend_from_slice(format!("\r\n--{}--\r\n", boundary).as_bytes());
    body
}

#[test]
fn upload_to_directory_plans_the_joined_destination() {
    let body = form_data_body("X", "form-data; name=\"file\"; filename=\"report.txt\"", b"payload bytes");
    let r = prepare_upload(&params(&[("boundary", "X")]), &segs(&["docs"]), &body);
    match r {
        Ok(plan) => {
            assert_eq!(plan.dest, segs(&["docs", "report.txt"]));
            assert_eq!(plan.data, b"payload bytes".to_vec());
        },
        Err(e) => panic!("expected a plan, got: {}", e.message()),
    }
    match classify_save(SaveOutcome::Complete) {
        Ok(m) => assert_eq!(m, "File saved"),
        Err(_) => panic!("a complete save must succeed"),
    }
}

#[test]
fn reupload_to_the_same_destination_plans_the_same_file() {
    let first = form_data_body("B", "form-data; name=\"file\"; filename=\"note.txt\"", b"old text");
    let second = form_data_body("B", "form-data; name=\"file\"; filename=\"note.txt\"", b"new text");
    let p = params(&[("boundary", "B")]);
    let dir = segs(&["docs"]);
    let r1 = prepare_upload(&p, &dir, &first).expect("first upload plans");
    let r2 = prepare_upload(&p, &dir, &second).expect("second upload plans");
    assert_eq!(r1.dest, r2.dest);
    assert_eq!(r1.data, b"old text".to_vec());
    assert_eq!(r2.data, b"new text".to_vec());
    assert_eq!(classify_save(SaveOutcome::Complete).expect("saved"), "File saved");
}

#[test]
fn the_same_body_plans_the_same_upload_twice() {
    let body = form_data_body("Z", "form-data; name=\"file\"; filename=\"same.txt\"", b"identical");
    let p = params(&[("boundary", "Z")]);
    let dir = segs(&["docs"]);
    let r1 = prepare_upload(&p, &dir, &body).expect("plans");
    let r2 = prepare_upload(&p, &dir, &body).expect("plans again");
    assert_eq!(r1.dest, r2.dest);
    assert_eq!(r1.data, r2.data);
}

#[test]
fn missing_boundary_is_bad_request_whatever_the_body() {
    let p = params(&[("charset", "utf-8")]);
    for body in [Vec::new(), b"--X\r\njunk".to_vec()] {
        match prepare_upload(&p, &segs(&[]), &body) {
            Err(UploadError::BadRequest(m)) => {
                assert_eq!(m, "Content-Type: form-data without boundary");
            },
            _ => panic!("expected a bad request"),
        }
    }
}

#[test]
fn boundary_is_found_among_other_parameters() {
    let p = params(&[("charset", "utf-8"), ("boundary", "frontier"), ("boundary", "late")]);
    assert_eq!(boundary_param(&p).expect("found"), "frontier");
    let e = boundary_param(&params(&[])).expect_err("missing");
    assert_eq!(e.status_code(), 400);
    assert_eq!(e.message(), "Content-Type: form-data without boundary");
}

#[test]
fn entry_without_filename_is_bad_request_even_with_data() {
    let body = form_data_body("X", "form-data; name=\"field\"", b"some data");
    match prepare_upload(&params(&[("boundary", "X")]), &segs(&["docs"]), &body) {
        Err(UploadError::BadRequest(m)) => assert_eq!(m, "Request body don't include filename"),
        _ => panic!("expected a bad request"),
    }
}

#[test]
fn unparsable_body_is_a_server_fault() {
    let r = prepare_upload(&params(&[("boundary", "X")]), &segs(&[]), &Vec::new());
    match r {
        Err(e @ UploadError::InternalError(_)) => assert_eq!(e.status_code(), 500),
        _ => panic!("expected a server fault"),
    }
}

#[test]
fn entry_plan_reports_each_parse_outcome() {
    let dir = segs(&["up"]);
    match entry_plan(ParseOutcome::Failed("bad stream".to_string()), &dir) {
        Err(UploadError::InternalError(m)) => assert_eq!(m, "bad stream"),
        _ => panic!("expected a server fault"),
    }
    match entry_plan(ParseOutcome::NoEntry, &dir) {
        Err(UploadError::BadRequest(m)) => assert_eq!(m, "Request body don't include any entry"),
        _ => panic!("expected a bad request"),
    }
    match entry_plan(
        ParseOutcome::Entry { filename: Some("a.bin".to_string()), data: vec![1, 2, 3] },
        &dir,
    ) {
        Ok(plan) => {
            assert_eq!(plan.dest, segs(&["up", "a.bin"]));
            assert_eq!(plan.data, vec![1, 2, 3]);
        },
        Err(_) => panic!("expected a plan"),
    }
}

#[test]
fn save_outcomes_classify_to_the_documented_messages() {
    let cases: Vec<(SaveOutcome, &str)> = vec![
        (
            SaveOutcome::Partial(PartialCause::CountLimit),
            "The count limit for files in the request was hit.",
        ),
        (
            SaveOutcome::Partial(PartialCause::SizeLimit),
            "The size limit for an individual file was hit.",
        ),
        (SaveOutcome::Partial(PartialCause::IoFault("disk full".to_string())), "disk full"),
        (SaveOutcome::Partial(PartialCause::EncodingFault), "UTF convert err"),
        (SaveOutcome::Failed("truncated".to_string()), "truncated"),
    ];
    for (outcome, expected) in cases {
        match classify_save(outcome) {
            Err(e @ UploadError::InternalError(_)) => {
                assert_eq!(e.status_code(), 500);
                assert_eq!(e.message(), expected);
            },
            _ => panic!("expected a server fault"),
        }
    }
}
