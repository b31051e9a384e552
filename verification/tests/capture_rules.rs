use orchestrator::capture::{
    capture_request, classify, is_success, outcome_from, read_key_member, CaptureReply, Outcome,
};
use orchestrator::status::ItemStatus;

fn answered(status: u16, body: &str) -> CaptureReply {
    CaptureReply::Answered { status, body: Some(body.as_bytes().to_vec()) }
}

fn stored(key: &str) -> Outcome {
    Outcome::Stored { key: key.to_string() }
}

#[test]
fn success_is_200_to_299() {
    assert!(!is_success(0));
    assert!(!is_success(199));
    assert!(is_success(200));
    assert!(is_success(204));
    assert!(is_success(299));
    assert!(!is_success(300));
    assert!(!is_success(404));
    assert!(!is_success(500));
    assert!(!is_success(u16::MAX));
}

#[test]
fn request_goes_to_the_screenshot_path() {
    let request = capture_request("http://worker:3000", "https://a.test/x");
    assert_eq!(request.endpoint, "http://worker:3000/screenshot");
    assert_eq!(request.url, "https://a.test/x");
}

#[test]
fn request_body_is_an_object_with_the_url() {
    let request = capture_request("http://worker:3000", "https://a.test/x");
    assert_eq!(request.body(), Some(b"{\"url\":\"https://a.test/x\"}".to_vec()));
}

#[test]
fn request_body_escapes_the_url() {
    let request = capture_request("http://w", "a\"b\\c\n");
    assert_eq!(request.body(), Some(b"{\"url\":\"a\\\"b\\\\c\\n\"}".to_vec()));
    let parsed: serde_json::Value = serde_json::from_slice(&request.body().unwrap()).unwrap();
    assert_eq!(parsed["url"].as_str(), Some("a\"b\\c\n"));
}

#[test]
fn key_member_is_read_from_the_body() {
    let body = Some(b"{\"s3Key\":\"k1\",\"other\":7}".to_vec());
    assert_eq!(read_key_member(&body), Some("k1".to_string()));
    let escaped = Some(b"{\"s3Key\":\"a\\u0041\\n\"}".to_vec());
    assert_eq!(read_key_member(&escaped), Some("aA\n".to_string()));
}

#[test]
fn key_member_is_absent_where_the_body_has_none() {
    assert_eq!(read_key_member(&None), None);
    assert_eq!(read_key_member(&Some(Vec::new())), None);
    assert_eq!(read_key_member(&Some(b"not json".to_vec())), None);
    assert_eq!(read_key_member(&Some(b"{}".to_vec())), None);
    assert_eq!(read_key_member(&Some(b"{\"s3key\":\"k\"}".to_vec())), None);
    assert_eq!(read_key_member(&Some(b"{\"s3Key\":12}".to_vec())), None);
    assert_eq!(read_key_member(&Some(b"{\"s3Key\":null}".to_vec())), None);
    assert_eq!(read_key_member(&Some(b"[\"s3Key\"]".to_vec())), None);
    assert_eq!(read_key_member(&Some(b"\"s3Key\"".to_vec())), None);
    assert_eq!(read_key_member(&Some(b"{\"s3Key\":\"k\"} trailing".to_vec())), None);
}

#[test]
fn outcome_from_status_and_member() {
    assert_eq!(outcome_from(200, Some("k1".to_string())), stored("k1"));
    assert_eq!(outcome_from(201, None), stored(""));
    assert_eq!(outcome_from(500, Some("k1".to_string())), Outcome::Failed);
    assert_eq!(outcome_from(302, None), Outcome::Failed);
}

#[test]
fn success_with_key_is_stored() {
    assert_eq!(classify(&answered(200, "{\"s3Key\":\"k1\"}")), stored("k1"));
    assert_eq!(classify(&answered(299, "{\"s3Key\":\"shots/1.png\"}")), stored("shots/1.png"));
}

#[test]
fn success_without_key_is_stored_under_the_empty_key() {
    assert_eq!(classify(&answered(200, "{}")), stored(""));
    assert_eq!(classify(&answered(200, "{\"key\":\"k1\"}")), stored(""));
    assert_eq!(classify(&answered(200, "{\"s3Key\":5}")), stored(""));
    assert_eq!(classify(&answered(200, "<html>")), stored(""));
    assert_eq!(classify(&answered(200, "")), stored(""));
    assert_eq!(classify(&CaptureReply::Answered { status: 200, body: None }), stored(""));
}

#[test]
fn failure_status_is_failed_whatever_the_body() {
    assert_eq!(classify(&answered(500, "{\"s3Key\":\"k1\"}")), Outcome::Failed);
    assert_eq!(classify(&answered(404, "")), Outcome::Failed);
    assert_eq!(classify(&answered(199, "{\"s3Key\":\"k1\"}")), Outcome::Failed);
    assert_eq!(classify(&answered(300, "{\"s3Key\":\"k1\"}")), Outcome::Failed);
    assert_eq!(classify(&CaptureReply::Answered { status: 503, body: None }), Outcome::Failed);
}

#[test]
fn no_response_is_failed() {
    assert_eq!(classify(&CaptureReply::Unreachable), Outcome::Failed);
}

#[test]
fn outcome_has_a_key_exactly_when_completed() {
    let kept = stored("k1");
    assert_eq!(kept.status(), ItemStatus::Completed);
    assert_eq!(kept.storage_key(), Some(&"k1".to_string()));
    let empty = stored("");
    assert_eq!(empty.status(), ItemStatus::Completed);
    assert_eq!(empty.storage_key(), Some(&String::new()));
    assert_eq!(Outcome::Failed.status(), ItemStatus::Failed);
    assert_eq!(Outcome::Failed.storage_key(), None);
    assert_eq!(kept.duplicate(), kept);
    assert_eq!(Outcome::Failed.duplicate(), Outcome::Failed);
}
