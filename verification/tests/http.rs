use hzrd::flag::FlagStatus;
use hzrd::flag::SubmitterHTTPResponse;
use hzrd::flag::SubmitterHTTPStatus;
use hzrd::http::apply_http_failure;
use hzrd::http::apply_http_responses;
use hzrd::http::encode_flags_body;
use hzrd::ledger::Ledger;
use hzrd::submit::prepare_submission;

fn flags(texts: &[&str]) -> Vec<Vec<u8>> {
    texts.iter().map(|t| t.as_bytes().to_vec()).collect()
}

fn response(msg: &str, flag: &str, status: SubmitterHTTPStatus) -> SubmitterHTTPResponse {
    SubmitterHTTPResponse {
        message: msg.as_bytes().to_vec(),
        flag: flag.as_bytes().to_vec(),
        status,
    }
}

#[test]
fn request_body_is_a_json_array_of_strings() {
    let body = encode_flags_body(&flags(&["AAA=", "BBB="]));
    assert_eq!(body, b"[\"AAA=\",\"BBB=\"]".to_vec());
    let empty = encode_flags_body(&Vec::new());
    assert_eq!(empty, b"[]".to_vec());
}

#[test]
fn request_body_escapes_quotes_and_controls() {
    let body = encode_flags_body(&flags(&["a\"b", "c\\d", "e\nf"]));
    assert_eq!(
        body,
        b"[\"a\\\"b\",\"c\\\\d\",\"e\\u000af\"]".to_vec()
    );
}

#[test]
fn partial_response_resolves_only_its_prefix() {
    // Three flags submitted, two answered: the third stays pending.
    let mut ledger = Ledger::new();
    let captured = flags(&["A=", "B=", "C="]);
    let pending = prepare_submission(&mut ledger, &captured, 1);
    let responses = vec![
        response("ok", "A=", SubmitterHTTPStatus::Accepted),
        response("denied", "B=", SubmitterHTTPStatus::Denied),
    ];
    apply_http_responses(&mut ledger, &pending, &responses, 2);
    assert_eq!(ledger.entry_at(0).status, FlagStatus::Accepted);
    assert_eq!(ledger.entry_at(1).status, FlagStatus::Rejected);
    assert_eq!(ledger.entry_at(2).status, FlagStatus::Pending);
    assert_eq!(ledger.entry_at(2).submitted_at, None);
    assert_eq!(ledger.get_pending_flags(), flags(&["C="]));
}

#[test]
fn resubmit_goes_back_to_pending() {
    let mut ledger = Ledger::new();
    let captured = flags(&["A="]);
    let pending = prepare_submission(&mut ledger, &captured, 1);
    let responses = vec![response("try later", "A=", SubmitterHTTPStatus::Resubmit)];
    apply_http_responses(&mut ledger, &pending, &responses, 2);
    assert_eq!(ledger.entry_at(0).status, FlagStatus::Pending);
    assert_eq!(ledger.get_pending_flags(), flags(&["A="]));
}

#[test]
fn failing_response_marks_every_flag_errored() {
    let mut ledger = Ledger::new();
    let captured = flags(&["A=", "B="]);
    let pending = prepare_submission(&mut ledger, &captured, 1);
    apply_http_failure(&mut ledger, &pending, b"HTTP error: 503 - down", 2);
    for i in 0..2 {
        let e = ledger.entry_at(i);
        assert_eq!(e.status, FlagStatus::Error);
        assert_eq!(e.error, Some(b"HTTP error: 503 - down".to_vec()));
    }
    assert!(ledger.get_pending_flags().is_empty());
}

#[test]
fn verdicts_map_onto_ledger_statuses() {
    assert_eq!(
        FlagStatus::from(SubmitterHTTPStatus::Accepted),
        FlagStatus::Accepted
    );
    assert_eq!(
        FlagStatus::from(SubmitterHTTPStatus::Denied),
        FlagStatus::Rejected
    );
    assert_eq!(
        FlagStatus::from(SubmitterHTTPStatus::Resubmit),
        FlagStatus::Pending
    );
    assert_eq!(
        FlagStatus::from(SubmitterHTTPStatus::Error),
        FlagStatus::Error
    );
}

#[test]
fn batch_protocol_grants_no_points_itself() {
    let mut ledger = Ledger::new();
    let captured = flags(&["A="]);
    let pending = prepare_submission(&mut ledger, &captured, 1);
    let responses = vec![response("accepted", "A=", SubmitterHTTPStatus::Accepted)];
    apply_http_responses(&mut ledger, &pending, &responses, 2);
    assert_eq!(ledger.entry_at(0).points_milli, 0);
    assert_eq!(ledger.get_points_summary(), 0);
}
