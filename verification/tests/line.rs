use hzrd::flag::FlagStatus;
use hzrd::ledger::Ledger;
use hzrd::line::LineAction;
use hzrd::line::LineClient;
use hzrd::line::LinePhase;
use hzrd::submit::apply_outcomes;
use hzrd::submit::finish_submission;
use hzrd::submit::prepare_submission;

fn flags(texts: &[&str]) -> Vec<Vec<u8>> {
    texts.iter().map(|t| t.as_bytes().to_vec()).collect()
}

fn expect_send(action: LineAction) -> Vec<u8> {
    match action {
        LineAction::Send(m) => m,
        _ => panic!("expected a send action"),
    }
}

#[test]
fn happy_path_accepts_every_flag() {
    // A fake scoring service: greeting, ready, then one acceptance per flag.
    let mut ledger = Ledger::new();
    let captured = flags(&["FLAG1=", "FLAG2=", "FLAG3="]);
    let pending = prepare_submission(&mut ledger, &captured, 50);
    assert_eq!(pending, captured);

    let mut client = LineClient::new(b"token".to_vec(), pending.clone());
    let action = client.on_line(b"welcome\n");
    assert_eq!(expect_send(action), b"token\n".to_vec());
    let action = client.on_line(b"please start\n");
    assert_eq!(expect_send(action), b"FLAG1=\n".to_vec());
    let action = client.on_line(b"flag accepted, earned 3 points\n");
    assert_eq!(expect_send(action), b"FLAG2=\n".to_vec());
    let action = client.on_line(b"flag accepted, earned 3 points\n");
    assert_eq!(expect_send(action), b"FLAG3=\n".to_vec());
    let action = client.on_line(b"flag accepted, earned 3 points\n");
    assert!(matches!(action, LineAction::Finished));
    assert_eq!(client.phase, LinePhase::Done);

    apply_outcomes(&mut ledger, &pending, &client.outcomes, 60);
    for i in 0..3 {
        let e = ledger.entry_at(i);
        assert_eq!(e.status, FlagStatus::Accepted);
        assert_eq!(e.points_milli, 3000);
        assert_eq!(e.error, None);
    }
    let (sent, total) = finish_submission(&ledger, pending.len());
    assert!(sent);
    assert_eq!(total, 3 * 3000);
}

#[test]
fn rejection_keeps_reason() {
    let mut ledger = Ledger::new();
    let captured = flags(&["BAD="]);
    let pending = prepare_submission(&mut ledger, &captured, 1);

    let mut client = LineClient::new(b"token".to_vec(), pending.clone());
    client.on_line(b"hello\n");
    client.on_line(b"begin\n");
    let action = client.on_line(b"invalid flag");
    assert!(matches!(action, LineAction::Finished));

    apply_outcomes(&mut ledger, &pending, &client.outcomes, 2);
    let e = ledger.entry_at(0);
    assert_eq!(e.status, FlagStatus::Rejected);
    assert_eq!(e.points_milli, 0);
    let reason = e.error.clone().expect("a rejection keeps the response");
    let text = String::from_utf8(reason).unwrap();
    assert!(text.contains("invalid flag"));
    assert_eq!(ledger.get_points_summary(), 0);
}

#[test]
fn handshake_failure_changes_nothing() {
    let mut ledger = Ledger::new();
    let captured = flags(&["A=", "B="]);
    let pending = prepare_submission(&mut ledger, &captured, 1);

    let mut client = LineClient::new(b"token".to_vec(), pending.clone());
    let action = client.on_line(b"goodbye\n");
    assert!(matches!(
        action,
        LineAction::Abort(hzrd::errors::SubmitError::NoGreeting)
    ));
    assert_eq!(client.phase, LinePhase::Failed);
    assert!(client.outcomes.is_empty());

    // Nothing was recorded: every flag is still pending.
    apply_outcomes(&mut ledger, &pending, &client.outcomes, 2);
    assert_eq!(ledger.get_pending_flags(), pending);
    for i in 0..2 {
        assert_eq!(ledger.entry_at(i).status, FlagStatus::Pending);
        assert_eq!(ledger.entry_at(i).submitted_at, None);
    }
}

#[test]
fn missing_ready_line_aborts() {
    let mut client = LineClient::new(b"t".to_vec(), flags(&["A="]));
    client.on_line(b"hi there\n");
    let action = client.on_line(b"go away\n");
    assert!(matches!(
        action,
        LineAction::Abort(hzrd::errors::SubmitError::NoReadyMessage)
    ));
    assert!(client.outcomes.is_empty());
}

#[test]
fn unexpected_response_is_an_error_not_a_success() {
    let mut ledger = Ledger::new();
    let captured = flags(&["A="]);
    let pending = prepare_submission(&mut ledger, &captured, 1);
    let mut client = LineClient::new(b"t".to_vec(), pending.clone());
    client.on_line(b"welcome\n");
    client.on_line(b"start\n");
    client.on_line(b"???\n");
    apply_outcomes(&mut ledger, &pending, &client.outcomes, 2);
    let e = ledger.entry_at(0);
    assert_eq!(e.status, FlagStatus::Error);
    let text = String::from_utf8(e.error.clone().unwrap()).unwrap();
    assert!(text.starts_with("Unexpected response: "));
}

#[test]
fn greeting_vocabulary_is_case_insensitive() {
    let mut client = LineClient::new(b"t".to_vec(), Vec::new());
    let action = client.on_line(b"WeLCoMe to the checker\n");
    assert!(matches!(action, LineAction::Send(_)));
    let action = client.on_line(b"ENTER YOUR FLAGS\n");
    assert!(matches!(action, LineAction::Finished));
    assert_eq!(client.phase, LinePhase::Done);
}

#[test]
fn points_sum_all_numeric_tokens() {
    // Several numeric tokens in one acceptance line are summed.
    let mut ledger = Ledger::new();
    let captured = flags(&["F="]);
    let pending = prepare_submission(&mut ledger, &captured, 1);
    let mut client = LineClient::new(b"t".to_vec(), pending.clone());
    client.on_line(b"hello\n");
    client.on_line(b"start\n");
    client.on_line(b"accepted 2 flags earned 5.5 points\n");
    apply_outcomes(&mut ledger, &pending, &client.outcomes, 2);
    // 2 + 5.5 = 7.5 points, in thousandths.
    assert_eq!(ledger.entry_at(0).points_milli, 7500);
}
