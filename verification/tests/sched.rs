use hzrd::config::SubmitMode;
use hzrd::errors::AttackError;
use hzrd::ledger::Ledger;
use hzrd::panel::team_state_after;
use hzrd::panel::AttackState;
use hzrd::sched::aggregate_team;
use hzrd::sched::dedup_flags;
use hzrd::sched::plan_submissions;
use hzrd::sched::TeamOutcome;

fn flags(texts: &[&str]) -> Vec<Vec<u8>> {
    texts.iter().map(|t| t.as_bytes().to_vec()).collect()
}

fn script_error(name: &str) -> AttackError {
    AttackError::ScriptExecutionError {
        script: name.as_bytes().to_vec(),
        message: b"exit status 1".to_vec(),
    }
}

#[test]
fn one_failure_beside_one_success_is_not_errored() {
    // A team with two exploits: one fails, one captures a flag.
    let results: Vec<Result<Vec<Vec<u8>>, AttackError>> = vec![
        Err(script_error("a.py")),
        Ok(flags(&["FLAG="])),
    ];
    match aggregate_team(results) {
        TeamOutcome::Captured(fs) => assert_eq!(fs, flags(&["FLAG="])),
        TeamOutcome::Errored(_) => panic!("a team with one working exploit is not errored"),
    }
}

#[test]
fn all_failures_make_the_team_errored() {
    let results: Vec<Result<Vec<Vec<u8>>, AttackError>> = vec![
        Err(script_error("a.py")),
        Err(script_error("b.py")),
    ];
    match aggregate_team(results) {
        TeamOutcome::Errored(es) => assert_eq!(es.len(), 2),
        TeamOutcome::Captured(_) => panic!("an all-failing team is errored"),
    }
}

#[test]
fn successes_concatenate_in_exploit_order() {
    let results: Vec<Result<Vec<Vec<u8>>, AttackError>> = vec![
        Ok(flags(&["A="])),
        Ok(Vec::new()),
        Ok(flags(&["B=", "C="])),
    ];
    match aggregate_team(results) {
        TeamOutcome::Captured(fs) => assert_eq!(fs, flags(&["A=", "B=", "C="])),
        TeamOutcome::Errored(_) => panic!("nothing failed"),
    }
}

#[test]
fn no_exploits_is_an_empty_capture() {
    match aggregate_team(Vec::new()) {
        TeamOutcome::Captured(fs) => assert!(fs.is_empty()),
        TeamOutcome::Errored(_) => panic!("an empty run is not errored"),
    }
}

#[test]
fn dedup_keeps_first_occurrences() {
    let out = dedup_flags(flags(&["A", "B", "A", "C", "B"]));
    assert_eq!(out, flags(&["A", "B", "C"]));
}

#[test]
fn batch_mode_submits_once_at_the_end() {
    let per_team = vec![flags(&["A"]), Vec::new(), flags(&["B", "C"])];
    let plan = plan_submissions(SubmitMode::Batch, &per_team);
    assert_eq!(plan, vec![flags(&["A", "B", "C"])]);
    let empty_plan = plan_submissions(SubmitMode::Batch, &vec![Vec::new()]);
    assert!(empty_plan.is_empty());
}

#[test]
fn grouped_mode_submits_per_team() {
    let per_team = vec![flags(&["A"]), Vec::new(), flags(&["B", "C"])];
    let plan = plan_submissions(SubmitMode::Grouped, &per_team);
    assert_eq!(plan, vec![flags(&["A"]), flags(&["B", "C"])]);
}

#[test]
fn instant_mode_submits_per_flag() {
    let per_team = vec![flags(&["A"]), flags(&["B", "C"])];
    let plan = plan_submissions(SubmitMode::Instant, &per_team);
    assert_eq!(plan, vec![flags(&["A"]), flags(&["B"]), flags(&["C"])]);
}

#[test]
fn storing_batches_in_either_order_records_the_same_flags() {
    // Two teams' captures land in whichever order the concurrent units
    // finish; the recorded flags are the same either way.
    let team_a = flags(&["X=", "Y="]);
    let team_b = flags(&["Y=", "Z="]);

    let mut first = Ledger::new();
    first.store_flags(&team_a, 1);
    first.store_flags(&team_b, 2);

    let mut second = Ledger::new();
    second.store_flags(&team_b, 1);
    second.store_flags(&team_a, 2);

    let mut flags_first = first.get_pending_flags();
    let mut flags_second = second.get_pending_flags();
    flags_first.sort();
    flags_second.sort();
    assert_eq!(flags_first, flags_second);
    assert_eq!(flags_first.len(), 3);
}

#[test]
fn team_states_follow_the_mode() {
    let errored = team_state_after(
        TeamOutcome::Errored(vec![script_error("a.py")]),
        true,
        SubmitMode::Grouped,
        0,
    );
    assert!(matches!(errored, AttackState::Errored(_)));

    let idle = team_state_after(
        TeamOutcome::Captured(Vec::new()),
        true,
        SubmitMode::Grouped,
        0,
    );
    assert!(matches!(idle, AttackState::Idle));

    let grouped = team_state_after(
        TeamOutcome::Captured(flags(&["A"])),
        true,
        SubmitMode::Grouped,
        2500,
    );
    assert!(matches!(grouped, AttackState::Success(2500)));

    let batch = team_state_after(
        TeamOutcome::Captured(flags(&["A"])),
        true,
        SubmitMode::Batch,
        0,
    );
    match batch {
        AttackState::Submitting(fs) => assert_eq!(fs, flags(&["A"])),
        _ => panic!("batch mode leaves the team submitting until the batch goes out"),
    }

    let unsubmitted = team_state_after(
        TeamOutcome::Captured(flags(&["A"])),
        false,
        SubmitMode::Grouped,
        9000,
    );
    assert!(matches!(unsubmitted, AttackState::Success(0)));
}
