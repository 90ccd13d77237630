use hzrd::config::AttackerConfig;
use hzrd::config::ExploitInfo;
use hzrd::config::SubmitMode;
use hzrd::config::SubmitterType;
use hzrd::config::Team;
use hzrd::errors::AttackError;
use hzrd::panel::LogManager;
use hzrd::panel::SettingsState;
use hzrd::panel::StatusBar;
use hzrd::panel::StatusType;
use hzrd::panel::TabState;
use hzrd::panel::TeamStatus;
use hzrd::panel::AttackState;

fn attacker_config() -> AttackerConfig {
    AttackerConfig {
        exploit: b"exploits".to_vec(),
        flag: b"[0-9A-Z]{31}=".to_vec(),
        teams: Vec::new(),
        loop_cfg: None,
        exploits: Vec::new(),
    }
}

#[test]
fn states_describe_themselves() {
    assert_eq!(AttackState::Idle.describe(), b"Idle".to_vec());
    assert_eq!(AttackState::Attacking.describe(), b"Attacking".to_vec());
    let submitting = AttackState::Submitting(vec![b"A".to_vec(), b"B".to_vec()]);
    assert_eq!(submitting.describe(), b"Submitting 2 flags".to_vec());
    assert_eq!(AttackState::Success(2500).describe(), b"Success (2 points)".to_vec());
    assert_eq!(AttackState::Errored(Vec::new()).describe(), b"Errored (0)".to_vec());
    assert_eq!(SubmitterType::Tcp.label(), "tcp");
    assert_eq!(SubmitterType::Http.label(), "http");
}

#[test]
fn tab_indices_round_trip() {
    for tab in [TabState::Teams, TabState::Logs, TabState::Exploits] {
        assert_eq!(TabState::from_index(tab.index()), tab);
    }
    assert_eq!(TabState::from_index(99), TabState::Teams);
}

#[test]
fn exploit_names_come_from_the_path() {
    let info = ExploitInfo::new(b"exploits/steal.py".to_vec());
    assert_eq!(info.name, b"steal.py".to_vec());
    assert!(info.enabled);
    let bare = ExploitInfo::new(b"steal.py".to_vec());
    assert_eq!(bare.name, b"steal.py".to_vec());
    let odd = ExploitInfo::new(b"exploits/".to_vec());
    assert_eq!(odd.name, b"unknown".to_vec());
}

#[test]
fn rescans_keep_the_operator_choices() {
    let mut first = hzrd::config::merge_exploits(
        &Vec::new(),
        &vec![b"x/a.py".to_vec(), b"x/b.py".to_vec()],
    );
    assert_eq!(first.len(), 2);
    assert!(first[0].enabled);
    // The operator disables one; a rescan finds a new file and loses one.
    first[0].toggle();
    let rescanned = hzrd::config::merge_exploits(
        &first,
        &vec![b"x/a.py".to_vec(), b"x/c.py".to_vec()],
    );
    assert_eq!(rescanned.len(), 2);
    assert_eq!(rescanned[0].name, b"a.py".to_vec());
    assert!(!rescanned[0].enabled, "the disabled exploit stays disabled");
    assert_eq!(rescanned[1].name, b"c.py".to_vec());
    assert!(rescanned[1].enabled, "a newly found exploit starts enabled");
}

#[test]
fn toggling_twice_restores_an_exploit() {
    let mut info = ExploitInfo::new(b"a/b.py".to_vec());
    info.toggle();
    assert!(!info.enabled);
    info.toggle();
    assert!(info.enabled);
}

#[test]
fn log_buffer_keeps_newest_first() {
    let mut logs = LogManager::new();
    logs.process_new_logs(vec![b"one".to_vec(), b"two".to_vec()]);
    assert_eq!(logs.latest_message(), Some(&b"two".to_vec()));
    logs.process_new_logs(vec![b"three".to_vec()]);
    assert_eq!(logs.latest_message(), Some(&b"three".to_vec()));
    assert_eq!(logs.messages, vec![b"three".to_vec(), b"two".to_vec(), b"one".to_vec()]);
    logs.clear();
    assert!(logs.latest_message().is_none());
}

#[test]
fn log_buffer_caps_at_a_thousand() {
    let mut logs = LogManager::new();
    let batch: Vec<Vec<u8>> = (0..1100u64)
        .map(|i| format!("line {i}").into_bytes())
        .collect();
    logs.process_new_logs(batch);
    assert_eq!(logs.messages.len(), 1000);
    // The newest line is first; the oldest hundred fell off.
    assert_eq!(logs.messages[0], b"line 1099".to_vec());
    assert_eq!(logs.messages[999], b"line 100".to_vec());
}

#[test]
fn scrolling_stays_inside_the_buffer() {
    let mut logs = LogManager::new();
    logs.process_new_logs(vec![b"a".to_vec(), b"b".to_vec(), b"c".to_vec()]);
    logs.scroll_down(10);
    assert_eq!(logs.scroll_position, 2);
    logs.scroll_up(1);
    assert_eq!(logs.scroll_position, 1);
    logs.scroll_up(10);
    assert_eq!(logs.scroll_position, 0);
    logs.scroll_up(10);
    assert_eq!(logs.scroll_position, 0);
}

fn team_row(status: AttackState) -> TeamStatus {
    let mut row = TeamStatus::from_team(b"one", &Team { ip: 0x0A000001, nop: None });
    row.status = status;
    row
}

#[test]
fn team_rows_format_their_address() {
    let row = TeamStatus::from_team(b"one", &Team { ip: 0x0A000001, nop: None });
    assert_eq!(row.ip, b"10.0.0.1".to_vec());
    assert!(matches!(row.status, AttackState::Idle));
}

#[test]
fn status_bar_reports_attacking_first() {
    let mut bar = StatusBar::new();
    assert_eq!(bar.message, b"Idle - Ready to attack".to_vec());
    let teams = vec![
        team_row(AttackState::Attacking),
        team_row(AttackState::Submitting(Vec::new())),
        team_row(AttackState::Idle),
    ];
    bar.update_from_teams(&teams);
    assert_eq!(bar.message, b"Attacking 1 teams".to_vec());
    assert_eq!(bar.status_type, StatusType::Attacking);
}

#[test]
fn status_bar_reports_completion_and_mixed_states() {
    let mut bar = StatusBar::new();
    let done = vec![team_row(AttackState::Success(1000)), team_row(AttackState::Success(0))];
    bar.update_from_teams(&done);
    assert_eq!(bar.message, b"All attacks completed successfully".to_vec());
    assert_eq!(bar.status_type, StatusType::Success);

    let mixed = vec![team_row(AttackState::Success(1000)), team_row(AttackState::Idle)];
    bar.update_from_teams(&mixed);
    assert_eq!(
        bar.message,
        b"Mixed state: 1 idle, 0 attacking, 0 submitting, 1 completed".to_vec()
    );
    assert_eq!(bar.status_type, StatusType::Idle);

    let errored = vec![team_row(AttackState::Errored(Vec::new()))];
    bar.update_from_teams(&errored);
    assert_eq!(bar.message, b"Idle - Ready to attack".to_vec());
    assert_eq!(bar.status_type, StatusType::Idle);
}

#[test]
fn settings_selection_wraps() {
    let mut settings = SettingsState::default();
    assert_eq!(settings.selected, Some(0));
    settings.previous();
    assert_eq!(settings.selected, Some(4));
    settings.next();
    assert_eq!(settings.selected, Some(0));
    settings.next();
    assert_eq!(settings.selected, Some(1));
}

#[test]
fn editing_a_setting_seeds_and_applies() {
    let mut settings = SettingsState::default();
    let mut attacker = attacker_config();
    let mut submitter = None;
    let mut errors: Vec<AttackError> = Vec::new();

    // Enable submission: the default submitter appears.
    settings.selected = Some(2);
    settings.start_edit(&attacker, &submitter);
    assert!(settings.editing);
    assert_eq!(settings.edit_value, b"disabled".to_vec());
    settings.edit_value = b"Enabled".to_vec();
    settings.apply_edit(&mut attacker, &mut submitter, &mut errors, true);
    assert!(!settings.editing);
    assert!(errors.is_empty());
    let cfg = submitter.as_ref().expect("submission is now enabled");
    assert_eq!(cfg.kind, SubmitterType::Tcp);
    assert_eq!(cfg.mode, SubmitMode::Batch);
    assert_eq!(cfg.database.file, b"flags.sqlite".to_vec());

    // Switch the protocol.
    settings.selected = Some(3);
    settings.start_edit(&attacker, &submitter);
    assert_eq!(settings.edit_value, b"tcp".to_vec());
    settings.edit_value = b"HTTP".to_vec();
    settings.apply_edit(&mut attacker, &mut submitter, &mut errors, true);
    assert_eq!(submitter.as_ref().unwrap().kind, SubmitterType::Http);

    // Switch the mode.
    settings.selected = Some(4);
    settings.edit_value = b"grouped".to_vec();
    settings.apply_edit(&mut attacker, &mut submitter, &mut errors, true);
    assert_eq!(submitter.as_ref().unwrap().mode, SubmitMode::Grouped);
    assert!(errors.is_empty());
}

#[test]
fn bad_edits_report_instead_of_applying() {
    let mut settings = SettingsState::default();
    let mut attacker = attacker_config();
    let mut submitter = None;
    let mut errors: Vec<AttackError> = Vec::new();

    // A pattern that does not compile is refused.
    settings.selected = Some(1);
    settings.edit_value = b"[".to_vec();
    settings.apply_edit(&mut attacker, &mut submitter, &mut errors, true);
    assert_eq!(attacker.flag, b"[0-9A-Z]{31}=".to_vec());
    assert_eq!(errors.len(), 1);
    match &errors[0] {
        AttackError::Other(m) => {
            assert_eq!(String::from_utf8(m.clone()).unwrap(), "Invalid regex: [")
        }
        _ => panic!("a bad pattern reports an error"),
    }

    // A missing path is refused.
    settings.selected = Some(0);
    settings.edit_value = b"/no/such/dir".to_vec();
    settings.apply_edit(&mut attacker, &mut submitter, &mut errors, false);
    assert_eq!(attacker.exploit, b"exploits".to_vec());
    assert_eq!(errors.len(), 2);

    // Setting the mode with submission disabled is refused.
    settings.selected = Some(4);
    settings.edit_value = b"batch".to_vec();
    settings.apply_edit(&mut attacker, &mut submitter, &mut errors, true);
    assert!(submitter.is_none());
    assert_eq!(errors.len(), 3);
    match &errors[2] {
        AttackError::Other(m) => assert_eq!(
            String::from_utf8(m.clone()).unwrap(),
            "Cannot set submit mode when submission is disabled"
        ),
        _ => panic!("a disabled submitter reports an error"),
    }
}

#[test]
fn keystrokes_edit_the_value() {
    let mut settings = SettingsState::default();
    settings.editing = true;
    settings.handle_edit_input(b't');
    settings.handle_edit_input(b'c');
    settings.handle_edit_input(b'p');
    assert_eq!(settings.edit_value, b"tcp".to_vec());
    settings.handle_edit_input(0x7f);
    assert_eq!(settings.edit_value, b"tc".to_vec());
    settings.handle_edit_input(b'\n');
    assert_eq!(settings.edit_value, b"tc".to_vec());
}
