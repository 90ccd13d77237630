use hzrd::auto::due_for_attack;
use hzrd::auto::tick_wait_duration;
use hzrd::auto::wait_seconds;
use hzrd::config::AttackerLoopConfig;
use hzrd::flag::FlagStatus;
use hzrd::subnet::ipv4_to_bytes;
use hzrd::subnet::subnet_hosts;
use hzrd::subnet::Subnet;
use hzrd::submit::select_client;
use hzrd::submit::SelectedClient;
use hzrd::errors::SubmitError;
use hzrd::config::DatabaseConfig;
use hzrd::config::SubmissionConfig;
use hzrd::config::SubmitMode;
use hzrd::config::SubmitterConfig;
use hzrd::config::SubmitterTCPConfig;
use hzrd::config::SubmitterType;

#[test]
fn addresses_format_as_dotted_quads() {
    assert_eq!(ipv4_to_bytes(0x7F000001), b"127.0.0.1".to_vec());
    assert_eq!(ipv4_to_bytes(0), b"0.0.0.0".to_vec());
    assert_eq!(ipv4_to_bytes(0xFFFFFFFF), b"255.255.255.255".to_vec());
}

#[test]
fn subnets_enumerate_their_hosts() {
    // 10.0.0.0/29 spans eight addresses; six are hosts.
    let hosts = subnet_hosts(Subnet { base: 0x0A000000, prefix: 29 });
    assert_eq!(hosts.len(), 6);
    assert_eq!(hosts[0], 0x0A000001);
    assert_eq!(hosts[5], 0x0A000006);
    // A /31 has no network or broadcast to set aside.
    let pair = subnet_hosts(Subnet { base: 0x0A000000, prefix: 31 });
    assert_eq!(pair, vec![0x0A000000, 0x0A000001]);
    // The host bits of the base are ignored.
    let same = subnet_hosts(Subnet { base: 0x0A000003, prefix: 29 });
    assert_eq!(same[0], 0x0A000001);
}

#[test]
fn first_cycle_never_waits() {
    let cfg = AttackerLoopConfig { every: 120, random: Some(10) };
    assert_eq!(wait_seconds(1, &cfg, 7), 0);
    assert_eq!(wait_seconds(2, &cfg, 7), 127);
    let plain = AttackerLoopConfig { every: 60, random: None };
    assert_eq!(wait_seconds(3, &plain, 0), 60);
}

#[test]
fn drawn_waits_stay_in_the_window() {
    let cfg = AttackerLoopConfig { every: 5, random: Some(3) };
    assert_eq!(hzrd::auto::next_cycle_wait(1, &cfg), 0);
    for _ in 0..20 {
        let wait = hzrd::auto::next_cycle_wait(2, &cfg);
        assert!((5..=8).contains(&wait));
    }
    let plain = AttackerLoopConfig { every: 5, random: None };
    assert_eq!(hzrd::auto::next_cycle_wait(2, &plain), 5);
}

#[test]
fn tick_wait_defaults_to_two_minutes() {
    assert_eq!(tick_wait_duration(None, 999), 120);
    let cfg = AttackerLoopConfig { every: 30, random: Some(10) };
    assert_eq!(tick_wait_duration(Some(&cfg), 25), 35);
    let plain = AttackerLoopConfig { every: 30, random: None };
    assert_eq!(tick_wait_duration(Some(&plain), 25), 30);
    assert!(due_for_attack(35, 35));
    assert!(!due_for_attack(34, 35));
}

fn submitter(kind: SubmitterType, with_tcp: bool) -> SubmitterConfig {
    SubmitterConfig {
        kind,
        database: DatabaseConfig { file: b"flags.sqlite".to_vec() },
        config: SubmissionConfig {
            tcp: if with_tcp {
                Some(SubmitterTCPConfig {
                    host: 0x7F000001,
                    port: 1337,
                    token: b"changeme".to_vec(),
                })
            } else {
                None
            },
            http: None,
        },
        mode: SubmitMode::Batch,
    }
}

#[test]
fn dispatcher_picks_the_configured_client() {
    let cfg = submitter(SubmitterType::Tcp, true);
    match select_client(&cfg) {
        Ok(SelectedClient::Tcp(t)) => assert_eq!(t.port, 1337),
        _ => panic!("the line protocol endpoint is configured"),
    }
    let missing = submitter(SubmitterType::Tcp, false);
    assert!(matches!(select_client(&missing), Err(SubmitError::NoSubmitter)));
    let http_missing = submitter(SubmitterType::Http, true);
    assert!(matches!(select_client(&http_missing), Err(SubmitError::NoSubmitter)));
}

#[test]
fn status_labels_are_their_names() {
    assert_eq!(FlagStatus::Pending.label(), "Pending");
    assert_eq!(FlagStatus::Accepted.label(), "Accepted");
    assert_eq!(FlagStatus::Rejected.label(), "Rejected");
    assert_eq!(FlagStatus::Error.label(), "Error");
}
