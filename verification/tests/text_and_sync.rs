use gerrit_faster::data::{
    AccountInfo, ApprovalInfo, ChangeInfo, ChangeInfoRaw, ChangeStatus, LabelInfo, LabelInfoRaw,
};
use gerrit_faster::gerrit::{prune_magic, Connection};
use gerrit_faster::sync::{
    choose_fetch_mode, seconds_until_reminder, should_abandon_older_than_one_year_and_bad_ci,
    should_abandon_older_than_two_years, FetchMode, ONE_YEAR_SECONDS, TWO_YEARS_SECONDS,
};
use gerrit_faster::text::{parse_u64, u64_to_string};

const BOT: &str = "jenkins-openbmc-ci";

#[test]
fn decimal_rendering_is_exact() {
    assert_eq!(u64_to_string(0), "0");
    assert_eq!(u64_to_string(7), "7");
    assert_eq!(u64_to_string(1234567890), "1234567890");
    assert_eq!(u64_to_string(u64::MAX), "18446744073709551615");
}

#[test]
fn decimal_reading_is_exact() {
    assert_eq!(parse_u64("0"), Some(0));
    assert_eq!(parse_u64("007"), Some(7));
    assert_eq!(parse_u64("18446744073709551615"), Some(u64::MAX));
    assert_eq!(parse_u64("18446744073709551616"), None);
    assert_eq!(parse_u64(""), None);
    assert_eq!(parse_u64("12a"), None);
    assert_eq!(parse_u64("+5"), None);
    assert_eq!(parse_u64("99999999999999999999999"), None);
}

#[test]
fn decimal_round_trip() {
    for x in [0u64, 1, 9, 10, 99, 100, 4096, u64::MAX] {
        assert_eq!(parse_u64(&u64_to_string(x)), Some(x));
    }
}

#[test]
fn magic_prefix_is_pruned() {
    assert_eq!(
        prune_magic(")]}'[1,2,3]".to_string()),
        Some("[1,2,3]".to_string())
    );
    assert_eq!(prune_magic(")]}'".to_string()), Some("".to_string()));
    assert_eq!(prune_magic("[1,2,3]".to_string()), None);
    assert_eq!(prune_magic(")]}".to_string()), None);
    assert_eq!(prune_magic("".to_string()), None);
}

#[test]
fn connection_keeps_its_credentials() {
    let conn = Connection::new("service".to_string(), "SECRET-REDACTED".to_string());
    assert_eq!(conn.get_username(), "service");
    assert_eq!(conn.get_password(), "SECRET-REDACTED");
}

fn raw_change(created: &str, updated: &str) -> ChangeInfoRaw {
    ChangeInfoRaw {
        id: "openbmc%2Fqemu~main~Iraw".to_string(),
        change_id: "Iraw".to_string(),
        _number: 77,
        project: "openbmc/qemu".to_string(),
        branch: "main".to_string(),
        subject: "Fix a bug".to_string(),
        owner: AccountInfo { username: "alice".to_string() },
        created: created.to_string(),
        updated: updated.to_string(),
        status: ChangeStatus::New,
        work_in_progress: false,
        mergeable: true,
        unresolved_comment_count: 2,
        labels: vec![(
            "Verified".to_string(),
            LabelInfoRaw {
                all: vec![ApprovalInfo { username: BOT.to_string(), value: 1 }],
            },
        )],
        submit_records: vec![],
    }
}

#[test]
fn raw_conversion_parses_server_timestamps() {
    let converted = ChangeInfo::from_raw(raw_change(
        "1970-01-01 00:00:10.000000000",
        "2024-01-15 10:30:00.123456789",
    ))
    .expect("well-formed record");
    assert_eq!(converted.created, 10);
    let expected = chrono::NaiveDateTime::parse_from_str(
        "2024-01-15 10:30:00.123456789",
        "%Y-%m-%d %H:%M:%S%.f",
    )
    .unwrap()
    .and_utc()
    .timestamp();
    assert_eq!(converted.updated, expected);
    assert_eq!(converted.id_number, 77);
    assert_eq!(converted.unresolved_comment_count, 2);
    assert_eq!(converted.labels.len(), 1);
    assert_eq!(converted.labels[0].0, "Verified");
    assert_eq!(converted.labels[0].1 .0[0].value, 1);
}

#[test]
fn raw_conversion_rejects_malformed_timestamps() {
    assert!(ChangeInfo::from_raw(raw_change("yesterday", "2024-01-15 10:30:00.0")).is_none());
    assert!(ChangeInfo::from_raw(raw_change("2024-01-15 10:30:00.0", "")).is_none());
}

#[test]
fn label_unwrapping_keeps_the_votes() {
    let raw = LabelInfoRaw {
        all: vec![ApprovalInfo { username: "bob".to_string(), value: -2 }],
    };
    let info = LabelInfo::from_raw(raw);
    assert_eq!(info.0.len(), 1);
    assert_eq!(info.0[0].username, "bob");
    assert_eq!(info.0[0].value, -2);
}

#[test]
fn full_sync_is_due_once_a_day() {
    assert_eq!(choose_fetch_mode(86400, 0), FetchMode::Full);
    assert_eq!(choose_fetch_mode(86399, 0), FetchMode::Incremental);
    assert_eq!(choose_fetch_mode(0, 0), FetchMode::Incremental);
}

#[test]
fn two_year_retirement_is_a_strict_threshold() {
    let now: i64 = 2_000_000_000;
    assert!(should_abandon_older_than_two_years(
        now,
        now - TWO_YEARS_SECONDS - 1
    ));
    assert!(!should_abandon_older_than_two_years(
        now,
        now - TWO_YEARS_SECONDS
    ));
}

fn stale_change(updated: i64, votes: Vec<ApprovalInfo>) -> ChangeInfo {
    ChangeInfo {
        id: "openbmc%2Fqemu~main~Istale".to_string(),
        id_number: 9,
        change_id: "Istale".to_string(),
        project: "openbmc/qemu".to_string(),
        branch: "main".to_string(),
        subject: "Old work".to_string(),
        owner: AccountInfo { username: "alice".to_string() },
        created: updated,
        updated,
        status: ChangeStatus::New,
        work_in_progress: false,
        mergeable: true,
        unresolved_comment_count: 0,
        labels: vec![("Verified".to_string(), LabelInfo(votes))],
        submit_records: vec![],
    }
}

#[test]
fn one_year_retirement_needs_a_bad_ci_vote() {
    let now: i64 = 2_000_000_000;
    let old = now - ONE_YEAR_SECONDS - 1;
    let bad = should_abandon_older_than_one_year_and_bad_ci(
        now,
        &stale_change(old, vec![ApprovalInfo { username: BOT.to_string(), value: -1 }]),
    );
    assert_eq!(bad.map(|v| v.value), Some(-1));
    let passing = should_abandon_older_than_one_year_and_bad_ci(
        now,
        &stale_change(old, vec![ApprovalInfo { username: BOT.to_string(), value: 2 }]),
    );
    assert!(passing.is_none());
    let fresh = should_abandon_older_than_one_year_and_bad_ci(
        now,
        &stale_change(
            now - ONE_YEAR_SECONDS,
            vec![ApprovalInfo { username: BOT.to_string(), value: -1 }],
        ),
    );
    assert!(fresh.is_none());
}

#[test]
fn later_bad_votes_shadow_earlier_ones() {
    let now: i64 = 2_000_000_000;
    let old = now - ONE_YEAR_SECONDS - 1;
    let found = should_abandon_older_than_one_year_and_bad_ci(
        now,
        &stale_change(
            old,
            vec![
                ApprovalInfo { username: BOT.to_string(), value: -1 },
                ApprovalInfo { username: "dave".to_string(), value: -2 },
                ApprovalInfo { username: BOT.to_string(), value: 0 },
            ],
        ),
    );
    assert_eq!(found.map(|v| v.value), Some(0));
}

#[test]
fn reminder_fires_after_the_next_full_hour() {
    assert_eq!(seconds_until_reminder(0), 7201);
    assert_eq!(seconds_until_reminder(3599), 3602);
    assert_eq!(seconds_until_reminder(3600), 7201);
    assert_eq!(seconds_until_reminder(2_000_000_000), 7201 - (2_000_000_000 % 3600));
}
