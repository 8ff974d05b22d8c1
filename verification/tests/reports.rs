use gerrit_faster::container::Container;
use gerrit_faster::data::{AccountInfo, ApprovalInfo, ChangeInfo, ChangeStatus, LabelInfo};
use gerrit_faster::report::{
    changes_by_owner_repo, changes_by_owner_time, report_by_owner_repo, report_by_owner_time,
    report_by_repo, report_by_time, sort_ids, sort_texts, TimeInterval,
};
use gerrit_faster::status::NextStepOwner;

const BOT: &str = "jenkins-openbmc-ci";
const NOW: i64 = 2_000_000_000;

fn community_change(id: u64, project: &str, owner: &str, updated: i64) -> ChangeInfo {
    ChangeInfo {
        id: format!("{}~main~Irep{}", project, id),
        id_number: id,
        change_id: format!("Irep{}", id),
        project: project.to_string(),
        branch: "main".to_string(),
        subject: "Fix a bug".to_string(),
        owner: AccountInfo { username: owner.to_string() },
        created: updated,
        updated,
        status: ChangeStatus::New,
        work_in_progress: false,
        mergeable: true,
        unresolved_comment_count: 0,
        labels: vec![(
            "Verified".to_string(),
            LabelInfo(vec![ApprovalInfo { username: BOT.to_string(), value: 2 }]),
        )],
        submit_records: vec![],
    }
}

fn failing_change(id: u64, project: &str, owner: &str, updated: i64) -> ChangeInfo {
    let mut change = community_change(id, project, owner, updated);
    change.labels = vec![(
        "Verified".to_string(),
        LabelInfo(vec![ApprovalInfo { username: BOT.to_string(), value: -1 }]),
    )];
    change
}

fn expected_table(rows: Vec<Vec<String>>) -> String {
    let mut table = comfy_table::Table::new();
    table
        .load_preset(comfy_table::presets::UTF8_FULL)
        .apply_modifier(comfy_table::modifiers::UTF8_ROUND_CORNERS)
        .set_header(vec!["", "Community", "Maintainers", "Author"]);
    for row in rows {
        table.add_row(row);
    }
    table.to_string()
}

fn row(label: &str, c: u64, m: u64, a: u64) -> Vec<String> {
    vec![label.to_string(), c.to_string(), m.to_string(), a.to_string()]
}

#[test]
fn exact_day_boundary_falls_into_the_72_hour_bucket() {
    assert_eq!(
        TimeInterval::from_timestamp(NOW, NOW - 86400),
        TimeInterval::Under72Hours
    );
    assert_eq!(
        TimeInterval::from_timestamp(NOW, NOW - 86399),
        TimeInterval::Under24Hours
    );
}

#[test]
fn bucket_thresholds_match_their_units() {
    assert_eq!(
        TimeInterval::from_timestamp(NOW, NOW),
        TimeInterval::Under24Hours
    );
    // 30 hours is under 72 hours, not under 24
    assert_eq!(
        TimeInterval::from_timestamp(NOW, NOW - 30 * 3600),
        TimeInterval::Under72Hours
    );
    assert_eq!(
        TimeInterval::from_timestamp(NOW, NOW - 259200),
        TimeInterval::Under2Weeks
    );
    assert_eq!(
        TimeInterval::from_timestamp(NOW, NOW - 1209600),
        TimeInterval::Under8Weeks
    );
    assert_eq!(
        TimeInterval::from_timestamp(NOW, NOW - 4838400),
        TimeInterval::Over8Weeks
    );
    // a timestamp in the future counts as fresh
    assert_eq!(
        TimeInterval::from_timestamp(NOW, NOW + 50),
        TimeInterval::Under24Hours
    );
}

#[test]
fn aggregation_buckets_count_and_sort() {
    let mut store = Container::new();
    store.set(community_change(5, "openbmc/qemu", "alice", NOW - 3600));
    store.set(community_change(3, "openbmc/qemu", "alice", NOW - 3700));
    store.set(community_change(9, "openbmc/linux", "bob", NOW - 100_000));
    store.set(failing_change(7, "openbmc/qemu", "alice", NOW - 3800));
    let agg = changes_by_owner_time(&store, NOW, None, None);
    assert_eq!(
        agg.get_count(TimeInterval::Under24Hours, NextStepOwner::Community),
        2
    );
    assert_eq!(
        agg.get_changes(TimeInterval::Under24Hours, NextStepOwner::Community),
        vec![3, 5]
    );
    assert_eq!(
        agg.get_count(TimeInterval::Under72Hours, NextStepOwner::Community),
        1
    );
    assert_eq!(
        agg.get_count(TimeInterval::Under24Hours, NextStepOwner::Author),
        1
    );
    assert_eq!(
        agg.get_changes(TimeInterval::Under24Hours, NextStepOwner::Author),
        vec![7]
    );
}

#[test]
fn project_filter_is_an_exact_match() {
    let mut store = Container::new();
    store.set(community_change(1, "openbmc/qemu", "alice", NOW - 3600));
    store.set(community_change(2, "openbmc/linux", "alice", NOW - 3600));
    let agg = changes_by_owner_time(&store, NOW, Some("openbmc/qemu".to_string()), None);
    assert_eq!(
        agg.get_changes(TimeInterval::Under24Hours, NextStepOwner::Community),
        vec![1]
    );
    let none = changes_by_owner_time(&store, NOW, Some("openbmc".to_string()), None);
    assert_eq!(
        none.get_count(TimeInterval::Under24Hours, NextStepOwner::Community),
        0
    );
}

#[test]
fn author_filter_is_an_exact_match() {
    let mut store = Container::new();
    store.set(community_change(1, "openbmc/qemu", "alice", NOW - 3600));
    store.set(community_change(2, "openbmc/qemu", "bob", NOW - 3600));
    let agg = changes_by_owner_time(&store, NOW, None, Some("bob".to_string()));
    assert_eq!(
        agg.get_changes(TimeInterval::Under24Hours, NextStepOwner::Community),
        vec![2]
    );
}

#[test]
fn by_time_report_renders_the_counts() {
    let mut store = Container::new();
    store.set(community_change(1, "openbmc/qemu", "alice", NOW - 3600));
    store.set(community_change(2, "openbmc/qemu", "alice", NOW - 100_000));
    store.set(failing_change(3, "openbmc/qemu", "alice", NOW - 2_000_000));
    let agg = changes_by_owner_time(&store, NOW, None, None);
    let rendered = report_by_owner_time(&agg);
    let expected = expected_table(vec![
        row("<24 hours", 1, 0, 0),
        row("<72 hours", 1, 0, 0),
        row("<2 weeks", 0, 0, 0),
        row("<8 weeks", 0, 0, 1),
        row(">8 weeks", 0, 0, 0),
    ]);
    assert_eq!(rendered, expected);
    assert_eq!(report_by_time(&store, NOW, None, None), expected);
}

#[test]
fn by_repo_report_sorts_the_repositories() {
    let mut store = Container::new();
    store.set(community_change(1, "openbmc/qemu", "alice", NOW - 3600));
    store.set(community_change(2, "openbmc/linux", "alice", NOW - 3600));
    store.set(failing_change(3, "openbmc/linux", "bob", NOW - 3600));
    let agg = changes_by_owner_repo(&store, None);
    let mut repos = agg.get_repos();
    repos.sort();
    assert_eq!(repos, vec!["openbmc/linux".to_string(), "openbmc/qemu".to_string()]);
    let rendered = report_by_owner_repo(&agg);
    let expected = expected_table(vec![
        row("openbmc/linux", 1, 0, 1),
        row("openbmc/qemu", 1, 0, 0),
    ]);
    assert_eq!(rendered, expected);
    assert_eq!(report_by_repo(&store, None), expected);
}

#[test]
fn by_repo_report_honours_the_author_filter() {
    let mut store = Container::new();
    store.set(community_change(1, "openbmc/qemu", "alice", NOW - 3600));
    store.set(failing_change(2, "openbmc/linux", "bob", NOW - 3600));
    let expected = expected_table(vec![row("openbmc/linux", 0, 0, 1)]);
    assert_eq!(report_by_repo(&store, Some("bob".to_string())), expected);
}

#[test]
fn sorting_helpers_order_their_input() {
    assert_eq!(sort_ids(&vec![5, 1, 4, 1, 3]), vec![1, 1, 3, 4, 5]);
    assert_eq!(sort_ids(&vec![]), Vec::<u64>::new());
    assert_eq!(
        sort_texts(vec!["pear".to_string(), "apple".to_string(), "fig".to_string()]),
        vec!["apple".to_string(), "fig".to_string(), "pear".to_string()]
    );
}
