use gerrit_faster::container::Container;
use gerrit_faster::data::{AccountInfo, ApprovalInfo, ChangeInfo, ChangeStatus, LabelInfo};
use gerrit_faster::discord::{
    format_duration, get_community_review_changes, report_message, review_status_message,
};
use gerrit_faster::report::changes_by_owner_time;
use gerrit_faster::web::{list_of_changes, report_overall, report_project, report_user,
    review_status};

const BOT: &str = "jenkins-openbmc-ci";
const NOW: i64 = 2_000_000_000;

fn community_change(id: u64, project: &str, owner: &str, updated: i64) -> ChangeInfo {
    ChangeInfo {
        id: format!("{}~main~Ipage{}", project, id),
        id_number: id,
        change_id: format!("Ipage{}", id),
        project: project.to_string(),
        branch: "main".to_string(),
        subject: "Fix a bug".to_string(),
        owner: AccountInfo { username: owner.to_string() },
        created: updated,
        updated,
        status: ChangeStatus::New,
        work_in_progress: false,
        mergeable: true,
        unresolved_comment_count: 0,
        labels: vec![(
            "Verified".to_string(),
            LabelInfo(vec![ApprovalInfo { username: BOT.to_string(), value: 2 }]),
        )],
        submit_records: vec![],
    }
}

fn failing_change(id: u64, project: &str, owner: &str, updated: i64) -> ChangeInfo {
    let mut change = community_change(id, project, owner, updated);
    change.labels = vec![(
        "Verified".to_string(),
        LabelInfo(vec![ApprovalInfo { username: BOT.to_string(), value: -1 }]),
    )];
    change
}

#[test]
fn duration_text_is_exact() {
    assert_eq!(format_duration(0), "less than 1 hour");
    assert_eq!(format_duration(3599), "less than 1 hour");
    assert_eq!(format_duration(3600), "1 hour");
    assert_eq!(format_duration(7200), "2 hours");
    assert_eq!(format_duration(86399), "23 hours");
    assert_eq!(format_duration(86400), "1 day");
    assert_eq!(format_duration(172800), "2 days");
    assert_eq!(format_duration(1_000_000), "11 days");
    assert_eq!(format_duration(-5), "less than 1 hour");
}

#[test]
fn status_messages_name_the_change() {
    let mut store = Container::new();
    store.set(community_change(42, "openbmc/qemu", "alice", NOW - 3600));
    assert_eq!(
        review_status_message(&store, &"42".to_string()),
        "Change 42 is Awaiting Community Review."
    );
    assert_eq!(
        review_status_message(&store, &"Ipage42".to_string()),
        "Change Ipage42 is Awaiting Community Review."
    );
    assert_eq!(
        review_status_message(&store, &"41".to_string()),
        "Could not find change: 41"
    );
}

#[test]
fn report_messages_wrap_the_table() {
    let store = Container::new();
    let overall = report_message(&store, NOW, None);
    assert!(overall.starts_with("Overall Status:\n```\n"));
    assert!(overall.ends_with("\n```"));
    let project = report_message(&store, NOW, Some("openbmc/qemu".to_string()));
    assert!(project.starts_with("Project openbmc/qemu:\n```\n"));
}

#[test]
fn reminder_pick_prefers_recent_changes() {
    let mut store = Container::new();
    // two recent community changes, five older ones
    store.set(community_change(1, "openbmc/qemu", "alice", NOW - 3600));
    store.set(community_change(2, "openbmc/qemu", "alice", NOW - 100_000));
    for id in 3..8 {
        store.set(community_change(id, "openbmc/qemu", "alice", NOW - 2_000_000));
    }
    // one change that is not community review at all
    store.set(failing_change(50, "openbmc/qemu", "alice", NOW - 3600));
    let (picked, total) = get_community_review_changes(&store, NOW);
    assert_eq!(total, 7);
    assert_eq!(picked.len(), 5);
    for id in &picked {
        assert!((1..8).contains(id));
    }
    let recent_picked = picked.iter().filter(|id| **id <= 2).count();
    assert_eq!(recent_picked, 2);
}

#[test]
fn reminder_pick_caps_recent_changes_at_four() {
    let mut store = Container::new();
    for id in 1..=6 {
        store.set(community_change(id, "openbmc/qemu", "alice", NOW - 3600));
    }
    let (picked, total) = get_community_review_changes(&store, NOW);
    assert_eq!(total, 6);
    assert_eq!(picked.len(), 4);
}

#[test]
fn change_list_renders_one_card_per_change() {
    let mut store = Container::new();
    store.set(community_change(7, "openbmc/qemu", "alice", NOW - 3600));
    let agg = changes_by_owner_time(&store, NOW, None, None);
    let html = list_of_changes(&agg, &store, false, &vec![]);
    let expected = "\n<h2>\n    <button class=\"twisty\" onclick=\"toggleSection('community')\" aria-label=\"Toggle section\"></button> Community\n</h2>\n<div id=\"community-section\">\n<div class=\"interval-section\">\n<h3 class=\"interval-header\"><24 hours</h3>\n<div class=\"card-container\">\n<div class=\"change-card\">\n<div class=\"project-name\">openbmc/qemu</div>\n<div class=\"subject\">Fix a bug</div>\n<a class=\"gerrit-link\" href=\"https://gerrit.openbmc.org/c/openbmc/qemu/+/7\">View in Gerrit</a>\n</div>\n</div>\n</div>\n</div>\n";
    assert_eq!(html, expected);
}

#[test]
fn change_list_marks_company_changes_and_author_states() {
    let mut store = Container::new();
    store.set(failing_change(8, "openbmc/qemu", "alice", NOW - 3600));
    let agg = changes_by_owner_time(&store, NOW, None, None);
    let without_author = list_of_changes(&agg, &store, false, &vec![8]);
    assert_eq!(without_author, "");
    let with_author = list_of_changes(&agg, &store, true, &vec![8]);
    assert!(with_author.contains("<div class=\"change-card company-change\">"));
    assert!(with_author.contains("<div class=\"review-state\">Failing CI</div>"));
    assert!(with_author.contains("toggleSection('author')"));
}

#[test]
fn overall_page_carries_table_and_list() {
    let mut store = Container::new();
    store.set(community_change(9, "openbmc/qemu", "alice", NOW - 3600));
    let page = report_overall(&store, NOW, &vec![]);
    assert!(page.report_text.contains("Community"));
    assert!(page.changes_text.contains("openbmc/qemu"));
    // the front page hides the authors' section
    assert!(!page.changes_text.contains("toggleSection('author')"));
}

#[test]
fn project_page_filters_to_the_project() {
    let mut store = Container::new();
    store.set(community_change(10, "openbmc/qemu", "alice", NOW - 3600));
    store.set(community_change(11, "openbmc/linux", "alice", NOW - 3600));
    let page = report_project(&store, NOW, "openbmc/linux".to_string(), &vec![]);
    assert_eq!(page.project, "openbmc/linux");
    assert!(page.changes_text.contains("/+/11"));
    assert!(!page.changes_text.contains("/+/10"));
}

#[test]
fn user_page_shows_the_author_section() {
    let mut store = Container::new();
    store.set(failing_change(12, "openbmc/qemu", "carol", NOW - 3600));
    let page = report_user(&store, NOW, "carol".to_string(), &vec![]);
    assert_eq!(page.username, "carol");
    assert!(page.changes_text.contains("toggleSection('author')"));
    assert!(page.changes_text.contains("/+/12"));
}

#[test]
fn status_page_links_to_the_change() {
    let mut store = Container::new();
    store.set(community_change(13, "openbmc/qemu", "alice", NOW - 3600));
    let found = review_status(&store, "13".to_string()).expect("tracked");
    assert_eq!(found.change_id, "13");
    assert_eq!(found.review_status, "Awaiting Community Review");
    assert_eq!(found.gerrit_url, "https://gerrit.openbmc.org/c/openbmc/qemu/+/13");
    let missing = review_status(&store, "14".to_string()).expect_err("untracked");
    assert_eq!(missing.change_id, "14");
}
