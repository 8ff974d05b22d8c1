use gerrit_faster::container::Container;
use gerrit_faster::data::{AccountInfo, ApprovalInfo, ChangeInfo, ChangeStatus, LabelInfo};
use gerrit_faster::status::ReviewState;

fn open_change(id: u64, cid: &str, updated: i64) -> ChangeInfo {
    ChangeInfo {
        id: format!("openbmc%2Fqemu~main~{}", cid),
        id_number: id,
        change_id: cid.to_string(),
        project: "openbmc/qemu".to_string(),
        branch: "main".to_string(),
        subject: "Fix a bug".to_string(),
        owner: AccountInfo { username: "alice".to_string() },
        created: 1_700_000_000,
        updated,
        status: ChangeStatus::New,
        work_in_progress: false,
        mergeable: true,
        unresolved_comment_count: 0,
        labels: vec![],
        submit_records: vec![],
    }
}

const BOT: &str = "jenkins-openbmc-ci";

fn with_failing_ci(mut change: ChangeInfo) -> ChangeInfo {
    change.labels = vec![(
        "Verified".to_string(),
        LabelInfo(vec![ApprovalInfo { username: BOT.to_string(), value: -1 }]),
    )];
    change
}

#[test]
fn set_tracks_an_open_change() {
    let mut store = Container::new();
    store.set(open_change(1, "Iaaa", 1000));
    let entry = store.get(1).expect("tracked");
    assert_eq!(entry.change.id_number, 1);
    assert_eq!(entry.review_state, ReviewState::MissingCI);
    assert_eq!(entry.review_state_updated, 1000);
}

#[test]
fn merged_change_is_dropped_not_classified() {
    let mut store = Container::new();
    store.set(open_change(1, "Iaaa", 1000));
    let mut merged = open_change(1, "Iaaa", 2000);
    merged.status = ChangeStatus::Merged;
    store.set(merged);
    assert!(store.get(1).is_none());
    assert!(store.get_by_change_id(&"Iaaa".to_string()).is_none());
}

#[test]
fn work_in_progress_change_is_dropped() {
    let mut store = Container::new();
    store.set(open_change(2, "Ibbb", 1000));
    let mut wip = open_change(2, "Ibbb", 2000);
    wip.work_in_progress = true;
    store.set(wip);
    assert!(store.get(2).is_none());
}

#[test]
fn timestamp_kept_when_variant_unchanged() {
    let mut store = Container::new();
    store.set(open_change(3, "Iccc", 1000));
    let mut second = open_change(3, "Iccc", 5000);
    second.subject = "Fix a bug, v2".to_string();
    store.set(second);
    let entry = store.get(3).expect("tracked");
    assert_eq!(entry.review_state, ReviewState::MissingCI);
    assert_eq!(entry.review_state_updated, 1000);
    assert_eq!(entry.change.updated, 5000);
}

#[test]
fn timestamp_reset_when_variant_changes() {
    let mut store = Container::new();
    store.set(open_change(4, "Iddd", 1000));
    let second = with_failing_ci(open_change(4, "Iddd", 5000));
    store.set(second);
    let entry = store.get(4).expect("tracked");
    assert_eq!(entry.review_state, ReviewState::FailingCI);
    assert_eq!(entry.review_state_updated, 5000);
}

#[test]
fn payload_change_within_variant_keeps_timestamp() {
    let mut store = Container::new();
    let mut first = open_change(5, "Ieee", 1000);
    first.labels = vec![(
        "Verified".to_string(),
        LabelInfo(vec![ApprovalInfo { username: BOT.to_string(), value: 2 }]),
    )];
    first.unresolved_comment_count = 1;
    store.set(first);
    let mut second = open_change(5, "Ieee", 9000);
    second.labels = vec![(
        "Verified".to_string(),
        LabelInfo(vec![ApprovalInfo { username: BOT.to_string(), value: 2 }]),
    )];
    second.unresolved_comment_count = 7;
    store.set(second);
    let entry = store.get(5).expect("tracked");
    assert_eq!(entry.review_state, ReviewState::PendingCommentResolution(7));
    assert_eq!(entry.review_state_updated, 1000);
}

#[test]
fn secondary_index_follows_set_and_remove() {
    let mut store = Container::new();
    store.set(open_change(10, "Iten", 1000));
    store.set(open_change(11, "Ieleven", 1000));
    store.set(open_change(12, "Itwelve", 1000));
    store.remove(&open_change(11, "Ieleven", 1000));
    let mut closed = open_change(12, "Itwelve", 2000);
    closed.status = ChangeStatus::Abandoned;
    store.set(closed);

    // every tracked entry maps back to itself through the index
    for entry in &store.changes {
        let via_index = store
            .get_by_change_id(&entry.change.change_id)
            .expect("index entry present");
        assert_eq!(via_index.change.id_number, entry.change.id_number);
    }
    // no index entry points to a missing or mismatched entry
    for (cid, id) in &store.changes_by_id {
        let entry = store.get(*id).expect("primary entry present");
        assert_eq!(&entry.change.change_id, cid);
    }
    assert!(store.get(10).is_some());
    assert!(store.get(11).is_none());
    assert!(store.get(12).is_none());
    assert!(store.get_by_change_id(&"Ieleven".to_string()).is_none());
    assert!(store.get_by_change_id(&"Itwelve".to_string()).is_none());
}

#[test]
fn remove_of_untracked_change_is_a_no_op() {
    let mut store = Container::new();
    store.set(open_change(20, "Itwenty", 1000));
    store.remove(&open_change(21, "Iother", 1000));
    assert!(store.get(20).is_some());
    assert_eq!(store.changes.len(), 1);
    assert_eq!(store.changes_by_id.len(), 1);
}

#[test]
fn lookup_by_text_reads_numbers_and_opaque_ids() {
    let mut store = Container::new();
    store.set(open_change(30, "Ithirty", 1000));
    assert_eq!(
        store
            .lookup_by_text(&"30".to_string())
            .expect("numeric lookup")
            .change
            .id_number,
        30
    );
    assert_eq!(
        store
            .lookup_by_text(&"Ithirty".to_string())
            .expect("opaque lookup")
            .change
            .id_number,
        30
    );
    assert!(store.lookup_by_text(&"31".to_string()).is_none());
    assert!(store.lookup_by_text(&"Imissing".to_string()).is_none());
}
