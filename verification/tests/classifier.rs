use gerrit_faster::data::{
    AccountInfo, ApprovalInfo, ChangeInfo, ChangeStatus, LabelInfo, SubmitRecord,
    SubmitRecordStatus,
};
use gerrit_faster::status::{review_state, NextStepOwner, ReviewState};

fn base_change(id: u64) -> ChangeInfo {
    ChangeInfo {
        id: format!("openbmc%2Fqemu~main~I{:040}", id),
        id_number: id,
        change_id: format!("I{:040}", id),
        project: "openbmc/qemu".to_string(),
        branch: "main".to_string(),
        subject: "Fix a bug".to_string(),
        owner: AccountInfo { username: "alice".to_string() },
        created: 1_700_000_000,
        updated: 1_700_000_000,
        status: ChangeStatus::New,
        work_in_progress: false,
        mergeable: true,
        unresolved_comment_count: 0,
        labels: vec![],
        submit_records: vec![],
    }
}

fn vote(user: &str, value: i64) -> ApprovalInfo {
    ApprovalInfo { username: user.to_string(), value }
}

fn label(name: &str, votes: Vec<ApprovalInfo>) -> (String, LabelInfo) {
    (name.to_string(), LabelInfo(votes))
}

const BOT: &str = "jenkins-openbmc-ci";

#[test]
fn no_verified_votes_is_missing_ci_for_author() {
    let change = base_change(1);
    let state = review_state(&change);
    assert_eq!(state, ReviewState::MissingCI);
    assert_eq!(NextStepOwner::of_state(&state), Some(NextStepOwner::Author));
}

#[test]
fn bot_zero_vote_is_missing_ci() {
    let mut change = base_change(2);
    change.labels = vec![label("Verified", vec![vote(BOT, 0)])];
    assert_eq!(review_state(&change), ReviewState::MissingCI);
}

#[test]
fn failing_ci_precedes_review_checks_and_is_author() {
    let mut change = base_change(3);
    change.labels = vec![label("Verified", vec![vote(BOT, -1)])];
    let state = review_state(&change);
    assert_eq!(state, ReviewState::FailingCI);
    assert_eq!(NextStepOwner::of_state(&state), Some(NextStepOwner::Author));
}

#[test]
fn missing_ci_beats_pending_comments() {
    let mut change = base_change(4);
    change.unresolved_comment_count = 3;
    assert_eq!(review_state(&change), ReviewState::MissingCI);
}

#[test]
fn merge_conflict_after_ci_passes() {
    let mut change = base_change(5);
    change.labels = vec![label("Verified", vec![vote(BOT, 2)])];
    change.mergeable = false;
    assert_eq!(review_state(&change), ReviewState::MergeConflict);
}

#[test]
fn negative_review_from_non_owner_is_pending_feedback() {
    let mut change = base_change(6);
    change.labels = vec![
        label("Verified", vec![vote(BOT, 2)]),
        label("Code-Review", vec![vote("alice", -2), vote("bob", -1)]),
    ];
    assert_eq!(
        review_state(&change),
        ReviewState::PendingFeedback("bob".to_string())
    );
}

#[test]
fn owner_votes_are_skipped_in_feedback_scan() {
    let mut change = base_change(7);
    change.labels = vec![
        label("Verified", vec![vote(BOT, 2)]),
        label("Code-Review", vec![vote("alice", -2)]),
    ];
    change.unresolved_comment_count = 1;
    assert_eq!(review_state(&change), ReviewState::PendingCommentResolution(1));
}

#[test]
fn zero_votes_from_non_owners_is_community_review() {
    let mut change = base_change(8);
    change.labels = vec![
        label("Verified", vec![vote(BOT, 2)]),
        label("Code-Review", vec![vote("bob", 0), vote("carol", 0)]),
    ];
    let state = review_state(&change);
    assert_eq!(state, ReviewState::CommunityReview);
    assert_eq!(NextStepOwner::of_state(&state), Some(NextStepOwner::Community));
}

#[test]
fn maintainer_gate_not_ready_is_maintainer_review() {
    let mut change = base_change(9);
    change.labels = vec![
        label("Verified", vec![vote(BOT, 2)]),
        label("Code-Review", vec![vote("bob", 1)]),
    ];
    change.submit_records = vec![SubmitRecord {
        rule_name: "owners~OwnersSubmitRequirement".to_string(),
        status: SubmitRecordStatus::NotReady,
    }];
    let state = review_state(&change);
    assert_eq!(state, ReviewState::MaintainerReview);
    assert_eq!(
        NextStepOwner::of_state(&state),
        Some(NextStepOwner::Maintainer)
    );
}

#[test]
fn maintainer_gate_satisfied_is_ready_to_submit() {
    let mut change = base_change(10);
    change.labels = vec![
        label("Verified", vec![vote(BOT, 2)]),
        label("Code-Review", vec![vote("bob", 2)]),
    ];
    change.submit_records = vec![SubmitRecord {
        rule_name: "owners~OwnersSubmitRequirement".to_string(),
        status: SubmitRecordStatus::Satisfied,
    }];
    let state = review_state(&change);
    assert_eq!(state, ReviewState::ReadyToSubmit);
    assert_eq!(
        NextStepOwner::of_state(&state),
        Some(NextStepOwner::Maintainer)
    );
}

#[test]
fn indecisive_gate_records_are_passed_over() {
    let mut change = base_change(11);
    change.labels = vec![
        label("Verified", vec![vote(BOT, 2)]),
        label("Code-Review", vec![vote("bob", 2)]),
    ];
    change.submit_records = vec![
        SubmitRecord {
            rule_name: "owners~OwnersSubmitRequirement".to_string(),
            status: SubmitRecordStatus::RuleError,
        },
        SubmitRecord {
            rule_name: "owners~OwnersSubmitRequirement".to_string(),
            status: SubmitRecordStatus::Satisfied,
        },
    ];
    assert_eq!(review_state(&change), ReviewState::ReadyToSubmit);
}

#[test]
fn exhausted_chain_is_unknown_and_has_no_owner() {
    let mut change = base_change(12);
    change.labels = vec![
        label("Verified", vec![vote(BOT, 2)]),
        label("Code-Review", vec![vote("bob", 1)]),
    ];
    let state = review_state(&change);
    assert_eq!(state, ReviewState::Unknown);
    assert_eq!(NextStepOwner::of_state(&state), None);
}

#[test]
fn first_bot_vote_decides_pending_ci() {
    let mut change = base_change(13);
    change.labels = vec![label(
        "Verified",
        vec![vote("dave", -1), vote(BOT, 0), vote(BOT, 2)],
    )];
    assert_eq!(review_state(&change), ReviewState::MissingCI);
}

#[test]
fn describe_names_the_state() {
    assert_eq!(ReviewState::MissingCI.describe(), "Missing CI");
    assert_eq!(
        ReviewState::PendingFeedback("bob".to_string()).describe(),
        "Pending Feedback to be Addressed (by bob)"
    );
    assert_eq!(
        ReviewState::PendingCommentResolution(12).describe(),
        "Pending Comment(s) to be Addressed (12 pending)"
    );
    assert_eq!(ReviewState::ReadyToSubmit.describe(), "Ready to Submit");
}

#[test]
fn same_variant_ignores_payload() {
    let a = ReviewState::PendingFeedback("bob".to_string());
    let b = ReviewState::PendingFeedback("carol".to_string());
    assert!(a.same_variant(&b));
    assert!(!a.same_variant(&ReviewState::MissingCI));
    assert!(ReviewState::PendingCommentResolution(1)
        .same_variant(&ReviewState::PendingCommentResolution(9)));
}
