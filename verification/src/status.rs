//! The classifier: derives the blocking state of a change from its record.
//!
//! A fixed, ordered chain of checks runs over the record; the first check
//! that answers anything other than `Unknown` decides. The order is a
//! priority: continuous-integration problems come first, then merge
//! conflicts, then feedback the author must answer, then unresolved
//! comments, then the absence of any review, and last the maintainer gate.

use crate::data::{ApprovalInfo, ChangeInfo, LabelInfo, SubmitRecord, SubmitRecordStatus};
use crate::text::spec_decimal;
use crate::text::u64_to_string;
use vstd::prelude::*;

verus! {

/// The blocking state of a change. Exactly one variant holds at a time.
#[derive(Clone, Debug, PartialEq)]
pub enum ReviewState {
    Unknown,
    MissingCI,
    FailingCI,
    MergeConflict,
    PendingFeedback(String),
    PendingCommentResolution(u64),
    CommunityReview,
    MaintainerReview,
    ReadyToSubmit,
}

/// Which party must act next to unblock a change.
#[derive(Clone, Copy, Debug, PartialEq, Eq, Structural)]
pub enum NextStepOwner {
    Author,
    Community,
    Maintainer,
}

/// The account under which continuous integration votes.
pub open spec fn spec_ci_bot() -> Seq<char> {
    "jenkins-openbmc-ci"@
}

/// The submit requirement that encodes the maintainer-ownership gate.
pub open spec fn spec_owners_rule() -> Seq<char> {
    "owners~OwnersSubmitRequirement"@
}

/// The votes of the first label with the given name; an absent label has
/// no votes.
pub open spec fn spec_label_votes(labels: Seq<(String, LabelInfo)>, name: Seq<char>) -> Seq<
    ApprovalInfo,
>
    decreases labels.len(),
{
    if labels.len() == 0 {
        Seq::empty()
    } else if labels[0].0@ == name {
        labels[0].1.0@
    } else {
        spec_label_votes(labels.drop_first(), name)
    }
}

/// The first vote on the list cast by the continuous-integration account.
pub open spec fn spec_first_bot_vote(votes: Seq<ApprovalInfo>) -> Option<ApprovalInfo>
    decreases votes.len(),
{
    if votes.len() == 0 {
        None
    } else if votes[0].username@ == spec_ci_bot() {
        Some(votes[0])
    } else {
        spec_first_bot_vote(votes.drop_first())
    }
}

/// The first negative vote cast by someone other than the change's owner.
pub open spec fn spec_first_negative_review(votes: Seq<ApprovalInfo>, owner: Seq<char>) -> Option<
    ApprovalInfo,
>
    decreases votes.len(),
{
    if votes.len() == 0 {
        None
    } else if votes[0].username@ != owner && votes[0].value < 0 {
        Some(votes[0])
    } else {
        spec_first_negative_review(votes.drop_first(), owner)
    }
}

/// Whether anyone other than the owner has cast a nonzero vote.
pub open spec fn spec_has_nonzero_review(votes: Seq<ApprovalInfo>, owner: Seq<char>) -> bool {
    exists|i: int| 0 <= i < votes.len() && votes[i].username@ != owner && votes[i].value != 0
}

/// The first submit record that names the maintainer gate with a decisive
/// status; records with the right name and an indecisive status are
/// passed over.
pub open spec fn spec_first_decisive_record(records: Seq<SubmitRecord>) -> Option<SubmitRecord>
    decreases records.len(),
{
    if records.len() == 0 {
        None
    } else if records[0].rule_name@ == spec_owners_rule() && (records[0].status
        is NotReady || records[0].status is Satisfied) {
        Some(records[0])
    } else {
        spec_first_decisive_record(records.drop_first())
    }
}

/// The missing-CI check: the bot never voted on "Verified", or voted zero.
pub open spec fn spec_pending_ci(c: ChangeInfo) -> ReviewState {
    match spec_first_bot_vote(spec_label_votes(c.labels@, "Verified"@)) {
        None => ReviewState::MissingCI,
        Some(v) => if v.value == 0 {
            ReviewState::MissingCI
        } else {
            ReviewState::Unknown
        },
    }
}

/// The failing-CI check: the bot's vote on "Verified" is negative.
pub open spec fn spec_failing_ci(c: ChangeInfo) -> ReviewState {
    match spec_first_bot_vote(spec_label_votes(c.labels@, "Verified"@)) {
        None => ReviewState::Unknown,
        Some(v) => if v.value < 0 {
            ReviewState::FailingCI
        } else {
            ReviewState::Unknown
        },
    }
}

/// The merge-conflict check.
pub open spec fn spec_merge_conflicts(c: ChangeInfo) -> ReviewState {
    if !c.mergeable {
        ReviewState::MergeConflict
    } else {
        ReviewState::Unknown
    }
}

/// The pending-feedback check: someone other than the owner voted
/// negatively on "Code-Review".
pub open spec fn spec_pending_feedback(c: ChangeInfo) -> ReviewState {
    match spec_first_negative_review(
        spec_label_votes(c.labels@, "Code-Review"@),
        c.owner.username@,
    ) {
        None => ReviewState::Unknown,
        Some(v) => ReviewState::PendingFeedback(v.username),
    }
}

/// The pending-comments check.
pub open spec fn spec_pending_comments(c: ChangeInfo) -> ReviewState {
    if c.unresolved_comment_count != 0 {
        ReviewState::PendingCommentResolution(c.unresolved_comment_count)
    } else {
        ReviewState::Unknown
    }
}

/// The no-reviews check: nobody but the owner has cast a nonzero
/// "Code-Review" vote.
pub open spec fn spec_no_reviews(c: ChangeInfo) -> ReviewState {
    if spec_has_nonzero_review(spec_label_votes(c.labels@, "Code-Review"@), c.owner.username@) {
        ReviewState::Unknown
    } else {
        ReviewState::CommunityReview
    }
}

/// The maintainer gate: the ownership requirement is not ready, or is
/// satisfied.
pub open spec fn spec_missing_maintainer_review(c: ChangeInfo) -> ReviewState {
    match spec_first_decisive_record(c.submit_records@) {
        None => ReviewState::Unknown,
        Some(r) => if r.status is NotReady {
            ReviewState::MaintainerReview
        } else {
            ReviewState::ReadyToSubmit
        },
    }
}

/// The full chain, first decisive check wins.
pub open spec fn spec_review_state(c: ChangeInfo) -> ReviewState {
    let s1 = spec_pending_ci(c);
    if s1 !is Unknown {
        s1
    } else {
        let s2 = spec_failing_ci(c);
        if s2 !is Unknown {
            s2
        } else {
            let s3 = spec_merge_conflicts(c);
            if s3 !is Unknown {
                s3
            } else {
                let s4 = spec_pending_feedback(c);
                if s4 !is Unknown {
                    s4
                } else {
                    let s5 = spec_pending_comments(c);
                    if s5 !is Unknown {
                        s5
                    } else {
                        let s6 = spec_no_reviews(c);
                        if s6 !is Unknown {
                            s6
                        } else {
                            spec_missing_maintainer_review(c)
                        }
                    }
                }
            }
        }
    }
}

/// Whether two states are the same variant, with payloads ignored.
pub open spec fn spec_same_variant(a: ReviewState, b: ReviewState) -> bool {
    match a {
        ReviewState::Unknown => b is Unknown,
        ReviewState::MissingCI => b is MissingCI,
        ReviewState::FailingCI => b is FailingCI,
        ReviewState::MergeConflict => b is MergeConflict,
        ReviewState::PendingFeedback(_) => b is PendingFeedback,
        ReviewState::PendingCommentResolution(_) => b is PendingCommentResolution,
        ReviewState::CommunityReview => b is CommunityReview,
        ReviewState::MaintainerReview => b is MaintainerReview,
        ReviewState::ReadyToSubmit => b is ReadyToSubmit,
    }
}

/// The description of a state, as shown to people.
pub open spec fn spec_describe(s: ReviewState) -> Seq<char> {
    match s {
        ReviewState::Unknown => "Unknown"@,
        ReviewState::MissingCI => "Missing CI"@,
        ReviewState::FailingCI => "Failing CI"@,
        ReviewState::MergeConflict => "Merge Conflicts to be Resolved"@,
        ReviewState::PendingFeedback(u) => "Pending Feedback to be Addressed (by "@ + u@ + ")"@,
        ReviewState::PendingCommentResolution(n) => "Pending Comment(s) to be Addressed ("@
            + spec_decimal(n as nat) + " pending)"@,
        ReviewState::CommunityReview => "Awaiting Community Review"@,
        ReviewState::MaintainerReview => "Awaiting Maintainer Review"@,
        ReviewState::ReadyToSubmit => "Ready to Submit"@,
    }
}

impl ReviewState {
    /// Variant equality; see `spec_same_variant`.
    pub fn same_variant(&self, other: &ReviewState) -> (r: bool)
        ensures
            r == spec_same_variant(*self, *other),
    {
        match self {
            ReviewState::Unknown => matches!(other, ReviewState::Unknown),
            ReviewState::MissingCI => matches!(other, ReviewState::MissingCI),
            ReviewState::FailingCI => matches!(other, ReviewState::FailingCI),
            ReviewState::MergeConflict => matches!(other, ReviewState::MergeConflict),
            ReviewState::PendingFeedback(_) => matches!(other, ReviewState::PendingFeedback(_)),
            ReviewState::PendingCommentResolution(_) => matches!(
                other,
                ReviewState::PendingCommentResolution(_),
            ),
            ReviewState::CommunityReview => matches!(other, ReviewState::CommunityReview),
            ReviewState::MaintainerReview => matches!(other, ReviewState::MaintainerReview),
            ReviewState::ReadyToSubmit => matches!(other, ReviewState::ReadyToSubmit),
        }
    }

    /// The description of this state, as shown to people.
    pub fn describe(&self) -> (r: String)
        ensures
            r@ == spec_describe(*self),
    {
        match self {
            ReviewState::Unknown => String::from_str("Unknown"),
            ReviewState::MissingCI => String::from_str("Missing CI"),
            ReviewState::FailingCI => String::from_str("Failing CI"),
            ReviewState::MergeConflict => String::from_str("Merge Conflicts to be Resolved"),
            ReviewState::PendingFeedback(u) => String::from_str(
                "Pending Feedback to be Addressed (by ",
            ).concat(u.as_str()).concat(")"),
            ReviewState::PendingCommentResolution(n) => String::from_str(
                "Pending Comment(s) to be Addressed (",
            ).concat(u64_to_string(*n).as_str()).concat(" pending)"),
            ReviewState::CommunityReview => String::from_str("Awaiting Community Review"),
            ReviewState::MaintainerReview => String::from_str("Awaiting Maintainer Review"),
            ReviewState::ReadyToSubmit => String::from_str("Ready to Submit"),
        }
    }
}

/// Which party must act next. `Unknown` names no party: a change whose
/// state the chain could not decide is excluded from aggregation.
pub open spec fn spec_next_step_owner(s: ReviewState) -> Option<NextStepOwner> {
    match s {
        ReviewState::Unknown => None,
        ReviewState::MissingCI => Some(NextStepOwner::Author),
        ReviewState::FailingCI => Some(NextStepOwner::Author),
        ReviewState::MergeConflict => Some(NextStepOwner::Author),
        ReviewState::PendingFeedback(_) => Some(NextStepOwner::Author),
        ReviewState::PendingCommentResolution(_) => Some(NextStepOwner::Author),
        ReviewState::CommunityReview => Some(NextStepOwner::Community),
        ReviewState::MaintainerReview => Some(NextStepOwner::Maintainer),
        ReviewState::ReadyToSubmit => Some(NextStepOwner::Maintainer),
    }
}

impl NextStepOwner {
    /// The responsible party for a state; see `spec_next_step_owner`.
    pub fn of_state(s: &ReviewState) -> (r: Option<NextStepOwner>)
        ensures
            r == spec_next_step_owner(*s),
    {
        match s {
            ReviewState::Unknown => None,
            ReviewState::MissingCI => Some(NextStepOwner::Author),
            ReviewState::FailingCI => Some(NextStepOwner::Author),
            ReviewState::MergeConflict => Some(NextStepOwner::Author),
            ReviewState::PendingFeedback(_) => Some(NextStepOwner::Author),
            ReviewState::PendingCommentResolution(_) => Some(NextStepOwner::Author),
            ReviewState::CommunityReview => Some(NextStepOwner::Community),
            ReviewState::MaintainerReview => Some(NextStepOwner::Maintainer),
            ReviewState::ReadyToSubmit => Some(NextStepOwner::Maintainer),
        }
    }
}

/// The first label on the list with the given name, if any.
pub(crate) fn find_label<'a>(labels: &'a Vec<(String, LabelInfo)>, name: &String) -> (r: Option<
    &'a LabelInfo,
>)
    ensures
        match r {
            Some(l) => spec_label_votes(labels@, name@) == l.0@,
            None => spec_label_votes(labels@, name@) == Seq::<ApprovalInfo>::empty(),
        },
{
    proof {
        assert(labels@.skip(0) =~= labels@);
    }
    let mut i: usize = 0;
    while i < labels.len()
        invariant
            0 <= i <= labels@.len(),
            spec_label_votes(labels@, name@) == spec_label_votes(labels@.skip(i as int), name@),
        decreases labels@.len() - i,
    {
        if labels[i].0 == *name {
            return Some(&labels[i].1);
        }
        proof {
            assert(labels@.skip(i as int).drop_first() =~= labels@.skip(i as int + 1));
        }
        i = i + 1;
    }
    None
}

/// The first vote on the list cast by the continuous-integration account.
fn find_bot_vote<'a>(votes: &'a Vec<ApprovalInfo>) -> (r: Option<&'a ApprovalInfo>)
    ensures
        match r {
            Some(v) => spec_first_bot_vote(votes@) == Some(*v),
            None => spec_first_bot_vote(votes@) is None,
        },
{
    let bot = String::from_str("jenkins-openbmc-ci");
    proof {
        assert(votes@.skip(0) =~= votes@);
    }
    let mut i: usize = 0;
    while i < votes.len()
        invariant
            0 <= i <= votes@.len(),
            bot@ == spec_ci_bot(),
            spec_first_bot_vote(votes@) == spec_first_bot_vote(votes@.skip(i as int)),
        decreases votes@.len() - i,
    {
        if votes[i].username == bot {
            return Some(&votes[i]);
        }
        proof {
            assert(votes@.skip(i as int).drop_first() =~= votes@.skip(i as int + 1));
        }
        i = i + 1;
    }
    None
}

/// The missing-CI check; see `spec_pending_ci`.
pub fn pending_ci(change: &ChangeInfo) -> (r: ReviewState)
    ensures
        r == spec_pending_ci(*change),
{
    let name = String::from_str("Verified");
    match find_label(&change.labels, &name) {
        Some(label) => match find_bot_vote(&label.0) {
            Some(v) => {
                if v.value == 0 {
                    ReviewState::MissingCI
                } else {
                    ReviewState::Unknown
                }
            },
            None => ReviewState::MissingCI,
        },
        None => ReviewState::MissingCI,
    }
}

/// The failing-CI check; see `spec_failing_ci`.
pub fn failing_ci(change: &ChangeInfo) -> (r: ReviewState)
    ensures
        r == spec_failing_ci(*change),
{
    let name = String::from_str("Verified");
    match find_label(&change.labels, &name) {
        Some(label) => match find_bot_vote(&label.0) {
            Some(v) => {
                if v.value < 0 {
                    ReviewState::FailingCI
                } else {
                    ReviewState::Unknown
                }
            },
            None => ReviewState::Unknown,
        },
        None => ReviewState::Unknown,
    }
}

/// The merge-conflict check; see `spec_merge_conflicts`.
pub fn merge_conflicts(change: &ChangeInfo) -> (r: ReviewState)
    ensures
        r == spec_merge_conflicts(*change),
{
    if !change.mergeable {
        ReviewState::MergeConflict
    } else {
        ReviewState::Unknown
    }
}

/// The pending-feedback check; see `spec_pending_feedback`.
pub fn pending_feedback(change: &ChangeInfo) -> (r: ReviewState)
    ensures
        r == spec_pending_feedback(*change),
{
    let name = String::from_str("Code-Review");
    let votes = match find_label(&change.labels, &name) {
        Some(label) => &label.0,
        None => {
            return ReviewState::Unknown;
        },
    };
    proof {
        assert(votes@.skip(0) =~= votes@);
    }
    let mut i: usize = 0;
    while i < votes.len()
        invariant
            0 <= i <= votes@.len(),
            votes@ == spec_label_votes(change.labels@, "Code-Review"@),
            spec_first_negative_review(votes@, change.owner.username@)
                == spec_first_negative_review(
                votes@.skip(i as int),
                change.owner.username@,
            ),
        decreases votes@.len() - i,
    {
        proof {
            assert(votes@.skip(i as int).drop_first() =~= votes@.skip(i as int + 1));
        }
        if !(votes[i].username == change.owner.username) && votes[i].value < 0 {
            return ReviewState::PendingFeedback(votes[i].username.clone());
        }
        i = i + 1;
    }
    ReviewState::Unknown
}

/// The pending-comments check; see `spec_pending_comments`.
pub fn pending_comments(change: &ChangeInfo) -> (r: ReviewState)
    ensures
        r == spec_pending_comments(*change),
{
    if change.unresolved_comment_count != 0 {
        ReviewState::PendingCommentResolution(change.unresolved_comment_count)
    } else {
        ReviewState::Unknown
    }
}

/// The no-reviews check; see `spec_no_reviews`.
pub fn no_reviews(change: &ChangeInfo) -> (r: ReviewState)
    ensures
        r == spec_no_reviews(*change),
{
    let name = String::from_str("Code-Review");
    let votes = match find_label(&change.labels, &name) {
        Some(label) => &label.0,
        None => {
            return ReviewState::CommunityReview;
        },
    };
    let mut i: usize = 0;
    while i < votes.len()
        invariant
            0 <= i <= votes@.len(),
            votes@ == spec_label_votes(change.labels@, "Code-Review"@),
            forall|j: int|
                0 <= j < i ==> !(votes@[j].username@ != change.owner.username@ && votes@[j].value
                    != 0),
        decreases votes@.len() - i,
    {
        if !(votes[i].username == change.owner.username) && votes[i].value != 0 {
            return ReviewState::Unknown;
        }
        i = i + 1;
    }
    ReviewState::CommunityReview
}

/// The maintainer gate; see `spec_missing_maintainer_review`.
pub fn missing_maintainer_review(change: &ChangeInfo) -> (r: ReviewState)
    ensures
        r == spec_missing_maintainer_review(*change),
{
    let rule = String::from_str("owners~OwnersSubmitRequirement");
    let records = &change.submit_records;
    proof {
        assert(records@.skip(0) =~= records@);
    }
    let mut i: usize = 0;
    while i < records.len()
        invariant
            0 <= i <= records@.len(),
            rule@ == spec_owners_rule(),
            records@ == change.submit_records@,
            spec_first_decisive_record(records@) == spec_first_decisive_record(
                records@.skip(i as int),
            ),
        decreases records@.len() - i,
    {
        proof {
            assert(records@.skip(i as int).drop_first() =~= records@.skip(i as int + 1));
        }
        if records[i].rule_name == rule {
            match records[i].status {
                SubmitRecordStatus::NotReady => {
                    proof {
                        let rest = records@.skip(i as int);
                        assert(rest.len() == records@.len() - i);
                        assert(rest[0] == records@[i as int]);
                        assert(rest[0].rule_name@ == spec_owners_rule());
                        assert(rest[0].status is NotReady);
                        assert(spec_first_decisive_record(rest) == Some(rest[0]));
                        assert(spec_first_decisive_record(records@) == Some(rest[0]));
                    }
                    return ReviewState::MaintainerReview;
                },
                SubmitRecordStatus::Satisfied => {
                    proof {
                        let rest = records@.skip(i as int);
                        assert(rest.len() == records@.len() - i);
                        assert(rest[0] == records@[i as int]);
                        assert(rest[0].rule_name@ == spec_owners_rule());
                        assert(rest[0].status is Satisfied);
                        assert(spec_first_decisive_record(rest) == Some(rest[0]));
                    }
                    return ReviewState::ReadyToSubmit;
                },
                _ => {},
            }
        }
        i = i + 1;
    }
    ReviewState::Unknown
}

/// The full classification of a change: the checks run in their fixed
/// order and the first decisive answer wins.
pub fn review_state(change: &ChangeInfo) -> (r: ReviewState)
    ensures
        r == spec_review_state(*change),
{
    let status = pending_ci(change);
    if !matches!(status, ReviewState::Unknown) {
        return status;
    }
    let status = failing_ci(change);
    if !matches!(status, ReviewState::Unknown) {
        return status;
    }
    let status = merge_conflicts(change);
    if !matches!(status, ReviewState::Unknown) {
        return status;
    }
    let status = pending_feedback(change);
    if !matches!(status, ReviewState::Unknown) {
        return status;
    }
    let status = pending_comments(change);
    if !matches!(status, ReviewState::Unknown) {
        return status;
    }
    let status = no_reviews(change);
    if !matches!(status, ReviewState::Unknown) {
        return status;
    }
    let status = missing_maintainer_review(change);
    if !matches!(status, ReviewState::Unknown) {
        return status;
    }
    ReviewState::Unknown
}

/// The chain is priority-ordered: a record that meets both the missing-CI
/// condition and the pending-comments condition classifies as missing CI.
pub proof fn lemma_missing_ci_takes_priority(c: ChangeInfo)
    requires
        spec_pending_ci(c) == ReviewState::MissingCI,
        c.unresolved_comment_count != 0,
    ensures
        spec_review_state(c) == ReviewState::MissingCI,
{
}

} // verus!
