//! The data model for a change fetched from the review server: accounts,
//! votes, labels, submit requirements, and the change record itself.
//!
//! A raw record carries its timestamps as text, exactly as the server sends
//! them; a converted record carries them as seconds since the Unix epoch.

use vstd::prelude::*;

verus! {

/// An account on the review server.
#[derive(Clone, Debug)]
pub struct AccountInfo {
    pub username: String,
}

/// One vote cast on a label: who cast it and the score.
#[derive(Clone, Debug)]
pub struct ApprovalInfo {
    pub username: String,
    pub value: i64,
}

/// The votes on one label, as the server sends them.
#[derive(Clone, Debug)]
pub struct LabelInfoRaw {
    pub all: Vec<ApprovalInfo>,
}

/// The votes on one label.
#[derive(Clone, Debug)]
pub struct LabelInfo(pub Vec<ApprovalInfo>);

impl LabelInfo {
    pub fn from_raw(raw: LabelInfoRaw) -> (r: LabelInfo)
        ensures
            r == (LabelInfo(raw.all)),
    {
        LabelInfo(raw.all)
    }
}

/// The status of one submit requirement evaluated by the server.
/// `Satisfied` is the server's "ok" answer.
#[derive(Clone, Copy, Debug, PartialEq, Eq, Structural)]
pub enum SubmitRecordStatus {
    Satisfied,
    NotReady,
    Closed,
    Forced,
    RuleError,
}

/// One named submit requirement and its status.
#[derive(Clone, Debug)]
pub struct SubmitRecord {
    pub rule_name: String,
    pub status: SubmitRecordStatus,
}

/// The lifecycle status of a change.
#[derive(Clone, Copy, Debug, PartialEq, Eq, Structural)]
pub enum ChangeStatus {
    New,
    Merged,
    Abandoned,
}

/// A change record as parsed from the server's response, with timestamps
/// still in their textual form.
#[derive(Clone, Debug)]
pub struct ChangeInfoRaw {
    pub id: String,
    pub change_id: String,
    pub _number: u64,
    pub project: String,
    pub branch: String,
    pub subject: String,
    pub owner: AccountInfo,
    pub created: String,
    pub updated: String,
    pub status: ChangeStatus,
    pub work_in_progress: bool,
    pub mergeable: bool,
    pub unresolved_comment_count: u64,
    pub labels: Vec<(String, LabelInfoRaw)>,
    pub submit_records: Vec<SubmitRecord>,
}

/// A fully converted change record. `created` and `updated` are seconds
/// since the Unix epoch.
#[derive(Clone, Debug)]
pub struct ChangeInfo {
    pub id: String,
    pub id_number: u64,
    pub change_id: String,
    pub project: String,
    pub branch: String,
    pub subject: String,
    pub owner: AccountInfo,
    pub created: i64,
    pub updated: i64,
    pub status: ChangeStatus,
    pub work_in_progress: bool,
    pub mergeable: bool,
    pub unresolved_comment_count: u64,
    pub labels: Vec<(String, LabelInfo)>,
    pub submit_records: Vec<SubmitRecord>,
}

/// The epoch timestamp that the review server's textual timestamp denotes,
/// or `None` where the text is not in the server's layout.
pub uninterp spec fn gerrit_timestamp_of(s: Seq<char>) -> Option<i64>;

/// Relies on chrono's `NaiveDateTime::parse_from_str` with the review
/// server's `%Y-%m-%d %H:%M:%S%.f` layout, and on `and_utc().timestamp()`:
/// the result is a function of the input text alone.
#[verifier::external_body]
pub(crate) fn parse_timestamp(s: &str) -> (r: Option<i64>)
    ensures
        r == gerrit_timestamp_of(s@),
{
    match chrono::NaiveDateTime::parse_from_str(s, "%Y-%m-%d %H:%M:%S%.f") {
        Ok(t) => Some(t.and_utc().timestamp()),
        Err(_) => None,
    }
}

/// The converted form of one raw label entry: the name is kept, the votes
/// are unwrapped.
pub open spec fn spec_label_of_raw(p: (String, LabelInfoRaw)) -> (String, LabelInfo) {
    (p.0, LabelInfo(p.1.all))
}

impl ChangeInfo {
    /// Converts a raw record: parses both timestamps and unwraps the label
    /// entries. Returns `None` exactly when either timestamp is not in the
    /// server's layout; no other field can fail to convert.
    pub fn from_raw(raw: ChangeInfoRaw) -> (r: Option<ChangeInfo>)
        ensures
            r is Some <==> (gerrit_timestamp_of(raw.created@) is Some
                && gerrit_timestamp_of(raw.updated@) is Some),
            r matches Some(c) ==> {
                &&& c.id == raw.id
                &&& c.id_number == raw._number
                &&& c.change_id == raw.change_id
                &&& c.project == raw.project
                &&& c.branch == raw.branch
                &&& c.subject == raw.subject
                &&& c.owner == raw.owner
                &&& Some(c.created) == gerrit_timestamp_of(raw.created@)
                &&& Some(c.updated) == gerrit_timestamp_of(raw.updated@)
                &&& c.status == raw.status
                &&& c.work_in_progress == raw.work_in_progress
                &&& c.mergeable == raw.mergeable
                &&& c.unresolved_comment_count == raw.unresolved_comment_count
                &&& c.labels@ == raw.labels@.map_values(|p: (String, LabelInfoRaw)| spec_label_of_raw(p))
                &&& c.submit_records == raw.submit_records
            },
    {
        let created = match parse_timestamp(raw.created.as_str()) {
            Some(t) => t,
            None => {
                return None;
            },
        };
        let updated = match parse_timestamp(raw.updated.as_str()) {
            Some(t) => t,
            None => {
                return None;
            },
        };
        let ghost raw_labels: Seq<(String, LabelInfoRaw)> = raw.labels@;
        let mut pending = raw.labels;
        let mut labels: Vec<(String, LabelInfo)> = Vec::new();
        while pending.len() > 0
            invariant
                pending@ == raw_labels.skip(labels@.len() as int),
                labels@.len() <= raw_labels.len(),
                labels@ == raw_labels.take(labels@.len() as int).map_values(
                    |p: (String, LabelInfoRaw)| spec_label_of_raw(p),
                ),
            decreases pending@.len(),
        {
            let p = pending.remove(0);
            let ghost done = labels@.len() as int;
            labels.push((p.0, LabelInfo(p.1.all)));
            proof {
                assert(p == raw_labels[done]);
                assert(raw_labels.take(done + 1).drop_last() =~= raw_labels.take(done));
                assert(labels@ =~= raw_labels.take(done + 1).map_values(
                    |q: (String, LabelInfoRaw)| spec_label_of_raw(q),
                ));
            }
        }
        proof {
            assert(raw_labels.take(labels@.len() as int) =~= raw_labels);
        }
        Some(
            ChangeInfo {
                id: raw.id,
                id_number: raw._number,
                change_id: raw.change_id,
                project: raw.project,
                branch: raw.branch,
                subject: raw.subject,
                owner: raw.owner,
                created,
                updated,
                status: raw.status,
                work_in_progress: raw.work_in_progress,
                mergeable: raw.mergeable,
                unresolved_comment_count: raw.unresolved_comment_count,
                labels,
                submit_records: raw.submit_records,
            },
        )
    }
}

} // verus!
