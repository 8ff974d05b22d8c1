//! The chat commands' computations: the report text, the status of one
//! change, and the pick of community-review reminders. Sending messages
//! is not the library's business.

use crate::container::{spec_text_lookup, Change, Container};
use crate::report::{
    changes_by_owner_time, report_by_time, spec_bucket_ids, spec_report_header,
    spec_time_report_rows, table_text, TimeInterval,
};
use crate::status::{spec_describe, NextStepOwner};
use crate::text::{spec_decimal, u64_to_string};
use rand::seq::SliceRandom;
use vstd::prelude::*;
use vstd::seq_lib::{group_to_multiset_ensures, lemma_multiset_commutative};

verus! {

broadcast use group_to_multiset_ensures;

/// How many changes one reminder shows at most.
pub const TOTAL_CHANGES_TO_SELECT: usize = 5;

/// How many of them are drawn from the fresher buckets when enough are
/// there.
pub const RECENT_CHANGES_TO_SELECT: usize = 4;

/// Relies on rand's `SliceRandom::shuffle` — a Fisher-Yates pass of
/// element swaps driven by the thread's generator: the list afterwards
/// holds exactly the same identifiers; their order depends on the
/// generator's state, and nothing more is said of it.
#[verifier::external_body]
fn shuffle_ids(v: &mut Vec<u64>)
    ensures
        final(v)@.to_multiset() == old(v)@.to_multiset(),
{
    v.shuffle(&mut rand::thread_rng());
}

/// One bucket's community-review identifiers, unfiltered.
pub open spec fn spec_community_bucket(s: Seq<Change>, now: i64, ti: TimeInterval) -> Seq<u64> {
    spec_bucket_ids(s, None, None, now, ti, NextStepOwner::Community)
}

/// The identifiers of every tracked change awaiting community review,
/// fresher buckets first.
pub open spec fn spec_community_ids(s: Seq<Change>, now: i64) -> Seq<u64> {
    spec_community_bucket(s, now, TimeInterval::Under24Hours) + spec_community_bucket(
        s,
        now,
        TimeInterval::Under72Hours,
    ) + spec_community_bucket(s, now, TimeInterval::Under2Weeks) + spec_community_bucket(
        s,
        now,
        TimeInterval::Under8Weeks,
    ) + spec_community_bucket(s, now, TimeInterval::Over8Weeks)
}

/// There cannot be more community-review identifiers than tracked
/// changes: each change lands in at most one bucket.
proof fn lemma_community_ids_len(s: Seq<Change>, now: i64)
    ensures
        spec_community_ids(s, now).len() <= s.len(),
    decreases s.len(),
{
    if s.len() > 0 {
        lemma_community_ids_len(s.drop_last(), now);
        let t = spec_interval_of_entry(s.last(), now);
        assert forall|ti: TimeInterval|
            ti != t implies spec_community_bucket(s, now, ti) == spec_community_bucket(
            s.drop_last(),
            now,
            ti,
        ) by {
            assert(spec_community_bucket(s, now, ti) =~= spec_community_bucket(
                s.drop_last(),
                now,
                ti,
            ));
        }
        assert(spec_community_bucket(s, now, t).len() <= spec_community_bucket(
            s.drop_last(),
            now,
            t,
        ).len() + 1);
    }
}

/// The bucket an entry falls in.
pub open spec fn spec_interval_of_entry(c: Change, now: i64) -> TimeInterval {
    crate::report::spec_interval_of(now - c.review_state_updated)
}

/// An element of the left part is an element of the whole.
proof fn lemma_concat_contains_left(a: Seq<u64>, b: Seq<u64>, x: u64)
    requires
        a.contains(x),
    ensures
        (a + b).contains(x),
{
    let i = choose|i: int| 0 <= i < a.len() && a[i] == x;
    assert((a + b)[i] == x);
}

/// An element of the right part is an element of the whole.
proof fn lemma_concat_contains_right(a: Seq<u64>, b: Seq<u64>, x: u64)
    requires
        b.contains(x),
    ensures
        (a + b).contains(x),
{
    let i = choose|i: int| 0 <= i < b.len() && b[i] == x;
    assert((a + b)[a.len() + i] == x);
}

/// An element of a list is in its multiset's underlying elements.
proof fn lemma_ms_member(s: Seq<u64>, x: u64)
    requires
        s.to_multiset().count(x) > 0,
    ensures
        s.contains(x),
{
}

/// Picks the changes for one community-review reminder: up to four from
/// the two freshest buckets, filled up to five from the older ones, each
/// group in an order the random generator chose. Also returns how many
/// changes await community review in all.
pub fn get_community_review_changes(container: &Container, now: i64) -> (r: (Vec<u64>, usize))
    ensures
        r.1 == spec_community_ids(container.changes@, now).len(),
        ({
            let recent_len = spec_community_bucket(
                container.changes@,
                now,
                TimeInterval::Under24Hours,
            ).len() + spec_community_bucket(
                container.changes@,
                now,
                TimeInterval::Under72Hours,
            ).len();
            let older_len = spec_community_ids(container.changes@, now).len() - recent_len;
            let rc = if recent_len < 4 {
                recent_len
            } else {
                4
            };
            let oc = if older_len < 5 - rc {
                older_len
            } else {
                5 - rc
            };
            r.0@.len() == rc + oc
        }),
        forall|i: int|
            0 <= i < r.0@.len() ==> spec_community_ids(container.changes@, now).contains(r.0@[i]),
{
    let ghost s = container.changes@;
    let ghost b24 = spec_community_bucket(s, now, TimeInterval::Under24Hours);
    let ghost b72 = spec_community_bucket(s, now, TimeInterval::Under72Hours);
    let ghost b2w = spec_community_bucket(s, now, TimeInterval::Under2Weeks);
    let ghost b8w = spec_community_bucket(s, now, TimeInterval::Under8Weeks);
    let ghost bo8 = spec_community_bucket(s, now, TimeInterval::Over8Weeks);
    let changes = changes_by_owner_time(container, now, None, None);
    let mut recent = changes.get_changes(TimeInterval::Under24Hours, NextStepOwner::Community);
    let ghost g24 = recent@;
    let mut recent_tail = changes.get_changes(
        TimeInterval::Under72Hours,
        NextStepOwner::Community,
    );
    let ghost g72 = recent_tail@;
    recent.append(&mut recent_tail);
    let mut older = changes.get_changes(TimeInterval::Under2Weeks, NextStepOwner::Community);
    let ghost g2w = older@;
    let mut older_mid = changes.get_changes(TimeInterval::Under8Weeks, NextStepOwner::Community);
    let ghost g8w = older_mid@;
    older.append(&mut older_mid);
    let ghost gmid = older@;
    let mut older_tail = changes.get_changes(TimeInterval::Over8Weeks, NextStepOwner::Community);
    let ghost go8 = older_tail@;
    older.append(&mut older_tail);
    let cap = container.changes.len();
    proof {
        lemma_multiset_commutative(g24, g72);
        lemma_multiset_commutative(b24, b72);
        assert(recent@.to_multiset() =~= (b24 + b72).to_multiset());
        lemma_multiset_commutative(g2w, g8w);
        lemma_multiset_commutative(b2w, b8w);
        assert(gmid.to_multiset() =~= (b2w + b8w).to_multiset());
        lemma_multiset_commutative(gmid, go8);
        lemma_multiset_commutative(b2w + b8w, bo8);
        assert(older@.to_multiset() =~= ((b2w + b8w) + bo8).to_multiset());
        lemma_community_ids_len(s, now);
        lemma_multiset_commutative(b24 + b72, (b2w + b8w) + bo8);
        assert((b24 + b72) + ((b2w + b8w) + bo8) =~= spec_community_ids(s, now));
        assert(cap == s.len());
        assert(recent@.len() == recent@.to_multiset().len());
        assert(older@.len() == older@.to_multiset().len());
        assert(recent@.len() + older@.len() == spec_community_ids(s, now).len());
    }
    shuffle_ids(&mut recent);
    shuffle_ids(&mut older);
    let total: usize = recent.len() + older.len();
    let recent_count: usize = if recent.len() < RECENT_CHANGES_TO_SELECT {
        recent.len()
    } else {
        RECENT_CHANGES_TO_SELECT
    };
    let mut selected: Vec<u64> = Vec::new();
    let mut i: usize = 0;
    while i < recent_count
        invariant
            0 <= i <= recent_count,
            recent_count <= recent@.len(),
            recent@.to_multiset() == (b24 + b72).to_multiset(),
            b24 == spec_community_bucket(s, now, TimeInterval::Under24Hours),
            b72 == spec_community_bucket(s, now, TimeInterval::Under72Hours),
            b2w == spec_community_bucket(s, now, TimeInterval::Under2Weeks),
            b8w == spec_community_bucket(s, now, TimeInterval::Under8Weeks),
            bo8 == spec_community_bucket(s, now, TimeInterval::Over8Weeks),
            s == container.changes@,
            selected@.len() == i,
            forall|j: int| 0 <= j < i ==> spec_community_ids(s, now).contains(selected@[j]),
        decreases recent_count - i,
    {
        let x = recent[i];
        proof {
            assert(recent@.contains(x));
            assert(recent@.to_multiset().count(x) > 0);
            lemma_ms_member(b24 + b72, x);
            lemma_concat_contains_left(b24 + b72, (b2w + b8w) + bo8, x);
            assert((b24 + b72) + ((b2w + b8w) + bo8) =~= spec_community_ids(s, now));
        }
        selected.push(x);
        i = i + 1;
    }
    let additional: usize = TOTAL_CHANGES_TO_SELECT - recent_count;
    let older_count: usize = if older.len() < additional {
        older.len()
    } else {
        additional
    };
    let ghost picked = selected@.len() as int;
    let mut k: usize = 0;
    while k < older_count
        invariant
            0 <= k <= older_count,
            older_count <= older@.len(),
            older@.to_multiset() == ((b2w + b8w) + bo8).to_multiset(),
            b24 == spec_community_bucket(s, now, TimeInterval::Under24Hours),
            b72 == spec_community_bucket(s, now, TimeInterval::Under72Hours),
            b2w == spec_community_bucket(s, now, TimeInterval::Under2Weeks),
            b8w == spec_community_bucket(s, now, TimeInterval::Under8Weeks),
            bo8 == spec_community_bucket(s, now, TimeInterval::Over8Weeks),
            s == container.changes@,
            selected@.len() == picked + k,
            forall|j: int|
                0 <= j < selected@.len() ==> spec_community_ids(s, now).contains(selected@[j]),
        decreases older_count - k,
    {
        let x = older[k];
        proof {
            assert(older@.contains(x));
            assert(older@.to_multiset().count(x) > 0);
            lemma_ms_member((b2w + b8w) + bo8, x);
            lemma_concat_contains_right(b24 + b72, (b2w + b8w) + bo8, x);
            assert((b24 + b72) + ((b2w + b8w) + bo8) =~= spec_community_ids(s, now));
        }
        selected.push(x);
        k = k + 1;
    }
    (selected, total)
}

/// The text of one chat report: the by-time table wrapped in a code
/// fence, titled by the project filter where one is given.
pub fn report_message(container: &Container, now: i64, project: Option<String>) -> (r: String)
    ensures
        r@ == (match project {
            Some(p) => "Project "@ + p@ + ":\n```\n"@ + table_text(
                spec_report_header(),
                spec_time_report_rows(container.changes@, Some(p), None, now),
            ) + "\n```"@,
            None => "Overall Status:\n```\n"@ + table_text(
                spec_report_header(),
                spec_time_report_rows(container.changes@, None, None, now),
            ) + "\n```"@,
        }),
{
    match project {
        Some(p) => {
            let report = report_by_time(container, now, Some(p.clone()), None);
            String::from_str("Project ").concat(p.as_str()).concat(":\n```\n").concat(
                report.as_str(),
            ).concat("\n```")
        },
        None => {
            let report = report_by_time(container, now, None, None);
            String::from_str("Overall Status:\n```\n").concat(report.as_str()).concat("\n```")
        },
    }
}

/// The text of one chat status answer: the change's state, or that the
/// change is unknown.
pub fn review_status_message(container: &Container, change_id: &String) -> (r: String)
    requires
        container.wf(),
    ensures
        r@ == (match spec_text_lookup(*container, change_id@) {
            Some(e) => "Change "@ + change_id@ + " is "@ + spec_describe(e.review_state) + "."@,
            None => "Could not find change: "@ + change_id@,
        }),
{
    match container.lookup_by_text(change_id) {
        Some(e) => {
            let state = e.review_state.describe();
            String::from_str("Change ").concat(change_id.as_str()).concat(" is ").concat(
                state.as_str(),
            ).concat(".")
        },
        None => String::from_str("Could not find change: ").concat(change_id.as_str()),
    }
}

/// A waiting time in plain words: whole days when at least one has
/// passed, else whole hours, else "less than 1 hour".
pub open spec fn spec_format_duration(elapsed: int) -> Seq<char> {
    if elapsed >= 172800 {
        spec_decimal((elapsed / 86400) as nat) + " days"@
    } else if elapsed >= 86400 {
        "1 day"@
    } else if elapsed >= 7200 {
        spec_decimal((elapsed / 3600) as nat) + " hours"@
    } else if elapsed >= 3600 {
        "1 hour"@
    } else {
        "less than 1 hour"@
    }
}

/// Renders an elapsed time in plain words; see `spec_format_duration`.
pub fn format_duration(seconds: i64) -> (r: String)
    ensures
        r@ == spec_format_duration(seconds as int),
{
    if seconds >= 172800 {
        let days: u64 = (seconds as u64) / 86400;
        u64_to_string(days).concat(" days")
    } else if seconds >= 86400 {
        String::from_str("1 day")
    } else if seconds >= 7200 {
        let hours: u64 = (seconds as u64) / 3600;
        u64_to_string(hours).concat(" hours")
    } else if seconds >= 3600 {
        String::from_str("1 hour")
    } else {
        String::from_str("less than 1 hour")
    }
}

} // verus!
