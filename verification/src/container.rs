//! The store of tracked changes: one entry per numeric identifier, plus a
//! secondary index from the opaque change-id to the numeric identifier.
//!
//! The store applies the classifier on every insert or update and keeps
//! `review_state_updated`, the time at which the classification's variant
//! last changed — not the time the record was last re-fetched.

use crate::data::{ChangeInfo, ChangeStatus};
use crate::status::{review_state, spec_review_state, spec_same_variant, ReviewState};
use crate::text::{parse_u64, spec_parse_u64};
use vstd::pervasive::VecAdditionalExecFns;
use vstd::prelude::*;

verus! {

/// One tracked change: the record, its classification, and the time the
/// classification's variant last changed.
#[derive(Debug)]
pub struct Change {
    pub change: ChangeInfo,
    pub review_state: ReviewState,
    pub review_state_updated: i64,
}

/// The store itself. The entry list is keyed by the numeric identifier;
/// the index list maps an opaque change-id to a numeric identifier.
#[derive(Debug)]
pub struct Container {
    pub changes: Vec<Change>,
    pub changes_by_id: Vec<(String, u64)>,
}

/// No two entries carry the same numeric identifier.
pub open spec fn unique_ids(s: Seq<Change>) -> bool {
    forall|i: int, j: int|
        0 <= i < j < s.len() ==> s[i].change.id_number != s[j].change.id_number
}

/// Whether some entry carries the identifier.
pub open spec fn spec_has_id(s: Seq<Change>, id: u64) -> bool {
    exists|i: int| 0 <= i < s.len() && s[i].change.id_number == id
}

/// The position of the entry with the identifier; meaningful only under
/// `spec_has_id`.
pub open spec fn spec_idx_of(s: Seq<Change>, id: u64) -> int {
    choose|i: int| 0 <= i < s.len() && s[i].change.id_number == id
}

/// The entry with the identifier, if any.
pub open spec fn spec_lookup(s: Seq<Change>, id: u64) -> Option<Change> {
    if spec_has_id(s, id) {
        Some(s[spec_idx_of(s, id)])
    } else {
        None
    }
}

/// No two index entries carry the same opaque id.
pub open spec fn unique_cids(m: Seq<(String, u64)>) -> bool {
    forall|i: int, j: int| 0 <= i < j < m.len() ==> m[i].0@ != m[j].0@
}

/// Whether some index entry carries the opaque id.
pub open spec fn spec_has_cid(m: Seq<(String, u64)>, cid: Seq<char>) -> bool {
    exists|i: int| 0 <= i < m.len() && m[i].0@ == cid
}

/// The position of the index entry with the opaque id; meaningful only
/// under `spec_has_cid`.
pub open spec fn spec_cid_idx(m: Seq<(String, u64)>, cid: Seq<char>) -> int {
    choose|i: int| 0 <= i < m.len() && m[i].0@ == cid
}

/// The numeric identifier the opaque id maps to, if any.
pub open spec fn spec_cid_lookup(m: Seq<(String, u64)>, cid: Seq<char>) -> Option<u64> {
    if spec_has_cid(m, cid) {
        Some(m[spec_cid_idx(m, cid)].1)
    } else {
        None
    }
}

/// A record is tracked exactly when it is open and not a work in progress.
pub open spec fn spec_should_track(c: ChangeInfo) -> bool {
    c.status is New && !c.work_in_progress
}

impl Container {
    /// The tracked entry for a numeric identifier.
    pub open spec fn lookup(self, id: u64) -> Option<Change> {
        spec_lookup(self.changes@, id)
    }

    /// The numeric identifier an opaque change-id maps to.
    pub open spec fn id_lookup(self, cid: Seq<char>) -> Option<u64> {
        spec_cid_lookup(self.changes_by_id@, cid)
    }

    /// Well-formedness: identifiers and opaque ids are unique; every entry
    /// is open, not a work in progress, and classified by the rule chain;
    /// and every index entry points to a present entry that carries that
    /// very opaque id.
    pub open spec fn wf(self) -> bool {
        &&& unique_ids(self.changes@)
        &&& unique_cids(self.changes_by_id@)
        &&& forall|i: int|
            0 <= i < self.changes@.len() ==> (#[trigger] self.changes@[i]).review_state
                == spec_review_state(self.changes@[i].change) && spec_should_track(
                self.changes@[i].change,
            )
        &&& forall|cid: Seq<char>|
            #[trigger] self.id_lookup(cid) matches Some(n) ==> (self.lookup(n) matches Some(e)
                && e.change.change_id@ == cid)
    }

    /// Every tracked entry's opaque id maps back to that entry through the
    /// secondary index.
    pub open spec fn index_linked(self) -> bool {
        forall|i: int|
            0 <= i < self.changes@.len() ==> self.id_lookup(
                (#[trigger] self.changes@[i]).change.change_id@,
            ) == Some(self.changes@[i].change.id_number)
    }
}

/// What `set` leaves behind for a record that is tracked: the entry for
/// the record's identifier is replaced, its timestamp kept exactly when
/// the classification's variant did not change; the record's opaque id
/// maps to the record; the entry's previous opaque id, where different,
/// is unbound; nothing else moves.
pub open spec fn spec_set_post(pre: Container, c: ChangeInfo, post: Container) -> bool {
    if spec_should_track(c) {
        &&& post.lookup(c.id_number) == Some(
            Change {
                change: c,
                review_state: spec_review_state(c),
                review_state_updated: spec_new_timestamp(pre, c),
            },
        )
        &&& forall|k: u64| k != c.id_number ==> post.lookup(k) == pre.lookup(k)
        &&& post.id_lookup(c.change_id@) == Some(c.id_number)
        &&& forall|cid: Seq<char>|
            cid != c.change_id@ ==> #[trigger] post.id_lookup(cid) == (
            if spec_cid_scrubbed(pre, c.id_number, cid) {
                None::<u64>
            } else {
                pre.id_lookup(cid)
            })
    } else {
        spec_remove_post(pre, c.id_number, post)
    }
}

/// Whether erasing the entry for `id` unbinds the opaque id `cid`: it
/// does when the stored entry carries exactly that opaque id.
pub open spec fn spec_cid_scrubbed(pre: Container, id: u64, cid: Seq<char>) -> bool {
    pre.lookup(id) matches Some(e) && e.change.change_id@ == cid
}

/// The state-change timestamp after an observation: kept from the stored
/// entry when the classification's variant is unchanged, else the
/// record's own `updated` time.
pub open spec fn spec_new_timestamp(pre: Container, c: ChangeInfo) -> i64 {
    match pre.lookup(c.id_number) {
        Some(e) => if spec_same_variant(e.review_state, spec_review_state(c)) {
            e.review_state_updated
        } else {
            c.updated
        },
        None => c.updated,
    }
}

/// What `remove` leaves behind: the entry for `id` is gone, its opaque id
/// is unbound, and nothing else moves.
pub open spec fn spec_remove_post(pre: Container, id: u64, post: Container) -> bool {
    &&& post.lookup(id) is None
    &&& forall|k: u64| k != id ==> post.lookup(k) == pre.lookup(k)
    &&& forall|cid: Seq<char>|
        #[trigger] post.id_lookup(cid) == (if spec_cid_scrubbed(pre, id, cid) {
            None::<u64>
        } else {
            pre.id_lookup(cid)
        })
}

/// The entry at a position is what lookup finds for its identifier.
proof fn lemma_lookup_of_index(s: Seq<Change>, i: int)
    requires
        unique_ids(s),
        0 <= i < s.len(),
    ensures
        spec_lookup(s, s[i].change.id_number) == Some(s[i]),
{
    let id = s[i].change.id_number;
    assert(spec_has_id(s, id));
    let w = spec_idx_of(s, id);
    assert(0 <= w < s.len() && s[w].change.id_number == id);
    assert(w == i);
}

proof fn lemma_lookup_push(s: Seq<Change>, c: Change)
    requires
        unique_ids(s),
        !spec_has_id(s, c.change.id_number),
    ensures
        unique_ids(s.push(c)),
        spec_lookup(s.push(c), c.change.id_number) == Some(c),
        forall|k: u64|
            k != c.change.id_number ==> spec_lookup(s.push(c), k) == spec_lookup(s, k),
{
    let t = s.push(c);
    let id = c.change.id_number;
    assert forall|i: int| 0 <= i < s.len() implies s[i].change.id_number != id by {
        if s[i].change.id_number == id {
            assert(spec_has_id(s, id));
        }
    }
    assert(unique_ids(t));
    assert(t[s.len() as int] == c);
    lemma_lookup_of_index(t, s.len() as int);
    assert forall|k: u64| k != id implies spec_lookup(t, k) == spec_lookup(s, k) by {
        if spec_has_id(s, k) {
            let w = spec_idx_of(s, k);
            assert(0 <= w < s.len() && s[w].change.id_number == k);
            assert(t[w] == s[w]);
            lemma_lookup_of_index(s, w);
            lemma_lookup_of_index(t, w);
        } else {
            if spec_has_id(t, k) {
                let w = spec_idx_of(t, k);
                assert(0 <= w < t.len() && t[w].change.id_number == k);
                assert(w < s.len());
                assert(spec_has_id(s, k));
            }
        }
    }
}

proof fn lemma_lookup_update(s: Seq<Change>, j: int, c: Change)
    requires
        unique_ids(s),
        0 <= j < s.len(),
        s[j].change.id_number == c.change.id_number,
    ensures
        unique_ids(s.update(j, c)),
        spec_lookup(s.update(j, c), c.change.id_number) == Some(c),
        forall|k: u64|
            k != c.change.id_number ==> spec_lookup(s.update(j, c), k) == spec_lookup(s, k),
{
    let t = s.update(j, c);
    let id = c.change.id_number;
    assert(unique_ids(t));
    assert(t[j] == c);
    lemma_lookup_of_index(t, j);
    assert forall|k: u64| k != id implies spec_lookup(t, k) == spec_lookup(s, k) by {
        if spec_has_id(s, k) {
            let w = spec_idx_of(s, k);
            assert(0 <= w < s.len() && s[w].change.id_number == k);
            assert(w != j);
            assert(t[w] == s[w]);
            lemma_lookup_of_index(s, w);
            lemma_lookup_of_index(t, w);
        } else {
            if spec_has_id(t, k) {
                let w = spec_idx_of(t, k);
                assert(0 <= w < t.len() && t[w].change.id_number == k);
                assert(w != j);
                assert(s[w].change.id_number == k);
                assert(spec_has_id(s, k));
            }
        }
    }
}

proof fn lemma_lookup_remove(s: Seq<Change>, j: int)
    requires
        unique_ids(s),
        0 <= j < s.len(),
    ensures
        unique_ids(s.remove(j)),
        spec_lookup(s.remove(j), s[j].change.id_number) is None,
        forall|k: u64|
            k != s[j].change.id_number ==> spec_lookup(s.remove(j), k) == spec_lookup(s, k),
{
    let t = s.remove(j);
    let id = s[j].change.id_number;
    assert(forall|i: int| 0 <= i < j ==> t[i] == s[i]);
    assert(forall|i: int| j <= i < t.len() ==> t[i] == s[i + 1]);
    assert(unique_ids(t));
    if spec_has_id(t, id) {
        let w = spec_idx_of(t, id);
        assert(0 <= w < t.len() && t[w].change.id_number == id);
        if w < j {
            assert(s[w].change.id_number == id);
        } else {
            assert(s[w + 1].change.id_number == id);
        }
    }
    assert(spec_lookup(t, id) is None);
    assert forall|k: u64| k != id implies spec_lookup(t, k) == spec_lookup(s, k) by {
        if spec_has_id(s, k) {
            let w = spec_idx_of(s, k);
            assert(0 <= w < s.len() && s[w].change.id_number == k);
            assert(w != j);
            if w < j {
                assert(t[w] == s[w]);
                lemma_lookup_of_index(t, w);
            } else {
                assert(t[w - 1] == s[w]);
                lemma_lookup_of_index(t, w - 1);
            }
            lemma_lookup_of_index(s, w);
        } else {
            if spec_has_id(t, k) {
                let w = spec_idx_of(t, k);
                assert(0 <= w < t.len() && t[w].change.id_number == k);
                if w < j {
                    assert(s[w].change.id_number == k);
                } else {
                    assert(s[w + 1].change.id_number == k);
                }
                assert(spec_has_id(s, k));
            }
        }
    }
}

/// The index entry at a position is what index lookup finds for its
/// opaque id.
proof fn lemma_cid_lookup_of_index(m: Seq<(String, u64)>, i: int)
    requires
        unique_cids(m),
        0 <= i < m.len(),
    ensures
        spec_cid_lookup(m, m[i].0@) == Some(m[i].1),
{
    let cid = m[i].0@;
    assert(spec_has_cid(m, cid));
    let w = spec_cid_idx(m, cid);
    assert(0 <= w < m.len() && m[w].0@ == cid);
    assert(w == i);
}

proof fn lemma_cid_push(m: Seq<(String, u64)>, p: (String, u64))
    requires
        unique_cids(m),
        !spec_has_cid(m, p.0@),
    ensures
        unique_cids(m.push(p)),
        spec_cid_lookup(m.push(p), p.0@) == Some(p.1),
        forall|cid: Seq<char>|
            cid != p.0@ ==> spec_cid_lookup(m.push(p), cid) == spec_cid_lookup(m, cid),
{
    let t = m.push(p);
    assert forall|i: int| 0 <= i < m.len() implies m[i].0@ != p.0@ by {
        if m[i].0@ == p.0@ {
            assert(spec_has_cid(m, p.0@));
        }
    }
    assert(unique_cids(t));
    assert(t[m.len() as int] == p);
    lemma_cid_lookup_of_index(t, m.len() as int);
    assert forall|cid: Seq<char>| cid != p.0@ implies spec_cid_lookup(t, cid) == spec_cid_lookup(
        m,
        cid,
    ) by {
        if spec_has_cid(m, cid) {
            let w = spec_cid_idx(m, cid);
            assert(0 <= w < m.len() && m[w].0@ == cid);
            assert(t[w] == m[w]);
            lemma_cid_lookup_of_index(m, w);
            lemma_cid_lookup_of_index(t, w);
        } else {
            if spec_has_cid(t, cid) {
                let w = spec_cid_idx(t, cid);
                assert(0 <= w < t.len() && t[w].0@ == cid);
                assert(w < m.len());
                assert(spec_has_cid(m, cid));
            }
        }
    }
}

proof fn lemma_cid_update(m: Seq<(String, u64)>, j: int, p: (String, u64))
    requires
        unique_cids(m),
        0 <= j < m.len(),
        m[j].0@ == p.0@,
    ensures
        unique_cids(m.update(j, p)),
        spec_cid_lookup(m.update(j, p), p.0@) == Some(p.1),
        forall|cid: Seq<char>|
            cid != p.0@ ==> spec_cid_lookup(m.update(j, p), cid) == spec_cid_lookup(m, cid),
{
    let t = m.update(j, p);
    assert(unique_cids(t));
    assert(t[j] == p);
    lemma_cid_lookup_of_index(t, j);
    assert forall|cid: Seq<char>| cid != p.0@ implies spec_cid_lookup(t, cid) == spec_cid_lookup(
        m,
        cid,
    ) by {
        if spec_has_cid(m, cid) {
            let w = spec_cid_idx(m, cid);
            assert(0 <= w < m.len() && m[w].0@ == cid);
            assert(w != j);
            assert(t[w] == m[w]);
            lemma_cid_lookup_of_index(m, w);
            lemma_cid_lookup_of_index(t, w);
        } else {
            if spec_has_cid(t, cid) {
                let w = spec_cid_idx(t, cid);
                assert(0 <= w < t.len() && t[w].0@ == cid);
                assert(w != j);
                assert(m[w].0@ == cid);
                assert(spec_has_cid(m, cid));
            }
        }
    }
}

proof fn lemma_cid_remove(m: Seq<(String, u64)>, j: int)
    requires
        unique_cids(m),
        0 <= j < m.len(),
    ensures
        unique_cids(m.remove(j)),
        spec_cid_lookup(m.remove(j), m[j].0@) is None,
        forall|cid: Seq<char>|
            cid != m[j].0@ ==> spec_cid_lookup(m.remove(j), cid) == spec_cid_lookup(m, cid),
{
    let t = m.remove(j);
    let key = m[j].0@;
    assert(forall|i: int| 0 <= i < j ==> t[i] == m[i]);
    assert(forall|i: int| j <= i < t.len() ==> t[i] == m[i + 1]);
    assert(unique_cids(t));
    if spec_has_cid(t, key) {
        let w = spec_cid_idx(t, key);
        assert(0 <= w < t.len() && t[w].0@ == key);
        if w < j {
            assert(m[w].0@ == key);
        } else {
            assert(m[w + 1].0@ == key);
        }
    }
    assert(spec_cid_lookup(t, key) is None);
    assert forall|cid: Seq<char>| cid != key implies spec_cid_lookup(t, cid) == spec_cid_lookup(
        m,
        cid,
    ) by {
        if spec_has_cid(m, cid) {
            let w = spec_cid_idx(m, cid);
            assert(0 <= w < m.len() && m[w].0@ == cid);
            assert(w != j);
            if w < j {
                assert(t[w] == m[w]);
                lemma_cid_lookup_of_index(t, w);
            } else {
                assert(t[w - 1] == m[w]);
                lemma_cid_lookup_of_index(t, w - 1);
            }
            lemma_cid_lookup_of_index(m, w);
        } else {
            if spec_has_cid(t, cid) {
                let w = spec_cid_idx(t, cid);
                assert(0 <= w < t.len() && t[w].0@ == cid);
                if w < j {
                    assert(m[w].0@ == cid);
                } else {
                    assert(m[w + 1].0@ == cid);
                }
                assert(spec_has_cid(m, cid));
            }
        }
    }
}

/// The position of the entry with the identifier, if any.
fn find_index(changes: &Vec<Change>, id: u64) -> (r: Option<usize>)
    ensures
        match r {
            Some(j) => j < changes@.len() && changes@[j as int].change.id_number == id,
            None => !spec_has_id(changes@, id),
        },
{
    let mut i: usize = 0;
    while i < changes.len()
        invariant
            0 <= i <= changes@.len(),
            forall|j: int| 0 <= j < i ==> changes@[j].change.id_number != id,
        decreases changes@.len() - i,
    {
        if changes[i].change.id_number == id {
            return Some(i);
        }
        i = i + 1;
    }
    None
}

/// The position of the index entry with the opaque id, if any.
fn find_cid_index(m: &Vec<(String, u64)>, cid: &String) -> (r: Option<usize>)
    ensures
        match r {
            Some(j) => j < m@.len() && m@[j as int].0@ == cid@,
            None => !spec_has_cid(m@, cid@),
        },
{
    let mut i: usize = 0;
    while i < m.len()
        invariant
            0 <= i <= m@.len(),
            forall|j: int| 0 <= j < i ==> m@[j].0@ != cid@,
        decreases m@.len() - i,
    {
        if m[i].0 == *cid {
            return Some(i);
        }
        i = i + 1;
    }
    None
}

impl Container {
    /// An empty store.
    pub fn new() -> (r: Container)
        ensures
            r.wf(),
            r.index_linked(),
            r.changes@ == Seq::<Change>::empty(),
            r.changes_by_id@ == Seq::<(String, u64)>::empty(),
            forall|k: u64| r.lookup(k) is None,
            forall|cid: Seq<char>| r.id_lookup(cid) is None,
    {
        let r = Container { changes: Vec::new(), changes_by_id: Vec::new() };
        proof {
            assert(forall|k: u64| !spec_has_id(r.changes@, k));
            assert(forall|cid: Seq<char>| !spec_has_cid(r.changes_by_id@, cid));
        }
        r
    }

    /// Observes a record. A record that is closed or a work in progress
    /// erases any tracked entry; any other record is classified and
    /// stored, keeping the state-change timestamp exactly when the
    /// classification's variant did not change.
    pub fn set(&mut self, change: ChangeInfo)
        requires
            old(self).wf(),
        ensures
            final(self).wf(),
            spec_set_post(*old(self), change, *final(self)),
    {
        if !matches!(change.status, ChangeStatus::New) || change.work_in_progress {
            self.remove(&change);
            return;
        }
        let ghost pre = *self;
        let state = review_state(&change);
        let cid = change.change_id.clone();
        let id = change.id_number;
        match find_index(&self.changes, id) {
            Some(j) => {
                let ts: i64 = if self.changes[j].review_state.same_variant(&state) {
                    self.changes[j].review_state_updated
                } else {
                    change.updated
                };
                proof {
                    lemma_lookup_of_index(pre.changes@, j as int);
                    assert(ts == spec_new_timestamp(pre, change));
                }
                let ghost old_entry = self.changes@[j as int];
                let ghost m0 = self.changes_by_id@;
                match find_cid_index(&self.changes_by_id, &self.changes[j].change.change_id) {
                    Some(p) => {
                        proof {
                            lemma_cid_remove(m0, p as int);
                        }
                        self.changes_by_id.remove(p);
                    },
                    None => {
                        proof {
                            assert(forall|c2: Seq<char>|
                                spec_cid_lookup(m0, c2) == spec_cid_lookup(
                                    self.changes_by_id@,
                                    c2,
                                ));
                        }
                    },
                }
                proof {
                    assert(spec_cid_lookup(self.changes_by_id@, old_entry.change.change_id@)
                        is None);
                    assert(forall|c2: Seq<char>|
                        c2 != old_entry.change.change_id@ ==> spec_cid_lookup(
                            self.changes_by_id@,
                            c2,
                        ) == spec_cid_lookup(m0, c2));
                }
                let newc = Change { change, review_state: state, review_state_updated: ts };
                proof {
                    lemma_lookup_update(pre.changes@, j as int, newc);
                }
                self.changes.set(j, newc);
            },
            None => {
                let ts: i64 = change.updated;
                proof {
                    assert(ts == spec_new_timestamp(pre, change));
                }
                let newc = Change { change, review_state: state, review_state_updated: ts };
                proof {
                    lemma_lookup_push(pre.changes@, newc);
                }
                self.changes.push(newc);
            },
        }
        let ghost m1 = self.changes_by_id@;
        match find_cid_index(&self.changes_by_id, &cid) {
            Some(p) => {
                proof {
                    lemma_cid_update(m1, p as int, (cid, id));
                }
                self.changes_by_id.set(p, (cid, id));
            },
            None => {
                proof {
                    lemma_cid_push(m1, (cid, id));
                }
                self.changes_by_id.push((cid, id));
            },
        }
        proof {
            self.lemma_set_wf(pre, change);
        }
    }

    /// The wrap-up of `set`'s tracking path: the two lists changed as the
    /// contract says, and well-formedness holds again.
    proof fn lemma_set_wf(self, pre: Container, change: ChangeInfo)
        requires
            pre.wf(),
            spec_should_track(change),
            self.lookup(change.id_number) == Some(
                Change {
                    change,
                    review_state: spec_review_state(change),
                    review_state_updated: spec_new_timestamp(pre, change),
                },
            ),
            forall|k: u64| k != change.id_number ==> self.lookup(k) == pre.lookup(k),
            self.id_lookup(change.change_id@) == Some(change.id_number),
            forall|cid: Seq<char>|
                cid != change.change_id@ ==> #[trigger] self.id_lookup(cid) == (
                if spec_cid_scrubbed(pre, change.id_number, cid) {
                    None::<u64>
                } else {
                    pre.id_lookup(cid)
                }),
            unique_ids(self.changes@),
            unique_cids(self.changes_by_id@),
            forall|i: int|
                0 <= i < self.changes@.len() ==> (#[trigger] self.changes@[i]).review_state
                    == spec_review_state(self.changes@[i].change) && spec_should_track(
                    self.changes@[i].change,
                ),
        ensures
            self.wf(),
            spec_set_post(pre, change, self),
    {
        let id = change.id_number;
        assert forall|cid: Seq<char>|
            #[trigger] self.id_lookup(cid) matches Some(n) ==> (self.lookup(n) matches Some(e)
                && e.change.change_id@ == cid) by {
            match self.id_lookup(cid) {
                Some(n) => {
                    if cid == change.change_id@ {
                        assert(n == id);
                    } else {
                        assert(!spec_cid_scrubbed(pre, id, cid));
                        assert(pre.id_lookup(cid) == Some(n));
                        assert(pre.lookup(n) matches Some(e) && e.change.change_id@ == cid);
                        if n == id {
                            assert(spec_cid_scrubbed(pre, id, cid));
                        }
                        assert(self.lookup(n) == pre.lookup(n));
                    }
                },
                None => {},
            }
        }
    }

    /// Erases the entry for the record's numeric identifier, unbinding
    /// the opaque id the stored entry carries; does nothing when no entry
    /// is tracked.
    pub fn remove(&mut self, change: &ChangeInfo)
        requires
            old(self).wf(),
        ensures
            final(self).wf(),
            spec_remove_post(*old(self), change.id_number, *final(self)),
    {
        let ghost pre = *self;
        let id = change.id_number;
        match find_index(&self.changes, id) {
            Some(j) => {
                let ghost old_entry = self.changes@[j as int];
                let ghost m0 = self.changes_by_id@;
                proof {
                    lemma_lookup_of_index(pre.changes@, j as int);
                }
                match find_cid_index(&self.changes_by_id, &self.changes[j].change.change_id) {
                    Some(p) => {
                        proof {
                            lemma_cid_remove(m0, p as int);
                        }
                        self.changes_by_id.remove(p);
                    },
                    None => {
                        proof {
                            assert(forall|c2: Seq<char>|
                                spec_cid_lookup(m0, c2) == spec_cid_lookup(
                                    self.changes_by_id@,
                                    c2,
                                ));
                        }
                    },
                }
                proof {
                    lemma_lookup_remove(pre.changes@, j as int);
                }
                self.changes.remove(j);
                proof {
                    self.lemma_remove_wf(pre, id, old_entry);
                }
            },
            None => {
                proof {
                    assert forall|cid: Seq<char>| #[trigger] self.id_lookup(cid) == (
                    if spec_cid_scrubbed(pre, id, cid) {
                        None::<u64>
                    } else {
                        pre.id_lookup(cid)
                    }) by {
                        if spec_cid_scrubbed(pre, id, cid) {
                            assert(pre.lookup(id) is Some);
                            assert(spec_has_id(pre.changes@, id));
                        }
                    }
                }
            },
        }
    }

    /// The wrap-up of `remove`'s erasing path.
    proof fn lemma_remove_wf(self, pre: Container, id: u64, old_entry: Change)
        requires
            pre.wf(),
            pre.lookup(id) == Some(old_entry),
            self.lookup(id) is None,
            forall|k: u64| k != id ==> self.lookup(k) == pre.lookup(k),
            spec_cid_lookup(self.changes_by_id@, old_entry.change.change_id@) is None,
            forall|cid: Seq<char>|
                cid != old_entry.change.change_id@ ==> spec_cid_lookup(self.changes_by_id@, cid)
                    == spec_cid_lookup(pre.changes_by_id@, cid),
            unique_ids(self.changes@),
            unique_cids(self.changes_by_id@),
            forall|i: int|
                0 <= i < self.changes@.len() ==> (#[trigger] self.changes@[i]).review_state
                    == spec_review_state(self.changes@[i].change) && spec_should_track(
                    self.changes@[i].change,
                ),
        ensures
            self.wf(),
            spec_remove_post(pre, id, self),
    {
        assert forall|cid: Seq<char>|
            #[trigger] self.id_lookup(cid) matches Some(n) ==> (self.lookup(n) matches Some(e)
                && e.change.change_id@ == cid) by {
            match self.id_lookup(cid) {
                Some(n) => {
                    assert(cid != old_entry.change.change_id@);
                    assert(pre.id_lookup(cid) == Some(n));
                    assert(pre.lookup(n) matches Some(e) && e.change.change_id@ == cid);
                    if n == id {
                        assert(old_entry.change.change_id@ == cid);
                    }
                    assert(self.lookup(n) == pre.lookup(n));
                },
                None => {},
            }
        }
        assert forall|cid: Seq<char>| #[trigger] self.id_lookup(cid) == (if spec_cid_scrubbed(
            pre,
            id,
            cid,
        ) {
            None::<u64>
        } else {
            pre.id_lookup(cid)
        }) by {
            if cid == old_entry.change.change_id@ {
                assert(spec_cid_scrubbed(pre, id, cid));
            } else {
                assert(!spec_cid_scrubbed(pre, id, cid));
            }
        }
    }

    /// The tracked entry for a numeric identifier.
    pub fn get(&self, id: u64) -> (r: Option<&Change>)
        requires
            self.wf(),
        ensures
            match r {
                Some(c) => self.lookup(id) == Some(*c),
                None => self.lookup(id) is None,
            },
    {
        match find_index(&self.changes, id) {
            Some(j) => {
                proof {
                    lemma_lookup_of_index(self.changes@, j as int);
                }
                Some(&self.changes[j])
            },
            None => None,
        }
    }

    /// The tracked entry an opaque change-id maps to, through the
    /// secondary index.
    pub fn get_by_change_id(&self, id: &String) -> (r: Option<&Change>)
        requires
            self.wf(),
        ensures
            match r {
                Some(c) => self.id_lookup(id@) == Some(c.change.id_number) && self.lookup(
                    c.change.id_number,
                ) == Some(*c),
                None => self.id_lookup(id@) is None,
            },
    {
        match find_cid_index(&self.changes_by_id, id) {
            Some(p) => {
                proof {
                    lemma_cid_lookup_of_index(self.changes_by_id@, p as int);
                }
                let n = self.changes_by_id[p].1;
                let r = self.get(n);
                proof {
                    assert(self.lookup(n) matches Some(e) && e.change.change_id@ == id@);
                }
                match r {
                    Some(c) => Some(c),
                    None => None,
                }
            },
            None => None,
        }
    }
}

/// A record that is closed or a work in progress is never classified and
/// stored: observing it erases any tracked entry for its identifier and
/// touches nothing else.
pub proof fn lemma_non_open_record_is_dropped(pre: Container, c: ChangeInfo, post: Container)
    requires
        !spec_should_track(c),
        spec_set_post(pre, c, post),
    ensures
        post.lookup(c.id_number) is None,
        forall|k: u64| k != c.id_number ==> post.lookup(k) == pre.lookup(k),
{
}

/// Two successive observations of the same change whose classifications
/// share a variant leave the state-change timestamp untouched, even
/// where the record's own `updated` time advanced.
pub proof fn lemma_timestamp_kept_across_same_variant(
    s0: Container,
    r1: ChangeInfo,
    s1: Container,
    r2: ChangeInfo,
    s2: Container,
)
    requires
        spec_set_post(s0, r1, s1),
        spec_set_post(s1, r2, s2),
        r1.id_number == r2.id_number,
        spec_should_track(r1),
        spec_should_track(r2),
        spec_same_variant(spec_review_state(r1), spec_review_state(r2)),
    ensures
        s1.lookup(r1.id_number) matches Some(e1) && s2.lookup(r2.id_number) matches Some(e2)
            && e2.review_state_updated == e1.review_state_updated,
{
}

/// Two successive observations of the same change whose classifications
/// differ in variant stamp the second record's `updated` time.
pub proof fn lemma_timestamp_reset_across_changed_variant(
    s0: Container,
    r1: ChangeInfo,
    s1: Container,
    r2: ChangeInfo,
    s2: Container,
)
    requires
        spec_set_post(s0, r1, s1),
        spec_set_post(s1, r2, s2),
        r1.id_number == r2.id_number,
        spec_should_track(r1),
        spec_should_track(r2),
        !spec_same_variant(spec_review_state(r1), spec_review_state(r2)),
    ensures
        s2.lookup(r2.id_number) matches Some(e2) && e2.review_state_updated == r2.updated,
{
}


/// The state-change timestamp never moves backwards: an observation whose
/// own `updated` time is no older than the stored timestamp leaves a
/// timestamp at least as late as before.
pub proof fn lemma_timestamp_monotone(pre: Container, c: ChangeInfo, post: Container)
    requires
        spec_set_post(pre, c, post),
        spec_should_track(c),
        pre.lookup(c.id_number) matches Some(e) && c.updated >= e.review_state_updated,
    ensures
        post.lookup(c.id_number) matches Some(e2) && (pre.lookup(c.id_number) matches Some(e)
            && e2.review_state_updated >= e.review_state_updated),
{
}

/// Observing a record whose opaque id is not already claimed by a
/// different change keeps every tracked entry's opaque id mapping back
/// to that entry. Together with well-formedness — no index entry points
/// to a missing or mismatched entry — this is the two-way consistency of
/// the secondary index.
pub proof fn lemma_set_keeps_index_linked(pre: Container, c: ChangeInfo, post: Container)
    requires
        pre.wf(),
        post.wf(),
        pre.index_linked(),
        spec_set_post(pre, c, post),
        pre.id_lookup(c.change_id@) is None || pre.id_lookup(c.change_id@) == Some(c.id_number),
    ensures
        post.index_linked(),
{
    let id = c.id_number;
    assert forall|i: int| 0 <= i < post.changes@.len() implies post.id_lookup(
        (#[trigger] post.changes@[i]).change.change_id@,
    ) == Some(post.changes@[i].change.id_number) by {
        lemma_lookup_of_index(post.changes@, i);
        let e = post.changes@[i];
        let k = e.change.id_number;
        assert(post.lookup(k) == Some(e));
        if spec_should_track(c) {
            if k == id {
                assert(e.change == c);
            } else {
                assert(pre.lookup(k) == Some(e));
                assert(spec_has_id(pre.changes@, k));
                let w = spec_idx_of(pre.changes@, k);
                assert(pre.changes@[w] == e);
                assert(pre.id_lookup(e.change.change_id@) == Some(k));
                if e.change.change_id@ == c.change_id@ {
                    assert(pre.id_lookup(c.change_id@) == Some(k));
                } else {
                    if spec_cid_scrubbed(pre, id, e.change.change_id@) {
                        assert(pre.lookup(id) matches Some(o) && o.change.change_id@
                            == e.change.change_id@);
                        assert(pre.id_lookup(e.change.change_id@) == Some(id));
                    }
                    assert(post.id_lookup(e.change.change_id@) == pre.id_lookup(
                        e.change.change_id@,
                    ));
                }
            }
        } else {
            assert(post.lookup(id) is None);
            assert(k != id);
            assert(pre.lookup(k) == Some(e));
            assert(spec_has_id(pre.changes@, k));
            let w = spec_idx_of(pre.changes@, k);
            assert(pre.changes@[w] == e);
            assert(pre.id_lookup(e.change.change_id@) == Some(k));
            if spec_cid_scrubbed(pre, id, e.change.change_id@) {
                assert(pre.id_lookup(e.change.change_id@) == Some(id));
            }
            assert(post.id_lookup(e.change.change_id@) == pre.id_lookup(e.change.change_id@));
        }
    }
}

/// Erasing an entry keeps every remaining entry's opaque id mapping back
/// to that entry.
pub proof fn lemma_remove_keeps_index_linked(pre: Container, id: u64, post: Container)
    requires
        pre.wf(),
        post.wf(),
        pre.index_linked(),
        spec_remove_post(pre, id, post),
    ensures
        post.index_linked(),
{
    assert forall|i: int| 0 <= i < post.changes@.len() implies post.id_lookup(
        (#[trigger] post.changes@[i]).change.change_id@,
    ) == Some(post.changes@[i].change.id_number) by {
        lemma_lookup_of_index(post.changes@, i);
        let e = post.changes@[i];
        let k = e.change.id_number;
        assert(post.lookup(k) == Some(e));
        assert(k != id);
        assert(pre.lookup(k) == Some(e));
        assert(spec_has_id(pre.changes@, k));
        let w = spec_idx_of(pre.changes@, k);
        assert(pre.changes@[w] == e);
        assert(pre.id_lookup(e.change.change_id@) == Some(k));
        if spec_cid_scrubbed(pre, id, e.change.change_id@) {
            assert(pre.id_lookup(e.change.change_id@) == Some(id));
        }
        assert(post.id_lookup(e.change.change_id@) == pre.id_lookup(e.change.change_id@));
    }
}

/// The tracked entry a piece of text names: by number when the text is
/// one, else through the opaque change-id index.
pub open spec fn spec_text_lookup(c: Container, t: Seq<char>) -> Option<Change> {
    match spec_parse_u64(t) {
        Some(n) => c.lookup(n),
        None => match c.id_lookup(t) {
            Some(n) => c.lookup(n),
            None => None,
        },
    }
}

impl Container {
    /// Looks a change up by the text of its number, or failing that by
    /// its opaque change-id.
    pub fn lookup_by_text(&self, text: &String) -> (r: Option<&Change>)
        requires
            self.wf(),
        ensures
            match r {
                Some(c) => spec_text_lookup(*self, text@) == Some(*c),
                None => spec_text_lookup(*self, text@) is None,
            },
    {
        match parse_u64(text.as_str()) {
            Some(n) => self.get(n),
            None => self.get_by_change_id(text),
        }
    }
}

} // verus!
