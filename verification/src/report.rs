//! Aggregation of tracked changes into time buckets and per-repository
//! views, and the text tables rendered from them.

use crate::container::{Change, Container};
use crate::status::{spec_next_step_owner, NextStepOwner};
use crate::text::{
    lemma_str_le_total, lemma_str_le_trans, spec_decimal, spec_str_le, str_le, u64_to_string,
};
use vstd::prelude::*;
use vstd::seq_lib::group_to_multiset_ensures;

verus! {

broadcast use group_to_multiset_ensures;

/// How long a change has been stuck in its current review state, as one of
/// five half-open buckets. The boundaries are checked in order, smallest
/// first, so an elapsed time of exactly 24 hours falls into `Under72Hours`.
#[derive(Clone, Copy, Debug, PartialEq, Eq, Structural)]
pub enum TimeInterval {
    Under24Hours,
    Under72Hours,
    Under2Weeks,
    Under8Weeks,
    Over8Weeks,
}

/// The bucket for an elapsed time of `elapsed` seconds. Thresholds are
/// 24 hours, 72 hours, 2 weeks and 8 weeks, in seconds; anything at or
/// past the last threshold is `Over8Weeks`.
pub open spec fn spec_interval_of(elapsed: int) -> TimeInterval {
    if elapsed < 86400 {
        TimeInterval::Under24Hours
    } else if elapsed < 259200 {
        TimeInterval::Under72Hours
    } else if elapsed < 1209600 {
        TimeInterval::Under2Weeks
    } else if elapsed < 4838400 {
        TimeInterval::Under8Weeks
    } else {
        TimeInterval::Over8Weeks
    }
}

/// The label of a bucket, as shown in report tables.
pub open spec fn spec_interval_text(ti: TimeInterval) -> Seq<char> {
    match ti {
        TimeInterval::Under24Hours => "<24 hours"@,
        TimeInterval::Under72Hours => "<72 hours"@,
        TimeInterval::Under2Weeks => "<2 weeks"@,
        TimeInterval::Under8Weeks => "<8 weeks"@,
        TimeInterval::Over8Weeks => ">8 weeks"@,
    }
}

impl TimeInterval {
    /// The bucket for a state-change timestamp, given the current time.
    /// Both are in seconds; a timestamp in the future counts as fresh.
    pub fn from_timestamp(now: i64, timestamp: i64) -> (r: TimeInterval)
        ensures
            r == spec_interval_of(now - timestamp),
    {
        let elapsed: i128 = now as i128 - timestamp as i128;
        if elapsed < 86400 {
            TimeInterval::Under24Hours
        } else if elapsed < 259200 {
            TimeInterval::Under72Hours
        } else if elapsed < 1209600 {
            TimeInterval::Under2Weeks
        } else if elapsed < 4838400 {
            TimeInterval::Under8Weeks
        } else {
            TimeInterval::Over8Weeks
        }
    }

    /// The label of this bucket.
    pub fn to_text(&self) -> (r: String)
        ensures
            r@ == spec_interval_text(*self),
    {
        match self {
            TimeInterval::Under24Hours => String::from_str("<24 hours"),
            TimeInterval::Under72Hours => String::from_str("<72 hours"),
            TimeInterval::Under2Weeks => String::from_str("<2 weeks"),
            TimeInterval::Under8Weeks => String::from_str("<8 weeks"),
            TimeInterval::Over8Weeks => String::from_str(">8 weeks"),
        }
    }
}

/// An elapsed time of exactly 24 hours falls into the `Under72Hours`
/// bucket, not `Under24Hours`: the 24-hour boundary is exclusive.
pub proof fn lemma_day_boundary_is_under_72_hours(now: int, timestamp: int)
    requires
        now - timestamp == 86400,
    ensures
        spec_interval_of(now - timestamp) == TimeInterval::Under72Hours,
{
}

/// Identifiers are listed in ascending order.
pub open spec fn sorted_ids(s: Seq<u64>) -> bool {
    forall|i: int, j: int| 0 <= i < j < s.len() ==> s[i] <= s[j]
}

/// Texts are listed in ascending lexicographic order.
pub open spec fn sorted_texts(s: Seq<String>) -> bool {
    forall|i: int, j: int| 0 <= i < j < s.len() ==> spec_str_le(s[i]@, s[j]@)
}

/// Inserting an element anywhere adds exactly it to the multiset.
proof fn lemma_insert_to_multiset<A>(s: Seq<A>, i: int, v: A)
    requires
        0 <= i <= s.len(),
    ensures
        s.insert(i, v).to_multiset() =~= s.to_multiset().insert(v),
{
    broadcast use vstd::multiset::group_multiset_axioms;

    let t = s.insert(i, v);
    assert(t.remove(i) =~= s);
    assert(t[i] == v);
    assert(t.contains(v));
    assert(t.to_multiset().count(v) > 0);
    assert(s.to_multiset() =~= t.to_multiset().remove(v));
    assert forall|x: A|
        t.to_multiset().count(x) == s.to_multiset().insert(v).count(x) by {
        if x == v {
            assert(s.to_multiset().count(v) == t.to_multiset().count(v) - 1);
        } else {
            assert(s.to_multiset().count(x) == t.to_multiset().count(x));
        }
    }
}

/// Sorts identifiers ascending; the result holds exactly the same
/// identifiers, multiplicities included.
pub fn sort_ids(src: &Vec<u64>) -> (r: Vec<u64>)
    ensures
        sorted_ids(r@),
        r@.to_multiset() == src@.to_multiset(),
{
    let mut out: Vec<u64> = Vec::new();
    let mut i: usize = 0;
    proof {
        assert(src@.take(0) =~= Seq::empty());
    }
    while i < src.len()
        invariant
            0 <= i <= src@.len(),
            sorted_ids(out@),
            out@.to_multiset() == src@.take(i as int).to_multiset(),
        decreases src@.len() - i,
    {
        let x = src[i];
        let mut p: usize = 0;
        while p < out.len() && out[p] <= x
            invariant
                0 <= p <= out@.len(),
                forall|j: int| 0 <= j < p ==> out@[j] <= x,
            decreases out@.len() - p,
        {
            p = p + 1;
        }
        let ghost before = out@;
        out.insert(p, x);
        proof {
            lemma_insert_to_multiset(before, p as int, x);
            assert(src@.take(i as int + 1).drop_last() =~= src@.take(i as int));
            assert(src@.take(i as int + 1).last() == src@[i as int]);
            assert(src@.take(i as int + 1) =~= src@.take(i as int).push(src@[i as int]));
            assert forall|a: int, b: int| 0 <= a < b < out@.len() implies out@[a] <= out@[b] by {
                if b < p {
                    assert(out@[a] == before[a] && out@[b] == before[b]);
                } else if a < p && b == p {
                    assert(out@[a] == before[a]);
                } else if a < p && b > p {
                    assert(out@[a] == before[a] && out@[b] == before[b - 1]);
                } else if a == p {
                    assert(out@[b] == before[b - 1]);
                    assert(before[p as int] > x);
                    assert(before[b - 1] >= before[p as int]);
                } else {
                    assert(out@[a] == before[a - 1] && out@[b] == before[b - 1]);
                }
            }
        }
        i = i + 1;
    }
    proof {
        assert(src@.take(src@.len() as int) =~= src@);
    }
    out
}

/// Sorts texts lexicographically; the result holds exactly the same
/// texts, multiplicities included.
pub fn sort_texts(src: Vec<String>) -> (r: Vec<String>)
    ensures
        sorted_texts(r@),
        r@.to_multiset() == src@.to_multiset(),
{
    let ghost orig = src@;
    let mut pending = src;
    let mut out: Vec<String> = Vec::new();
    while pending.len() > 0
        invariant
            sorted_texts(out@),
            out@.to_multiset().add(pending@.to_multiset()) =~= orig.to_multiset(),
        decreases pending@.len(),
    {
        broadcast use vstd::multiset::group_multiset_axioms;

        let ghost pend0 = pending@;
        let x = match pending.pop() {
            Some(x) => x,
            None => {
                proof {
                    assert(false);
                }
                unreached()
            },
        };
        proof {
            assert(pend0.drop_last() =~= pend0.remove(pend0.len() - 1));
            assert(pend0.remove(pend0.len() - 1).to_multiset() =~= pend0.to_multiset().remove(
                pend0.last(),
            ));
        }
        let mut p: usize = 0;
        loop
            invariant
                0 <= p <= out@.len(),
                forall|j: int| 0 <= j < p ==> spec_str_le(out@[j]@, x@),
            ensures
                0 <= p <= out@.len(),
                forall|j: int| 0 <= j < p ==> spec_str_le(out@[j]@, x@),
                p < out@.len() ==> !spec_str_le(out@[p as int]@, x@),
            decreases out@.len() - p,
        {
            if p >= out.len() {
                break;
            }
            if !str_le(&out[p], &x) {
                break;
            }
            p = p + 1;
        }
        let ghost before = out@;
        let ghost xv = x;
        out.insert(p, x);
        proof {
            lemma_insert_to_multiset(before, p as int, xv);
            assert forall|a: int, b: int|
                0 <= a < b < out@.len() implies spec_str_le(out@[a]@, out@[b]@) by {
                if b < p {
                    assert(out@[a] == before[a] && out@[b] == before[b]);
                } else if a < p && b == p {
                    assert(out@[a] == before[a]);
                } else if a < p && b > p {
                    assert(out@[a] == before[a] && out@[b] == before[b - 1]);
                } else if a == p {
                    assert(out@[b] == before[b - 1]);
                    assert(!spec_str_le(before[p as int]@, xv@));
                    lemma_str_le_total(before[p as int]@, xv@);
                    if b - 1 > p {
                        assert(spec_str_le(before[p as int]@, before[b - 1]@));
                        lemma_str_le_trans(xv@, before[p as int]@, before[b - 1]@);
                    }
                } else {
                    assert(out@[a] == before[a - 1] && out@[b] == before[b - 1]);
                }
            }
        }
    }
    proof {
        broadcast use vstd::multiset::group_multiset_axioms;

        assert(pending@.to_multiset().len() == 0);
        assert(out@.to_multiset() =~= orig.to_multiset());
    }
    out
}

/// Identifier lists, one per responsible party.
#[derive(Debug)]
pub struct ChangesByOwner {
    pub author: Vec<u64>,
    pub community: Vec<u64>,
    pub maintainer: Vec<u64>,
}

impl ChangesByOwner {
    /// The identifiers recorded for one party, in insertion order.
    pub open spec fn ids(self, owner: NextStepOwner) -> Seq<u64> {
        match owner {
            NextStepOwner::Author => self.author@,
            NextStepOwner::Community => self.community@,
            NextStepOwner::Maintainer => self.maintainer@,
        }
    }

    /// Empty lists for every party.
    pub fn empty() -> (r: ChangesByOwner)
        ensures
            forall|o: NextStepOwner| r.ids(o) == Seq::<u64>::empty(),
    {
        ChangesByOwner { author: Vec::new(), community: Vec::new(), maintainer: Vec::new() }
    }

    /// Records one identifier for one party.
    pub fn increment(&mut self, owner: NextStepOwner, id_number: u64)
        ensures
            forall|o: NextStepOwner|
                final(self).ids(o) == (if o == owner {
                    old(self).ids(o).push(id_number)
                } else {
                    old(self).ids(o)
                }),
    {
        match owner {
            NextStepOwner::Author => self.author.push(id_number),
            NextStepOwner::Community => self.community.push(id_number),
            NextStepOwner::Maintainer => self.maintainer.push(id_number),
        }
    }

    /// How many identifiers one party has.
    pub fn get_count(&self, owner: NextStepOwner) -> (r: u64)
        ensures
            r == self.ids(owner).len(),
    {
        let n: usize = match owner {
            NextStepOwner::Author => self.author.len(),
            NextStepOwner::Community => self.community.len(),
            NextStepOwner::Maintainer => self.maintainer.len(),
        };
        n as u64
    }

    /// One party's identifiers, in ascending order.
    pub fn get_changes(&self, owner: NextStepOwner) -> (r: Vec<u64>)
        ensures
            sorted_ids(r@),
            r@.to_multiset() == self.ids(owner).to_multiset(),
    {
        match owner {
            NextStepOwner::Author => sort_ids(&self.author),
            NextStepOwner::Community => sort_ids(&self.community),
            NextStepOwner::Maintainer => sort_ids(&self.maintainer),
        }
    }
}

impl Default for ChangesByOwner {
    fn default() -> (r: ChangesByOwner)
        ensures
            forall|o: NextStepOwner| r.ids(o) == Seq::<u64>::empty(),
    {
        ChangesByOwner::empty()
    }
}

/// Identifier lists by time bucket and responsible party.
#[derive(Debug)]
pub struct ChangesByOwnerAndTime {
    pub under_24_hours: ChangesByOwner,
    pub under_72_hours: ChangesByOwner,
    pub under_2_weeks: ChangesByOwner,
    pub under_8_weeks: ChangesByOwner,
    pub over_8_weeks: ChangesByOwner,
}

impl ChangesByOwnerAndTime {
    /// The lists of one bucket.
    pub open spec fn bucket(self, ti: TimeInterval) -> ChangesByOwner {
        match ti {
            TimeInterval::Under24Hours => self.under_24_hours,
            TimeInterval::Under72Hours => self.under_72_hours,
            TimeInterval::Under2Weeks => self.under_2_weeks,
            TimeInterval::Under8Weeks => self.under_8_weeks,
            TimeInterval::Over8Weeks => self.over_8_weeks,
        }
    }

    /// The identifiers recorded for one bucket and one party.
    pub open spec fn ids(self, ti: TimeInterval, owner: NextStepOwner) -> Seq<u64> {
        self.bucket(ti).ids(owner)
    }

    /// Empty lists everywhere.
    pub fn empty() -> (r: ChangesByOwnerAndTime)
        ensures
            forall|ti: TimeInterval, o: NextStepOwner| r.ids(ti, o) == Seq::<u64>::empty(),
    {
        ChangesByOwnerAndTime {
            under_24_hours: ChangesByOwner::empty(),
            under_72_hours: ChangesByOwner::empty(),
            under_2_weeks: ChangesByOwner::empty(),
            under_8_weeks: ChangesByOwner::empty(),
            over_8_weeks: ChangesByOwner::empty(),
        }
    }

    /// Records one identifier for one bucket and one party.
    pub fn increment(&mut self, time_interval: TimeInterval, owner: NextStepOwner, id_number: u64)
        ensures
            forall|ti: TimeInterval, o: NextStepOwner|
                final(self).ids(ti, o) == (if ti == time_interval && o == owner {
                    old(self).ids(ti, o).push(id_number)
                } else {
                    old(self).ids(ti, o)
                }),
    {
        match time_interval {
            TimeInterval::Under24Hours => self.under_24_hours.increment(owner, id_number),
            TimeInterval::Under72Hours => self.under_72_hours.increment(owner, id_number),
            TimeInterval::Under2Weeks => self.under_2_weeks.increment(owner, id_number),
            TimeInterval::Under8Weeks => self.under_8_weeks.increment(owner, id_number),
            TimeInterval::Over8Weeks => self.over_8_weeks.increment(owner, id_number),
        }
    }

    /// How many identifiers one bucket has for one party.
    pub fn get_count(&self, time_interval: TimeInterval, owner: NextStepOwner) -> (r: u64)
        ensures
            r == self.ids(time_interval, owner).len(),
    {
        match time_interval {
            TimeInterval::Under24Hours => self.under_24_hours.get_count(owner),
            TimeInterval::Under72Hours => self.under_72_hours.get_count(owner),
            TimeInterval::Under2Weeks => self.under_2_weeks.get_count(owner),
            TimeInterval::Under8Weeks => self.under_8_weeks.get_count(owner),
            TimeInterval::Over8Weeks => self.over_8_weeks.get_count(owner),
        }
    }

    /// One bucket's identifiers for one party, in ascending order.
    pub fn get_changes(&self, time_interval: TimeInterval, owner: NextStepOwner) -> (r: Vec<u64>)
        ensures
            sorted_ids(r@),
            r@.to_multiset() == self.ids(time_interval, owner).to_multiset(),
    {
        match time_interval {
            TimeInterval::Under24Hours => self.under_24_hours.get_changes(owner),
            TimeInterval::Under72Hours => self.under_72_hours.get_changes(owner),
            TimeInterval::Under2Weeks => self.under_2_weeks.get_changes(owner),
            TimeInterval::Under8Weeks => self.under_8_weeks.get_changes(owner),
            TimeInterval::Over8Weeks => self.over_8_weeks.get_changes(owner),
        }
    }
}

impl Default for ChangesByOwnerAndTime {
    fn default() -> (r: ChangesByOwnerAndTime)
        ensures
            forall|ti: TimeInterval, o: NextStepOwner| r.ids(ti, o) == Seq::<u64>::empty(),
    {
        ChangesByOwnerAndTime::empty()
    }
}

/// Whether some repository entry carries the name.
pub open spec fn spec_has_repo(m: Seq<(String, ChangesByOwner)>, name: Seq<char>) -> bool {
    exists|i: int| 0 <= i < m.len() && m[i].0@ == name
}

/// The position of the repository entry with the name; meaningful only
/// under `spec_has_repo`.
pub open spec fn spec_repo_idx(m: Seq<(String, ChangesByOwner)>, name: Seq<char>) -> int {
    choose|i: int| 0 <= i < m.len() && m[i].0@ == name
}

/// The lists of the repository with the name, if any.
pub open spec fn spec_repo_lookup(m: Seq<(String, ChangesByOwner)>, name: Seq<char>) -> Option<
    ChangesByOwner,
> {
    if spec_has_repo(m, name) {
        Some(m[spec_repo_idx(m, name)].1)
    } else {
        None
    }
}

/// No two repository entries carry the same name.
pub open spec fn unique_repos(m: Seq<(String, ChangesByOwner)>) -> bool {
    forall|i: int, j: int| 0 <= i < j < m.len() ==> m[i].0@ != m[j].0@
}

proof fn lemma_repo_lookup_of_index(m: Seq<(String, ChangesByOwner)>, i: int)
    requires
        unique_repos(m),
        0 <= i < m.len(),
    ensures
        spec_repo_lookup(m, m[i].0@) == Some(m[i].1),
{
    let name = m[i].0@;
    assert(spec_has_repo(m, name));
    let w = spec_repo_idx(m, name);
    assert(0 <= w < m.len() && m[w].0@ == name);
    assert(w == i);
}

proof fn lemma_repo_push(m: Seq<(String, ChangesByOwner)>, p: (String, ChangesByOwner))
    requires
        unique_repos(m),
        !spec_has_repo(m, p.0@),
    ensures
        unique_repos(m.push(p)),
        spec_repo_lookup(m.push(p), p.0@) == Some(p.1),
        forall|name: Seq<char>|
            name != p.0@ ==> spec_repo_lookup(m.push(p), name) == spec_repo_lookup(m, name),
{
    let t = m.push(p);
    assert forall|i: int| 0 <= i < m.len() implies m[i].0@ != p.0@ by {
        if m[i].0@ == p.0@ {
            assert(spec_has_repo(m, p.0@));
        }
    }
    assert(unique_repos(t));
    assert(t[m.len() as int] == p);
    lemma_repo_lookup_of_index(t, m.len() as int);
    assert forall|name: Seq<char>| name != p.0@ implies spec_repo_lookup(t, name)
        == spec_repo_lookup(m, name) by {
        if spec_has_repo(m, name) {
            let w = spec_repo_idx(m, name);
            assert(0 <= w < m.len() && m[w].0@ == name);
            assert(t[w] == m[w]);
            lemma_repo_lookup_of_index(m, w);
            lemma_repo_lookup_of_index(t, w);
        } else {
            if spec_has_repo(t, name) {
                let w = spec_repo_idx(t, name);
                assert(0 <= w < t.len() && t[w].0@ == name);
                assert(w < m.len());
                assert(spec_has_repo(m, name));
            }
        }
    }
}

proof fn lemma_repo_update(m: Seq<(String, ChangesByOwner)>, j: int, p: (String, ChangesByOwner))
    requires
        unique_repos(m),
        0 <= j < m.len(),
        m[j].0@ == p.0@,
    ensures
        unique_repos(m.update(j, p)),
        spec_repo_lookup(m.update(j, p), p.0@) == Some(p.1),
        forall|name: Seq<char>|
            name != p.0@ ==> spec_repo_lookup(m.update(j, p), name) == spec_repo_lookup(m, name),
{
    let t = m.update(j, p);
    assert(unique_repos(t));
    assert(t[j] == p);
    lemma_repo_lookup_of_index(t, j);
    assert forall|name: Seq<char>| name != p.0@ implies spec_repo_lookup(t, name)
        == spec_repo_lookup(m, name) by {
        if spec_has_repo(m, name) {
            let w = spec_repo_idx(m, name);
            assert(0 <= w < m.len() && m[w].0@ == name);
            assert(w != j);
            assert(t[w] == m[w]);
            lemma_repo_lookup_of_index(m, w);
            lemma_repo_lookup_of_index(t, w);
        } else {
            if spec_has_repo(t, name) {
                let w = spec_repo_idx(t, name);
                assert(0 <= w < t.len() && t[w].0@ == name);
                assert(w != j);
                assert(m[w].0@ == name);
                assert(spec_has_repo(m, name));
            }
        }
    }
}

/// Identifier lists by repository and responsible party. Repositories
/// appear in the order they were first seen.
#[derive(Debug)]
pub struct ChangesByOwnerAndRepo {
    pub repos: Vec<(String, ChangesByOwner)>,
}

impl ChangesByOwnerAndRepo {
    /// The repository names, in first-seen order.
    pub open spec fn keys(self) -> Seq<String> {
        self.repos@.map_values(|p: (String, ChangesByOwner)| p.0)
    }

    /// The identifiers recorded for one repository and one party.
    pub open spec fn ids(self, name: Seq<char>, owner: NextStepOwner) -> Seq<u64> {
        match spec_repo_lookup(self.repos@, name) {
            Some(c) => c.ids(owner),
            None => Seq::empty(),
        }
    }

    /// Well-formedness: repository names are unique.
    pub open spec fn wf(self) -> bool {
        unique_repos(self.repos@)
    }

    /// No repositories.
    pub fn empty() -> (r: ChangesByOwnerAndRepo)
        ensures
            r.wf(),
            r.repos@ == Seq::<(String, ChangesByOwner)>::empty(),
            forall|name: Seq<char>, o: NextStepOwner| r.ids(name, o) == Seq::<u64>::empty(),
    {
        let r = ChangesByOwnerAndRepo { repos: Vec::new() };
        proof {
            assert(forall|name: Seq<char>| !spec_has_repo(r.repos@, name));
        }
        r
    }

    /// Records one identifier for one repository and one party; a
    /// repository not yet listed is appended.
    pub fn increment(&mut self, repo: String, owner: NextStepOwner, id_number: u64)
        requires
            old(self).wf(),
        ensures
            final(self).wf(),
            forall|name: Seq<char>, o: NextStepOwner|
                final(self).ids(name, o) == (if name == repo@ && o == owner {
                    old(self).ids(name, o).push(id_number)
                } else {
                    old(self).ids(name, o)
                }),
            final(self).keys() == (if spec_has_repo(old(self).repos@, repo@) {
                old(self).keys()
            } else {
                old(self).keys().push(repo)
            }),
    {
        let ghost m0 = self.repos@;
        match find_repo_index(&self.repos, &repo) {
            Some(j) => {
                let mut pair = self.repos.remove(j);
                pair.1.increment(owner, id_number);
                let ghost newpair = pair;
                self.repos.insert(j, pair);
                proof {
                    assert(self.repos@ =~= m0.update(j as int, newpair));
                    lemma_repo_lookup_of_index(m0, j as int);
                    lemma_repo_update(m0, j as int, newpair);
                    assert(self.keys() =~= ChangesByOwnerAndRepo { repos: self.repos }.keys());
                    assert(self.keys() =~= m0.map_values(|p: (String, ChangesByOwner)| p.0));
                }
            },
            None => {
                let mut fresh = ChangesByOwner::empty();
                fresh.increment(owner, id_number);
                let ghost newpair = (repo, fresh);
                self.repos.push((repo, fresh));
                proof {
                    lemma_repo_push(m0, newpair);
                    assert(self.keys() =~= m0.map_values(|p: (String, ChangesByOwner)| p.0).push(
                        repo,
                    ));
                }
            },
        }
    }

    /// The lists of one repository, if it is listed.
    pub fn get_repo_changes(&self, repo: &String) -> (r: Option<&ChangesByOwner>)
        requires
            self.wf(),
        ensures
            match r {
                Some(c) => spec_repo_lookup(self.repos@, repo@) == Some(*c),
                None => spec_repo_lookup(self.repos@, repo@) is None,
            },
    {
        match find_repo_index(&self.repos, repo) {
            Some(j) => {
                proof {
                    lemma_repo_lookup_of_index(self.repos@, j as int);
                }
                Some(&self.repos[j].1)
            },
            None => None,
        }
    }

    /// All repository names, in first-seen order.
    pub fn get_repos(&self) -> (r: Vec<String>)
        ensures
            r@ == self.keys(),
    {
        let mut out: Vec<String> = Vec::new();
        let mut i: usize = 0;
        while i < self.repos.len()
            invariant
                0 <= i <= self.repos@.len(),
                out@ =~= self.repos@.take(i as int).map_values(
                    |p: (String, ChangesByOwner)| p.0,
                ),
            decreases self.repos@.len() - i,
        {
            out.push(self.repos[i].0.clone());
            proof {
                assert(self.repos@.take(i as int + 1).drop_last() =~= self.repos@.take(i as int));
                assert(out@ =~= self.repos@.take(i as int + 1).map_values(
                    |p: (String, ChangesByOwner)| p.0,
                ));
            }
            i = i + 1;
        }
        proof {
            assert(self.repos@.take(self.repos@.len() as int) =~= self.repos@);
        }
        out
    }
}

impl Default for ChangesByOwnerAndRepo {
    fn default() -> (r: ChangesByOwnerAndRepo)
        ensures
            r.wf(),
            r.repos@ == Seq::<(String, ChangesByOwner)>::empty(),
    {
        ChangesByOwnerAndRepo::empty()
    }
}

/// The position of the repository entry with the name, if any.
fn find_repo_index(m: &Vec<(String, ChangesByOwner)>, name: &String) -> (r: Option<usize>)
    ensures
        match r {
            Some(j) => j < m@.len() && m@[j as int].0@ == name@,
            None => !spec_has_repo(m@, name@),
        },
{
    let mut i: usize = 0;
    while i < m.len()
        invariant
            0 <= i <= m@.len(),
            forall|j: int| 0 <= j < i ==> m@[j].0@ != name@,
        decreases m@.len() - i,
    {
        if m[i].0 == *name {
            return Some(i);
        }
        i = i + 1;
    }
    None
}

/// Whether a tracked change passes the optional project and author
/// filters: an exact match on each filter that is present.
pub open spec fn spec_matches_filters(
    c: Change,
    project: Option<String>,
    owner: Option<String>,
) -> bool {
    &&& (project matches Some(p) ==> c.change.project@ == p@)
    &&& (owner matches Some(o) ==> c.change.owner.username@ == o@)
}

/// Whether a tracked change lands in the given time bucket for the given
/// party, under the given filters and current time.
pub open spec fn spec_selected(
    c: Change,
    project: Option<String>,
    owner: Option<String>,
    now: i64,
    ti: TimeInterval,
    who: NextStepOwner,
) -> bool {
    &&& spec_matches_filters(c, project, owner)
    &&& spec_next_step_owner(c.review_state) == Some(who)
    &&& spec_interval_of(now - c.review_state_updated) == ti
}

/// The identifiers of the tracked changes that land in the given bucket
/// for the given party, in store order.
pub open spec fn spec_bucket_ids(
    s: Seq<Change>,
    project: Option<String>,
    owner: Option<String>,
    now: i64,
    ti: TimeInterval,
    who: NextStepOwner,
) -> Seq<u64>
    decreases s.len(),
{
    if s.len() == 0 {
        Seq::empty()
    } else {
        spec_bucket_ids(s.drop_last(), project, owner, now, ti, who) + (if spec_selected(
            s.last(),
            project,
            owner,
            now,
            ti,
            who,
        ) {
            seq![s.last().change.id_number]
        } else {
            Seq::empty()
        })
    }
}

/// Groups the store's tracked changes by time bucket and responsible
/// party, after filtering; a change whose state the chain could not
/// decide is excluded.
pub fn changes_by_owner_time(
    container: &Container,
    now: i64,
    project: Option<String>,
    owner: Option<String>,
) -> (r: ChangesByOwnerAndTime)
    ensures
        forall|ti: TimeInterval, who: NextStepOwner|
            r.ids(ti, who) == spec_bucket_ids(container.changes@, project, owner, now, ti, who),
{
    let mut r = ChangesByOwnerAndTime::empty();
    let s = &container.changes;
    let mut i: usize = 0;
    proof {
        assert(forall|ti: TimeInterval, who: NextStepOwner|
            spec_bucket_ids(s@.take(0), project, owner, now, ti, who) == Seq::<u64>::empty());
    }
    while i < s.len()
        invariant
            0 <= i <= s@.len(),
            s@ == container.changes@,
            forall|ti: TimeInterval, who: NextStepOwner|
                r.ids(ti, who) == spec_bucket_ids(
                    s@.take(i as int),
                    project,
                    owner,
                    now,
                    ti,
                    who,
                ),
        decreases s@.len() - i,
    {
        let c = &s[i];
        let passes_project = match &project {
            Some(p) => c.change.project == *p,
            None => true,
        };
        let passes_owner = match &owner {
            Some(o) => c.change.owner.username == *o,
            None => true,
        };
        let ghost r0 = r;
        if passes_project && passes_owner {
            match NextStepOwner::of_state(&c.review_state) {
                Some(who) => {
                    let ti = TimeInterval::from_timestamp(now, c.review_state_updated);
                    r.increment(ti, who, c.change.id_number);
                },
                None => {},
            }
        }
        proof {
            assert(s@.take(i as int + 1).drop_last() =~= s@.take(i as int));
            assert(s@.take(i as int + 1).last() == s@[i as int]);
            assert forall|ti: TimeInterval, who: NextStepOwner|
                r.ids(ti, who) == spec_bucket_ids(
                    s@.take(i as int + 1),
                    project,
                    owner,
                    now,
                    ti,
                    who,
                ) by {
                if spec_selected(s@[i as int], project, owner, now, ti, who) {
                    assert(r.ids(ti, who) == r0.ids(ti, who).push(s@[i as int].change.id_number));
                    assert(spec_bucket_ids(s@.take(i as int + 1), project, owner, now, ti, who)
                        =~= spec_bucket_ids(s@.take(i as int), project, owner, now, ti, who).push(
                        s@[i as int].change.id_number,
                    ));
                } else {
                    assert(r.ids(ti, who) == r0.ids(ti, who));
                    assert(spec_bucket_ids(s@.take(i as int + 1), project, owner, now, ti, who)
                        =~= spec_bucket_ids(s@.take(i as int), project, owner, now, ti, who));
                }
            }
        }
        i = i + 1;
    }
    proof {
        assert(s@.take(s@.len() as int) =~= s@);
    }
    r
}

/// Whether a tracked change counts for a repository view: it passes the
/// author filter and a party is responsible for it.
pub open spec fn spec_repo_counted(c: Change, owner: Option<String>) -> bool {
    &&& (owner matches Some(o) ==> c.change.owner.username@ == o@)
    &&& spec_next_step_owner(c.review_state) is Some
}

/// The identifiers of the tracked changes of one repository for one
/// party, under the author filter, in store order.
pub open spec fn spec_repo_bucket_ids(
    s: Seq<Change>,
    owner: Option<String>,
    name: Seq<char>,
    who: NextStepOwner,
) -> Seq<u64>
    decreases s.len(),
{
    if s.len() == 0 {
        Seq::empty()
    } else {
        spec_repo_bucket_ids(s.drop_last(), owner, name, who) + (if spec_repo_counted(
            s.last(),
            owner,
        ) && s.last().change.project@ == name && spec_next_step_owner(s.last().review_state)
            == Some(who) {
            seq![s.last().change.id_number]
        } else {
            Seq::empty()
        })
    }
}

/// Whether some listed name reads the same as `name`.
pub open spec fn spec_contains_name(keys: Seq<String>, name: Seq<char>) -> bool {
    exists|i: int| 0 <= i < keys.len() && keys[i]@ == name
}

/// The distinct repository names of the counted changes, in first-seen
/// order.
pub open spec fn spec_repo_keys(s: Seq<Change>, owner: Option<String>) -> Seq<String>
    decreases s.len(),
{
    if s.len() == 0 {
        Seq::empty()
    } else {
        let ks = spec_repo_keys(s.drop_last(), owner);
        if spec_repo_counted(s.last(), owner) && !spec_contains_name(
            ks,
            s.last().change.project@,
        ) {
            ks.push(s.last().change.project)
        } else {
            ks
        }
    }
}

/// Groups the store's tracked changes by repository and responsible
/// party, after filtering by author; a change whose state the chain
/// could not decide is excluded.
pub fn changes_by_owner_repo(container: &Container, owner: Option<String>) -> (r:
    ChangesByOwnerAndRepo)
    ensures
        r.wf(),
        r.keys() == spec_repo_keys(container.changes@, owner),
        forall|name: Seq<char>, who: NextStepOwner|
            r.ids(name, who) == spec_repo_bucket_ids(container.changes@, owner, name, who),
{
    let mut r = ChangesByOwnerAndRepo::empty();
    let s = &container.changes;
    let mut i: usize = 0;
    proof {
        assert(forall|name: Seq<char>, who: NextStepOwner|
            spec_repo_bucket_ids(s@.take(0), owner, name, who) == Seq::<u64>::empty());
        assert(spec_repo_keys(s@.take(0), owner) =~= Seq::<String>::empty());
    }
    while i < s.len()
        invariant
            0 <= i <= s@.len(),
            s@ == container.changes@,
            r.wf(),
            r.keys() == spec_repo_keys(s@.take(i as int), owner),
            forall|name: Seq<char>, who: NextStepOwner|
                r.ids(name, who) == spec_repo_bucket_ids(s@.take(i as int), owner, name, who),
        decreases s@.len() - i,
    {
        let c = &s[i];
        let passes_owner = match &owner {
            Some(o) => c.change.owner.username == *o,
            None => true,
        };
        let ghost r0 = r;
        if passes_owner {
            match NextStepOwner::of_state(&c.review_state) {
                Some(who) => {
                    r.increment(c.change.project.clone(), who, c.change.id_number);
                },
                None => {},
            }
        }
        proof {
            assert(s@.take(i as int + 1).drop_last() =~= s@.take(i as int));
            assert(s@.take(i as int + 1).last() == s@[i as int]);
            if spec_repo_counted(s@[i as int], owner) {
                if spec_contains_name(r0.keys(), s@[i as int].change.project@) {
                    let w = choose|j: int|
                        0 <= j < r0.keys().len() && r0.keys()[j]@
                            == s@[i as int].change.project@;
                    assert(r0.repos@[w].0@ == s@[i as int].change.project@);
                    assert(spec_has_repo(r0.repos@, s@[i as int].change.project@));
                } else {
                    assert forall|j: int| 0 <= j < r0.repos@.len() implies r0.repos@[j].0@
                        != s@[i as int].change.project@ by {
                        if r0.repos@[j].0@ == s@[i as int].change.project@ {
                            assert(r0.keys()[j]@ == s@[i as int].change.project@);
                        }
                    }
                    assert(!spec_has_repo(r0.repos@, s@[i as int].change.project@));
                }
            }
            assert(r.keys() =~= spec_repo_keys(s@.take(i as int + 1), owner));
            assert forall|name: Seq<char>, who: NextStepOwner|
                r.ids(name, who) == spec_repo_bucket_ids(
                    s@.take(i as int + 1),
                    owner,
                    name,
                    who,
                ) by {
                if spec_repo_counted(s@[i as int], owner) && s@[i as int].change.project@ == name
                    && spec_next_step_owner(s@[i as int].review_state) == Some(who) {
                    assert(spec_repo_bucket_ids(s@.take(i as int + 1), owner, name, who)
                        =~= spec_repo_bucket_ids(s@.take(i as int), owner, name, who).push(
                        s@[i as int].change.id_number,
                    ));
                } else {
                    assert(spec_repo_bucket_ids(s@.take(i as int + 1), owner, name, who)
                        =~= spec_repo_bucket_ids(s@.take(i as int), owner, name, who));
                }
            }
        }
        i = i + 1;
    }
    proof {
        assert(s@.take(s@.len() as int) =~= s@);
    }
    r
}

#[verifier::external_type_specification]
#[verifier::external_body]
pub struct ExTable(comfy_table::Table);

/// Whether a table carries this library's fixed styling.
pub uninterp spec fn table_styled(t: comfy_table::Table) -> bool;

/// The header cells a table carries; empty until a header is set.
pub uninterp spec fn table_header(t: comfy_table::Table) -> Seq<Seq<char>>;

/// The rows a table carries, each a list of cells.
pub uninterp spec fn table_rows(t: comfy_table::Table) -> Seq<Seq<Seq<char>>>;

/// The text that a table with this library's fixed styling renders to,
/// as a function of its header and rows.
pub uninterp spec fn table_text(header: Seq<Seq<char>>, rows: Seq<Seq<Seq<char>>>) -> Seq<char>;

/// Relies on comfy_table's `Table::new`, `load_preset` with the UTF8_FULL
/// preset and `apply_modifier` with the UTF8_ROUND_CORNERS modifier: a
/// fresh table with no header and no rows, in this library's one style.
#[verifier::external_body]
fn styled_table() -> (t: comfy_table::Table)
    ensures
        table_styled(t),
        table_header(t) == Seq::<Seq<char>>::empty(),
        table_rows(t) == Seq::<Seq<Seq<char>>>::empty(),
{
    let mut t = comfy_table::Table::new();
    t.load_preset(comfy_table::presets::UTF8_FULL);
    t.apply_modifier(comfy_table::modifiers::UTF8_ROUND_CORNERS);
    t
}

/// Relies on comfy_table's `Table::set_header`: it stores the given cells
/// as the header and touches neither the rows nor the styling.
#[verifier::external_body]
fn table_set_header(t: &mut comfy_table::Table, header: Vec<String>)
    ensures
        table_styled(*final(t)) == table_styled(*old(t)),
        table_header(*final(t)) == header.deep_view(),
        table_rows(*final(t)) == table_rows(*old(t)),
{
    t.set_header(header);
}

/// Relies on comfy_table's `Table::add_row`: it appends the given cells
/// as one row and touches neither the header nor the styling.
#[verifier::external_body]
fn table_add_row(t: &mut comfy_table::Table, row: Vec<String>)
    ensures
        table_styled(*final(t)) == table_styled(*old(t)),
        table_header(*final(t)) == table_header(*old(t)),
        table_rows(*final(t)) == table_rows(*old(t)).push(row.deep_view()),
{
    t.add_row(row);
}

/// Relies on comfy_table's `Display` for `Table`: with the styling fixed
/// by `styled_table`, the rendered text is a function of the header and
/// the rows alone.
#[verifier::external_body]
fn table_render(t: &comfy_table::Table) -> (r: String)
    requires
        table_styled(*t),
    ensures
        r@ == table_text(table_header(*t), table_rows(*t)),
{
    t.to_string()
}

/// Four cells in one list.
fn row4(a: String, b: String, c: String, d: String) -> (r: Vec<String>)
    ensures
        r.deep_view() == seq![a@, b@, c@, d@],
{
    let mut r: Vec<String> = Vec::new();
    r.push(a);
    r.push(b);
    r.push(c);
    r.push(d);
    proof {
        assert(r.deep_view() =~= seq![r@[0]@, r@[1]@, r@[2]@, r@[3]@]);
    }
    r
}

/// The header of both report tables.
pub open spec fn spec_report_header() -> Seq<Seq<char>> {
    seq![""@, "Community"@, "Maintainers"@, "Author"@]
}

fn report_header() -> (r: Vec<String>)
    ensures
        r.deep_view() == spec_report_header(),
{
    row4(
        String::from_str(""),
        String::from_str("Community"),
        String::from_str("Maintainers"),
        String::from_str("Author"),
    )
}

/// One row of the by-time table: the bucket's label and its counts for
/// community, maintainers and the author.
pub open spec fn spec_time_row(c: ChangesByOwnerAndTime, ti: TimeInterval) -> Seq<Seq<char>> {
    seq![
        spec_interval_text(ti),
        spec_decimal(c.ids(ti, NextStepOwner::Community).len()),
        spec_decimal(c.ids(ti, NextStepOwner::Maintainer).len()),
        spec_decimal(c.ids(ti, NextStepOwner::Author).len()),
    ]
}

/// The five rows of the by-time table, one per bucket, freshest first.
pub open spec fn spec_time_rows(c: ChangesByOwnerAndTime) -> Seq<Seq<Seq<char>>> {
    seq![
        spec_time_row(c, TimeInterval::Under24Hours),
        spec_time_row(c, TimeInterval::Under72Hours),
        spec_time_row(c, TimeInterval::Under2Weeks),
        spec_time_row(c, TimeInterval::Under8Weeks),
        spec_time_row(c, TimeInterval::Over8Weeks),
    ]
}

fn time_row(changes: &ChangesByOwnerAndTime, ti: TimeInterval) -> (r: Vec<String>)
    ensures
        r.deep_view() == spec_time_row(*changes, ti),
{
    row4(
        ti.to_text(),
        u64_to_string(changes.get_count(ti, NextStepOwner::Community)),
        u64_to_string(changes.get_count(ti, NextStepOwner::Maintainer)),
        u64_to_string(changes.get_count(ti, NextStepOwner::Author)),
    )
}

/// Renders the by-time aggregation as a text table.
pub fn report_by_owner_time(changes: &ChangesByOwnerAndTime) -> (r: String)
    ensures
        r@ == table_text(spec_report_header(), spec_time_rows(*changes)),
{
    let mut t = styled_table();
    table_set_header(&mut t, report_header());
    table_add_row(&mut t, time_row(changes, TimeInterval::Under24Hours));
    table_add_row(&mut t, time_row(changes, TimeInterval::Under72Hours));
    table_add_row(&mut t, time_row(changes, TimeInterval::Under2Weeks));
    table_add_row(&mut t, time_row(changes, TimeInterval::Under8Weeks));
    table_add_row(&mut t, time_row(changes, TimeInterval::Over8Weeks));
    proof {
        assert(table_rows(t) =~= spec_time_rows(*changes));
    }
    table_render(&t)
}

/// One row of the by-repository table: the repository's name and its
/// counts for community, maintainers and the author.
pub open spec fn spec_repo_row(c: ChangesByOwnerAndRepo, key: String) -> Seq<Seq<char>> {
    seq![
        key@,
        spec_decimal(c.ids(key@, NextStepOwner::Community).len()),
        spec_decimal(c.ids(key@, NextStepOwner::Maintainer).len()),
        spec_decimal(c.ids(key@, NextStepOwner::Author).len()),
    ]
}

/// The rows of the by-repository table, one per listed name.
pub open spec fn spec_repo_rows(c: ChangesByOwnerAndRepo, keys: Seq<String>) -> Seq<
    Seq<Seq<char>>,
>
    decreases keys.len(),
{
    if keys.len() == 0 {
        Seq::empty()
    } else {
        spec_repo_rows(c, keys.drop_last()).push(spec_repo_row(c, keys.last()))
    }
}

/// Renders the by-repository aggregation as a text table, repositories
/// in ascending name order.
pub fn report_by_owner_repo(changes: &ChangesByOwnerAndRepo) -> (r: String)
    requires
        changes.wf(),
    ensures
        exists|keys: Seq<String>|
            {
                &&& sorted_texts(keys)
                &&& keys.to_multiset() == changes.keys().to_multiset()
                &&& r@ == table_text(spec_report_header(), spec_repo_rows(*changes, keys))
            },
{
    let repos = sort_texts(changes.get_repos());
    let ghost keys = repos@;
    let mut t = styled_table();
    table_set_header(&mut t, report_header());
    let mut i: usize = 0;
    proof {
        assert(spec_repo_rows(*changes, keys.take(0)) =~= Seq::<Seq<Seq<char>>>::empty());
    }
    while i < repos.len()
        invariant
            0 <= i <= repos@.len(),
            repos@ == keys,
            changes.wf(),
            table_styled(t),
            table_header(t) == spec_report_header(),
            table_rows(t) == spec_repo_rows(*changes, keys.take(i as int)),
        decreases repos@.len() - i,
    {
        let key = &repos[i];
        let row = match changes.get_repo_changes(key) {
            Some(c) => row4(
                key.clone(),
                u64_to_string(c.get_count(NextStepOwner::Community)),
                u64_to_string(c.get_count(NextStepOwner::Maintainer)),
                u64_to_string(c.get_count(NextStepOwner::Author)),
            ),
            None => row4(
                key.clone(),
                u64_to_string(0),
                u64_to_string(0),
                u64_to_string(0),
            ),
        };
        proof {
            assert(row.deep_view() =~= spec_repo_row(*changes, keys[i as int]));
        }
        table_add_row(&mut t, row);
        proof {
            assert(keys.take(i as int + 1).drop_last() =~= keys.take(i as int));
            assert(keys.take(i as int + 1).last() == keys[i as int]);
            assert(table_rows(t) =~= spec_repo_rows(*changes, keys.take(i as int + 1)));
        }
        i = i + 1;
    }
    proof {
        assert(keys.take(keys.len() as int) =~= keys);
    }
    table_render(&t)
}

/// The five rows of the by-time table computed straight from the store,
/// under the given filters and current time.
pub open spec fn spec_time_report_row(
    s: Seq<Change>,
    project: Option<String>,
    owner: Option<String>,
    now: i64,
    ti: TimeInterval,
) -> Seq<Seq<char>> {
    seq![
        spec_interval_text(ti),
        spec_decimal(spec_bucket_ids(s, project, owner, now, ti, NextStepOwner::Community).len()),
        spec_decimal(spec_bucket_ids(s, project, owner, now, ti, NextStepOwner::Maintainer).len()),
        spec_decimal(spec_bucket_ids(s, project, owner, now, ti, NextStepOwner::Author).len()),
    ]
}

/// All five rows, freshest bucket first.
pub open spec fn spec_time_report_rows(
    s: Seq<Change>,
    project: Option<String>,
    owner: Option<String>,
    now: i64,
) -> Seq<Seq<Seq<char>>> {
    seq![
        spec_time_report_row(s, project, owner, now, TimeInterval::Under24Hours),
        spec_time_report_row(s, project, owner, now, TimeInterval::Under72Hours),
        spec_time_report_row(s, project, owner, now, TimeInterval::Under2Weeks),
        spec_time_report_row(s, project, owner, now, TimeInterval::Under8Weeks),
        spec_time_report_row(s, project, owner, now, TimeInterval::Over8Weeks),
    ]
}

/// The by-time report over the store: filters, buckets and renders in
/// one step.
pub fn report_by_time(
    container: &Container,
    now: i64,
    project: Option<String>,
    owner: Option<String>,
) -> (r: String)
    ensures
        r@ == table_text(
            spec_report_header(),
            spec_time_report_rows(container.changes@, project, owner, now),
        ),
{
    let changes = changes_by_owner_time(container, now, project, owner);
    let r = report_by_owner_time(&changes);
    proof {
        assert(spec_time_rows(changes) =~~= spec_time_report_rows(
            container.changes@,
            project,
            owner,
            now,
        ));
    }
    r
}

/// The rows of the by-repository table computed straight from the store:
/// one row per name, in the given order, with the counts of the changes
/// that pass the author filter.
pub open spec fn spec_repo_report_row(
    s: Seq<Change>,
    owner: Option<String>,
    key: String,
) -> Seq<Seq<char>> {
    seq![
        key@,
        spec_decimal(spec_repo_bucket_ids(s, owner, key@, NextStepOwner::Community).len()),
        spec_decimal(spec_repo_bucket_ids(s, owner, key@, NextStepOwner::Maintainer).len()),
        spec_decimal(spec_repo_bucket_ids(s, owner, key@, NextStepOwner::Author).len()),
    ]
}

/// One row per listed name, in order.
pub open spec fn spec_repo_report_rows(
    s: Seq<Change>,
    owner: Option<String>,
    keys: Seq<String>,
) -> Seq<Seq<Seq<char>>>
    decreases keys.len(),
{
    if keys.len() == 0 {
        Seq::empty()
    } else {
        spec_repo_report_rows(s, owner, keys.drop_last()).push(
            spec_repo_report_row(s, owner, keys.last()),
        )
    }
}

/// The by-repository report over the store: one row per repository that
/// has a counted change, names in ascending order.
pub fn report_by_repo(container: &Container, owner: Option<String>) -> (r: String)
    ensures
        exists|keys: Seq<String>|
            {
                &&& sorted_texts(keys)
                &&& keys.to_multiset() == spec_repo_keys(container.changes@, owner).to_multiset()
                &&& r@ == table_text(
                    spec_report_header(),
                    spec_repo_report_rows(container.changes@, owner, keys),
                )
            },
{
    let changes = changes_by_owner_repo(container, owner);
    let r = report_by_owner_repo(&changes);
    proof {
        let keys = choose|keys: Seq<String>|
            {
                &&& sorted_texts(keys)
                &&& keys.to_multiset() == changes.keys().to_multiset()
                &&& r@ == table_text(spec_report_header(), spec_repo_rows(changes, keys))
            };
        lemma_repo_rows_match(container.changes@, owner, changes, keys);
    }
    r
}

/// Row lists agree between the aggregated view and the store-level
/// statement, for any key order.
proof fn lemma_repo_rows_match(
    s: Seq<Change>,
    owner: Option<String>,
    changes: ChangesByOwnerAndRepo,
    keys: Seq<String>,
)
    requires
        forall|name: Seq<char>, who: NextStepOwner|
            changes.ids(name, who) == spec_repo_bucket_ids(s, owner, name, who),
    ensures
        spec_repo_rows(changes, keys) == spec_repo_report_rows(s, owner, keys),
    decreases keys.len(),
{
    if keys.len() > 0 {
        lemma_repo_rows_match(s, owner, changes, keys.drop_last());
        assert(spec_repo_row(changes, keys.last()) =~~= spec_repo_report_row(
            s,
            owner,
            keys.last(),
        ));
        assert(spec_repo_rows(changes, keys) =~~= spec_repo_report_rows(s, owner, keys));
    }
}

} // verus!
