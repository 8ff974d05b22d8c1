//! The sync loop's decisions: which fetch to run, and which changes to
//! retire for inactivity. The fetching and the abandon requests happen
//! outside the library; these functions decide, from plain values.

use crate::data::{ApprovalInfo, ChangeInfo};
use crate::status::{find_label, spec_ci_bot, spec_label_votes};
use vstd::prelude::*;

verus! {

/// A full resync fetches every open change; an incremental fetch only
/// the recently touched ones.
#[derive(Clone, Copy, Debug, PartialEq, Eq, Structural)]
pub enum FetchMode {
    Full,
    Incremental,
}

/// Seconds in two years of 365 days.
pub const TWO_YEARS_SECONDS: i64 = 63072000;

/// Seconds in one year of 365 days.
pub const ONE_YEAR_SECONDS: i64 = 31536000;

/// A full resync is due once a day.
pub fn choose_fetch_mode(now: i64, last_full_sync: i64) -> (r: FetchMode)
    ensures
        r == (if now - last_full_sync >= 86400 {
            FetchMode::Full
        } else {
            FetchMode::Incremental
        }),
{
    let elapsed: i128 = now as i128 - last_full_sync as i128;
    if elapsed >= 86400 {
        FetchMode::Full
    } else {
        FetchMode::Incremental
    }
}

/// A change untouched for over two years is retired unconditionally.
pub fn should_abandon_older_than_two_years(now: i64, updated: i64) -> (r: bool)
    ensures
        r == (now - updated > TWO_YEARS_SECONDS),
{
    (now as i128) - (updated as i128) > TWO_YEARS_SECONDS as i128
}

/// The last vote the continuous-integration account cast with a score of
/// zero or less; later votes shadow earlier ones.
pub open spec fn spec_last_bad_bot_vote(votes: Seq<ApprovalInfo>) -> Option<ApprovalInfo>
    decreases votes.len(),
{
    if votes.len() == 0 {
        None
    } else if votes.last().username@ == spec_ci_bot() && votes.last().value <= 0 {
        Some(votes.last())
    } else {
        spec_last_bad_bot_vote(votes.drop_last())
    }
}

/// A change untouched for over one year whose continuous integration is
/// missing or failing is retired too; the vote that shows it is handed
/// back so the caller can cite it in the abandon message.
pub fn should_abandon_older_than_one_year_and_bad_ci(now: i64, change: &ChangeInfo) -> (r: Option<
    ApprovalInfo,
>)
    ensures
        r == (if now - change.updated > ONE_YEAR_SECONDS {
            spec_last_bad_bot_vote(spec_label_votes(change.labels@, "Verified"@))
        } else {
            None::<ApprovalInfo>
        }),
{
    if !((now as i128) - (change.updated as i128) > ONE_YEAR_SECONDS as i128) {
        return None;
    }
    let name = String::from_str("Verified");
    let bot = String::from_str("jenkins-openbmc-ci");
    let mut k: usize = 0;
    let mut found: Option<ApprovalInfo> = None;
    let ghost votes: Seq<ApprovalInfo> = spec_label_votes(change.labels@, "Verified"@);
    let votes_vec = match find_label(&change.labels, &name) {
        Some(l) => &l.0,
        None => {
            return None;
        },
    };
    while k < votes_vec.len()
        invariant
            0 <= k <= votes_vec@.len(),
            bot@ == spec_ci_bot(),
            votes_vec@ == votes,
            found == spec_last_bad_bot_vote(votes.take(k as int)),
        decreases votes_vec@.len() - k,
    {
        proof {
            assert(votes.take(k as int + 1).drop_last() =~= votes.take(k as int));
            assert(votes.take(k as int + 1).last() == votes[k as int]);
        }
        if votes_vec[k].username == bot && votes_vec[k].value <= 0 {
            found = Some(
                ApprovalInfo {
                    username: votes_vec[k].username.clone(),
                    value: votes_vec[k].value,
                },
            );
        }
        k = k + 1;
    }
    proof {
        assert(votes.take(votes.len() as int) =~= votes);
    }
    found
}

/// Seconds until the next community-review reminder: the top of the
/// current hour plus two hours, and one second of slack.
pub fn seconds_until_reminder(now: i64) -> (r: u64)
    requires
        now >= 0,
    ensures
        r == 7201 - (now as int) % 3600,
{
    let n = now as u64;
    let m = n % 3600;
    (7201 - m) as u64
}

} // verus!
