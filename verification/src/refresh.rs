//! The refresh cycle's decision core: the disarmed guard and the pure
//! compute pipeline (filter, sort, render) between fetching standings and
//! publishing the leaderboard text.
use crate::location::ScoreboardLocation;
use crate::location::spec_armed;
use crate::rank::RankedEntry;
use crate::rank::displayable;
use crate::rank::displayable_pred;
use crate::rank::filter_eligible;
use crate::rank::sort_entries;
use crate::rank::sorted_best_first;
use crate::render::render_message;
use crate::render::render_spec;
use vstd::prelude::*;

verus! {

/// What a refresh cycle is allowed to do: nothing while disarmed, otherwise
/// one full pass that edits the recorded message in the recorded channel.
#[derive(Clone, Copy, PartialEq, Eq, Structural, Debug)]
pub enum RefreshDirective {
    /// The scoreboard is disarmed: the cycle must make no outbound call at
    /// all and end successfully.
    Skip,
    /// The scoreboard is armed: fetch standings and edit this message.
    Run { channel: u64, message: u64 },
}

/// The guard at the head of every refresh cycle: a disarmed scoreboard
/// yields `Skip` — zero outbound calls — and an armed one yields exactly the
/// recorded channel and message.
pub fn plan_refresh(loc: &ScoreboardLocation) -> (d: RefreshDirective)
    ensures
        (d == RefreshDirective::Skip) == !spec_armed(*loc),
        spec_armed(*loc) ==> d == (RefreshDirective::Run {
            channel: loc.channel->0,
            message: loc.message->0,
        }),
{
    match (loc.channel, loc.message) {
        (Some(channel), Some(message)) => RefreshDirective::Run { channel, message },
        _ => RefreshDirective::Skip,
    }
}

/// The pure middle of a refresh cycle: keep the displayable entries, order
/// them best first, and render at most `limit` rows within `max_len`
/// characters. Returns the text, the row count used, and the sorted entries
/// it was rendered from.
pub fn build_scoreboard(entries: &Vec<RankedEntry>, limit: usize, max_len: usize) -> (r: (
    String,
    usize,
    Vec<RankedEntry>,
))
    ensures
        r.2@.to_multiset() == entries@.filter(displayable_pred()).to_multiset(),
        sorted_best_first(r.2@),
        forall|k: int| 0 <= k < r.2@.len() ==> displayable(#[trigger] r.2@[k]),
        r.1 <= limit && r.1 <= r.2@.len(),
        r.0@ == render_spec(r.2@, r.1 as nat),
        r.0@.len() <= max_len || r.1 == 0,
        forall|j: nat|
            r.1 < j <= limit && j <= r.2@.len() ==> #[trigger] render_spec(r.2@, j).len()
                > max_len,
{
    let mut kept = filter_eligible(entries);
    proof {
        assert forall|k: int| 0 <= k < kept@.len() implies displayable(#[trigger] kept@[k]) by {
            entries@.lemma_filter_pred(displayable_pred(), k);
        }
    }
    sort_entries(&mut kept);
    let (rows, text) = render_message(&kept, limit, max_len);
    (text, rows, kept)
}

} // verus!
