//! Whole runs of the selector, and what holds of every one of them.
//!
//! A run is a first draw followed by any number of turns. Nothing is assumed
//! of the store: the laws below hold whatever it answers, in whatever order.

use vstd::prelude::*;
use vstd::multiset::Multiset;
use crate::selector::{draw, draws, fresh, next, ActionView, PendingView, SelectorView, StoreReply};
use crate::site::SiteView;

verus! {

/// One turn of a run: the store's answer and, for the case that the selector
/// draws on it, the index drawn and what the cadence of the site there
/// reads as.
pub struct Turn {
    pub reply: StoreReply,
    pub choice: int,
    pub parsed: Option<u64>,
}

/// The state that `turn` leaves behind.
pub open spec fn state_after(s: SelectorView, turn: Turn) -> SelectorView {
    next(s, turn.reply, turn.choice, turn.parsed).0
}

/// The action that `turn` is answered with.
pub open spec fn action_of(s: SelectorView, turn: Turn) -> ActionView {
    next(s, turn.reply, turn.choice, turn.parsed).1
}

/// The actions that the selector hands out over `turns`, in order.
pub open spec fn actions(s: SelectorView, turns: Seq<Turn>) -> Seq<ActionView>
    decreases turns.len(),
{
    if turns.len() == 0 {
        Seq::empty()
    } else {
        seq![action_of(s, turns[0])] + actions(state_after(s, turns[0]), turns.drop_first())
    }
}

/// Every action of a run over `sites`: that of the first draw, then those of
/// the turns.
pub open spec fn run_actions(
    sites: Seq<SiteView>,
    now: u64,
    choice: int,
    parsed: Option<u64>,
    turns: Seq<Turn>,
) -> Seq<ActionView> {
    let first = draw(fresh(sites, now), choice, parsed);
    seq![first.1] + actions(first.0, turns)
}

/// How many of `actions` write to the store.
pub open spec fn writes(actions: Seq<ActionView>) -> nat
    decreases actions.len(),
{
    if actions.len() == 0 {
        0
    } else {
        let rest = writes(actions.drop_first());
        if actions[0] is Record {
            rest + 1
        } else {
            rest
        }
    }
}

/// Every draw of the run takes an index inside the pool.
pub open spec fn drawn_in_range(s: SelectorView, turns: Seq<Turn>) -> bool
    decreases turns.len(),
{
    if turns.len() == 0 {
        true
    } else {
        &&& draws(s, turns[0].reply) ==> 0 <= turns[0].choice < s.pool.len()
        &&& drawn_in_range(state_after(s, turns[0]), turns.drop_first())
    }
}

/// The urls of the candidates whose eligibility is decided over `turns`, in
/// order: a candidate is decided on when its lookup is answered with a last
/// visit.
pub open spec fn evaluated(s: SelectorView, turns: Seq<Turn>) -> Seq<Seq<char>>
    decreases turns.len(),
{
    if turns.len() == 0 {
        Seq::empty()
    } else {
        let rest = evaluated(state_after(s, turns[0]), turns.drop_first());
        match (s.pending, turns[0].reply) {
            (PendingView::Lookup(candidate), StoreReply::LastVisit(_)) => seq![candidate.url]
                + rest,
            _ => rest,
        }
    }
}

/// The urls of `sites`, in order.
pub open spec fn urls(sites: Seq<SiteView>) -> Seq<Seq<char>> {
    sites.map_values(|site: SiteView| site.url)
}

/// The urls that a selector can still decide on: those of its pool and that
/// of the candidate it asked about.
pub open spec fn undecided(s: SelectorView) -> Multiset<Seq<char>> {
    match s.pending {
        PendingView::Lookup(candidate) => urls(s.pool).to_multiset().insert(candidate.url),
        _ => urls(s.pool).to_multiset(),
    }
}

proof fn lemma_writes_prepend(action: ActionView, rest: Seq<ActionView>)
    ensures
        writes(seq![action] + rest) == writes(rest) + if action is Record {
            1nat
        } else {
            0nat
        },
{
    assert((seq![action] + rest).drop_first() =~= rest);
}

proof fn lemma_writes_bounded(s: SelectorView, turns: Seq<Turn>)
    ensures
        writes(actions(s, turns)) <= 1,
        !(s.pending is Lookup) ==> writes(actions(s, turns)) == 0,
    decreases turns.len(),
{
    if turns.len() > 0 {
        let after = state_after(s, turns[0]);
        let rest = turns.drop_first();
        lemma_writes_bounded(after, rest);
        lemma_writes_prepend(action_of(s, turns[0]), actions(after, rest));
    }
}

/// Across a run the store is asked to write at most once, whatever it
/// answers and whatever is drawn.
pub proof fn law_at_most_one_write(
    sites: Seq<SiteView>,
    now: u64,
    choice: int,
    parsed: Option<u64>,
    turns: Seq<Turn>,
)
    ensures
        writes(run_actions(sites, now, choice, parsed, turns)) <= 1,
{
    let first = draw(fresh(sites, now), choice, parsed);
    lemma_writes_bounded(first.0, turns);
    lemma_writes_prepend(first.1, actions(first.0, turns));
}

proof fn lemma_prepend_count(url: Seq<char>, rest: Seq<Seq<char>>, other: Seq<char>)
    ensures
        (seq![url] + rest).to_multiset().count(other) == rest.to_multiset().count(other) + if other
            == url {
            1nat
        } else {
            0nat
        },
{
    broadcast use vstd::seq_lib::group_to_multiset_ensures;

    let whole = seq![url] + rest;
    assert(whole.remove(0) =~= rest);
    assert(whole[0] == url);
    assert(whole.to_multiset().count(url) > 0) by {
        assert(whole.contains(url));
    }
}

proof fn lemma_draw_keeps_undecided(s: SelectorView, choice: int, parsed: Option<u64>)
    requires
        s.pending is Nothing,
        s.pool.len() > 0 ==> 0 <= choice < s.pool.len(),
    ensures
        undecided(draw(s, choice, parsed).0).subset_of(undecided(s)),
{
    broadcast use vstd::seq_lib::group_to_multiset_ensures;

    if s.pool.len() > 0 {
        let before = urls(s.pool);
        assert(urls(s.pool.remove(choice)) =~= before.remove(choice));
        assert(before[choice] == s.pool[choice].url);
        assert(before.to_multiset().count(before[choice]) > 0) by {
            assert(before.contains(before[choice]));
        }
    }
}

proof fn lemma_evaluated_within(s: SelectorView, turns: Seq<Turn>)
    requires
        drawn_in_range(s, turns),
    ensures
        evaluated(s, turns).to_multiset().subset_of(undecided(s)),
    decreases turns.len(),
{
    if turns.len() == 0 {
        assert(evaluated(s, turns).to_multiset() =~= Multiset::empty()) by {
            broadcast use vstd::seq_lib::group_to_multiset_ensures;

            assert(evaluated(s, turns).to_multiset().len() == 0);
        }
    } else {
        let turn = turns[0];
        let after = state_after(s, turn);
        let rest = evaluated(after, turns.drop_first());
        lemma_evaluated_within(after, turns.drop_first());
        match (s.pending, turn.reply) {
            (PendingView::Lookup(candidate), StoreReply::LastVisit(last_visit)) => {
                let idle = SelectorView { pending: PendingView::Nothing, ..s };
                if draws(s, turn.reply) || s.pool.len() == 0 {
                    lemma_draw_keeps_undecided(idle, turn.choice, turn.parsed);
                }
                assert(undecided(after).subset_of(urls(s.pool).to_multiset()));
                assert forall|other: Seq<char>|
                    evaluated(s, turns).to_multiset().count(other) <= undecided(s).count(
                        other,
                    ) by {
                    lemma_prepend_count(candidate.url, rest, other);
                }
            },
            _ => {
                assert(undecided(after).subset_of(undecided(s)));
            },
        }
    }
}

/// Within a run no site is decided on more than once: the urls decided on,
/// each counted as often as it comes up, are among the urls of the sites
/// that the run started with. With sites of distinct urls no url is decided
/// on twice.
pub proof fn law_no_repeat_sampling(
    sites: Seq<SiteView>,
    now: u64,
    choice: int,
    parsed: Option<u64>,
    turns: Seq<Turn>,
)
    requires
        sites.len() > 0 ==> 0 <= choice < sites.len(),
        drawn_in_range(draw(fresh(sites, now), choice, parsed).0, turns),
    ensures
        evaluated(draw(fresh(sites, now), choice, parsed).0, turns).to_multiset().subset_of(
            urls(sites).to_multiset(),
        ),
        urls(sites).no_duplicates() ==> evaluated(
            draw(fresh(sites, now), choice, parsed).0,
            turns,
        ).no_duplicates(),
{
    let start = fresh(sites, now);
    let first = draw(start, choice, parsed).0;
    let decided = evaluated(first, turns);
    lemma_draw_keeps_undecided(start, choice, parsed);
    lemma_evaluated_within(first, turns);
    assert(decided.to_multiset().subset_of(urls(sites).to_multiset()));
    if urls(sites).no_duplicates() {
        urls(sites).lemma_multiset_has_no_duplicates();
        assert forall|url: Seq<char>| decided.to_multiset().contains(url) implies decided
            .to_multiset().count(url) == 1 by {
            assert(decided.to_multiset().count(url) <= urls(sites).to_multiset().count(url));
        }
        decided.lemma_multiset_has_no_duplicates_conv();
    }
}

} // verus!
