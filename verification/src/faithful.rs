//! Runs against a store that keeps its word: it answers every lookup with
//! what was recorded last, records what it is told to, and never fails.
//!
//! Against such a store the selector does what a scheduler should: the site
//! it selects is due and is the one written; it reports that nothing is due
//! only when no site is; and the store changes by that one record or not at
//! all.

use vstd::prelude::*;
use crate::cadence::iso8601_total_seconds;
use crate::eligibility::eligible;
use crate::selector::{
    draws, first_draw, next_drawing, ActionView, OutcomeView, PendingView, SelectorView,
    StoreReply,
};
use crate::site::{SchedulerError, SiteView, VisitView};

verus! {

/// The last visit that `store` holds for `url`.
pub open spec fn recorded(store: Map<Seq<char>, u64>, url: Seq<char>) -> Option<u64> {
    if store.dom().contains(url) {
        Some(store[url])
    } else {
        None
    }
}

/// What a faithful store answers to `action`.
pub open spec fn answer(store: Map<Seq<char>, u64>, action: ActionView) -> StoreReply {
    match action {
        ActionView::Lookup { url } => StoreReply::LastVisit(recorded(store, url)),
        ActionView::Record { .. } => StoreReply::Recorded,
        ActionView::Done(_) => StoreReply::Unavailable,
    }
}

/// What a faithful store holds once it has performed `action`.
pub open spec fn store_after(store: Map<Seq<char>, u64>, action: ActionView) -> Map<
    Seq<char>,
    u64,
> {
    match action {
        ActionView::Record { url, timestamp } => store.insert(url, timestamp),
        _ => store,
    }
}

/// Recording two visits of one url, one after the other, leaves a faithful
/// store with one record for that url, which holds the time of the second
/// visit; the records of other urls are as they were.
pub proof fn law_record_twice(store: Map<Seq<char>, u64>, url: Seq<char>, first: u64, second: u64)
    ensures
        ({
            let once = store_after(store, ActionView::Record { url, timestamp: first });
            let twice = store_after(once, ActionView::Record { url, timestamp: second });
            &&& recorded(twice, url) == Some(second)
            &&& twice.dom() == store.dom().insert(url)
            &&& twice == store.insert(url, second)
        }),
{
    let twice = store.insert(url, first).insert(url, second);
    assert(twice =~= store.insert(url, second));
    assert(twice.dom() =~= store.dom().insert(url));
}

/// Carries a run on from the state `s` and its pending `action`, one turn
/// for each of `choices`, until it is over: the last action handed out and
/// the store as it is then. Each cadence reads as the parser reads it.
pub open spec fn served(
    s: SelectorView,
    action: ActionView,
    store: Map<Seq<char>, u64>,
    choices: Seq<int>,
) -> (ActionView, Map<Seq<char>, u64>)
    decreases choices.len(),
{
    if choices.len() == 0 || action is Done {
        (action, store)
    } else {
        let turn = next_drawing(s, answer(store, action), choices[0]);
        served(turn.0, turn.1, store_after(store, action), choices.drop_first())
    }
}

/// Every draw of the run takes an index inside the pool.
pub open spec fn choices_in_range(
    s: SelectorView,
    action: ActionView,
    store: Map<Seq<char>, u64>,
    choices: Seq<int>,
) -> bool
    decreases choices.len(),
{
    if choices.len() == 0 || action is Done {
        true
    } else {
        let turn = next_drawing(s, answer(store, action), choices[0]);
        &&& draws(s, answer(store, action)) ==> 0 <= choices[0] < s.pool.len()
        &&& choices_in_range(turn.0, turn.1, store_after(store, action), choices.drop_first())
    }
}

/// A whole run over `sites` against a faithful store: the first draw at
/// `first`, then one turn for each of `choices`.
pub open spec fn faithful_run(
    sites: Seq<SiteView>,
    now: u64,
    store: Map<Seq<char>, u64>,
    first: int,
    choices: Seq<int>,
) -> (ActionView, Map<Seq<char>, u64>) {
    let start = first_draw(sites, now, first);
    served(start.0, start.1, store, choices)
}

/// `visit` is what selecting `site` gives: its name, its url, and its
/// cadence as the parser reads it.
pub open spec fn selection_of(site: SiteView, visit: VisitView) -> bool {
    &&& visit.name == site.name
    &&& visit.url == site.url
    &&& iso8601_total_seconds(site.cadence) == Some(visit.cadence_seconds)
}

/// The cadence of `site` reads, and by `store` the site is not due at `now`.
pub open spec fn in_cooldown(site: SiteView, store: Map<Seq<char>, u64>, now: u64) -> bool {
    &&& iso8601_total_seconds(site.cadence) matches Some(cadence_seconds)
    &&& !eligible(recorded(store, site.url), cadence_seconds, now)
}

/// `site` has the url `url` and a cadence that does not read.
pub open spec fn unreadable(site: SiteView, url: Seq<char>) -> bool {
    &&& site.url == url
    &&& iso8601_total_seconds(site.cadence) is None
}

/// What the last action of a run and the store after it must be, for a run
/// over `sites` that started at `now` on `store`.
pub open spec fn settled(
    sites: Seq<SiteView>,
    now: u64,
    store: Map<Seq<char>, u64>,
    last: ActionView,
    after: Map<Seq<char>, u64>,
) -> bool {
    match last {
        ActionView::Done(OutcomeView::Selected(visit)) => {
            &&& after == store.insert(visit.url, now)
            &&& eligible(recorded(store, visit.url), visit.cadence_seconds, now)
            &&& exists|i: int| 0 <= i < sites.len() && #[trigger] selection_of(sites[i], visit)
        },
        ActionView::Done(OutcomeView::NothingDue) => {
            &&& after == store
            &&& forall|i: int| 0 <= i < sites.len() ==> #[trigger] in_cooldown(sites[i], store, now)
        },
        ActionView::Done(OutcomeView::Failed { error, url }) => {
            &&& after == store
            &&& error == SchedulerError::InvalidCadence
            &&& exists|i: int| 0 <= i < sites.len() && #[trigger] unreadable(sites[i], url)
        },
        _ => after == store,
    }
}

/// The state and its pending action belong together, and a pending write is
/// for a candidate that is due by `store`.
spec fn coherent(s: SelectorView, action: ActionView, store: Map<Seq<char>, u64>) -> bool {
    match action {
        ActionView::Lookup { url } => s.pending matches PendingView::Lookup(candidate)
            && candidate.url == url,
        ActionView::Record { url, timestamp } => {
            &&& s.pending matches PendingView::Record(candidate)
            &&& candidate.url == url
            &&& timestamp == s.now
            &&& eligible(recorded(store, url), candidate.cadence_seconds, s.now)
        },
        ActionView::Done(_) => false,
    }
}

/// What `settled` says, told of a state in mid-run: the pool stands for the
/// sites, and the candidate in flight is accounted for by itself.
spec fn settled_from(
    s: SelectorView,
    store: Map<Seq<char>, u64>,
    last: ActionView,
    after: Map<Seq<char>, u64>,
) -> bool {
    match last {
        ActionView::Done(OutcomeView::Selected(visit)) => {
            &&& after == store.insert(visit.url, s.now)
            &&& eligible(recorded(store, visit.url), visit.cadence_seconds, s.now)
            &&& {
                ||| s.pending == PendingView::Lookup(visit)
                ||| s.pending == PendingView::Record(visit)
                ||| exists|i: int|
                    0 <= i < s.pool.len() && #[trigger] selection_of(s.pool[i], visit)
            }
        },
        ActionView::Done(OutcomeView::NothingDue) => {
            &&& after == store
            &&& forall|i: int|
                0 <= i < s.pool.len() ==> #[trigger] in_cooldown(s.pool[i], store, s.now)
            &&& s.pending matches PendingView::Lookup(candidate) ==> !eligible(
                recorded(store, candidate.url),
                candidate.cadence_seconds,
                s.now,
            )
        },
        ActionView::Done(OutcomeView::Failed { error, url }) => {
            &&& after == store
            &&& error == SchedulerError::InvalidCadence
            &&& exists|i: int| 0 <= i < s.pool.len() && #[trigger] unreadable(s.pool[i], url)
        },
        _ => after == store,
    }
}

/// The turns after which a run is over at the latest.
spec fn turns_left(s: SelectorView, action: ActionView) -> nat {
    match action {
        ActionView::Lookup { .. } => s.pool.len() + 2,
        ActionView::Record { .. } => 1,
        ActionView::Done(_) => 0,
    }
}

proof fn lemma_served_write(
    s: SelectorView,
    action: ActionView,
    store: Map<Seq<char>, u64>,
    choices: Seq<int>,
)
    requires
        coherent(s, action, store),
        action is Record,
    ensures
        served(s, action, store, choices) == if choices.len() == 0 {
            (action, store)
        } else {
            (
                ActionView::Done(OutcomeView::Selected(s.pending->Record_0)),
                store.insert(s.pending->Record_0.url, s.now),
            )
        },
{
    if choices.len() > 0 {
        let turn = next_drawing(s, answer(store, action), choices[0]);
        assert(served(turn.0, turn.1, store_after(store, action), choices.drop_first()) == (
            turn.1,
            store_after(store, action),
        ));
    }
}

/// Carries what is known of a run from the state after a draw over to the
/// pool that the draw was made from.
proof fn lemma_settled_through_draw(
    pool: Seq<SiteView>,
    choice: int,
    s: SelectorView,
    store: Map<Seq<char>, u64>,
    last: ActionView,
    after: Map<Seq<char>, u64>,
)
    requires
        0 <= choice < pool.len(),
        s.pool == pool.remove(choice),
        s.pending matches PendingView::Lookup(candidate) && selection_of(pool[choice], candidate),
        settled_from(s, store, last, after),
    ensures
        settled(pool, s.now, store, last, after),
{
    assert forall|j: int| 0 <= j < s.pool.len() implies s.pool[j] == pool[if j < choice {
        j
    } else {
        j + 1
    }] by {}
    match last {
        ActionView::Done(OutcomeView::Selected(visit)) => {
            if s.pending == PendingView::Lookup(visit) {
                assert(selection_of(pool[choice], visit));
            } else {
                let j = choose|j: int|
                    0 <= j < s.pool.len() && #[trigger] selection_of(s.pool[j], visit);
                let i = if j < choice {
                    j
                } else {
                    j + 1
                };
                assert(selection_of(pool[i], visit));
            }
        },
        ActionView::Done(OutcomeView::NothingDue) => {
            assert forall|i: int| 0 <= i < pool.len() implies #[trigger] in_cooldown(
                pool[i],
                store,
                s.now,
            ) by {
                if i < choice {
                    assert(in_cooldown(s.pool[i], store, s.now));
                } else if i > choice {
                    assert(in_cooldown(s.pool[i - 1], store, s.now));
                }
            }
        },
        ActionView::Done(OutcomeView::Failed { error, url }) => {
            let j = choose|j: int| 0 <= j < s.pool.len() && #[trigger] unreadable(s.pool[j], url);
            let i = if j < choice {
                j
            } else {
                j + 1
            };
            assert(unreadable(pool[i], url));
        },
        _ => {},
    }
}

proof fn lemma_served(
    s: SelectorView,
    action: ActionView,
    store: Map<Seq<char>, u64>,
    choices: Seq<int>,
)
    requires
        coherent(s, action, store),
        choices_in_range(s, action, store, choices),
    ensures
        settled_from(
            s,
            store,
            served(s, action, store, choices).0,
            served(s, action, store, choices).1,
        ),
        choices.len() >= turns_left(s, action) ==> served(s, action, store, choices).0 is Done,
    decreases choices.len(),
{
    if choices.len() == 0 {
        return ;
    }
    let choice = choices[0];
    let rest = choices.drop_first();
    let turn = next_drawing(s, answer(store, action), choice);
    match action {
        ActionView::Record { .. } => {
            lemma_served_write(s, action, store, choices);
        },
        ActionView::Lookup { .. } => {
            if turn.1 is Done {
                assert(served(turn.0, turn.1, store, rest) == (turn.1, store));
                match turn.1 {
                    ActionView::Done(OutcomeView::Failed { error, url }) => {
                        assert(unreadable(s.pool[choice], url));
                    },
                    _ => {},
                }
            } else if turn.1 is Record {
                lemma_served_write(turn.0, turn.1, store, rest);
            } else {
                lemma_served(turn.0, turn.1, store, rest);
                let end = served(turn.0, turn.1, store, rest);
                lemma_settled_through_draw(s.pool, choice, turn.0, store, end.0, end.1);
            }
        },
        ActionView::Done(_) => {},
    }
}

/// Against a faithful store a run ends in one of three ways, and after more
/// turns than there are sites it has ended.
///
/// - A site is selected: it is one of the sites, it is due by what the
///   store held, and the store now holds the time of the run for its url
///   and is otherwise as it was.
/// - Nothing is due: the cadence of every site reads, no site is due by
///   what the store holds, and the store is as it was.
/// - The run failed: the cadence of one of the sites does not read, the run
///   is blamed on that site, and the store is as it was.
///
/// A run that is cut short has left the store as it was.
pub proof fn law_faithful_run(
    sites: Seq<SiteView>,
    now: u64,
    store: Map<Seq<char>, u64>,
    first: int,
    choices: Seq<int>,
)
    requires
        sites.len() > 0 ==> 0 <= first < sites.len(),
        choices_in_range(
            first_draw(sites, now, first).0,
            first_draw(sites, now, first).1,
            store,
            choices,
        ),
    ensures
        settled(
            sites,
            now,
            store,
            faithful_run(sites, now, store, first, choices).0,
            faithful_run(sites, now, store, first, choices).1,
        ),
        choices.len() > sites.len() ==> faithful_run(sites, now, store, first, choices).0 is Done,
{
    let start = first_draw(sites, now, first);
    if start.1 is Done {
        assert(served(start.0, start.1, store, choices) == (start.1, store));
        match start.1 {
            ActionView::Done(OutcomeView::Failed { error, url }) => {
                assert(unreadable(sites[first], url));
            },
            _ => {},
        }
    } else {
        lemma_served(start.0, start.1, store, choices);
        let end = served(start.0, start.1, store, choices);
        lemma_settled_through_draw(sites, first, start.0, store, end.0, end.1);
    }
}

} // verus!
