//! The candidate selector: the decisions of a run, one step at a time.
//!
//! A run draws its candidates at random and without replacement. For each
//! candidate it asks the visit store for the last visit; the first candidate
//! that is due is written to the store and wins. The selector never touches
//! the store itself: it hands out an [`Action`], the caller performs it and
//! hands back a [`StoreReply`].

use vstd::prelude::*;
use crate::cadence::{iso8601_total_seconds, parse_cadence};
use crate::eligibility::{eligible, is_eligible};
use crate::random::random_index;
use crate::site::{SchedulerError, SelectedVisit, Site, SiteView, VisitView};

verus! {

/// What the store answered to the action that the selector handed out last.
#[derive(Clone, Copy, Debug, PartialEq, Eq)]
pub enum StoreReply {
    /// The answer to a lookup: the last recorded visit, if there is one.
    LastVisit(Option<u64>),
    /// The answer to a write: the visit is recorded.
    Recorded,
    /// The store failed.
    Unavailable,
}

/// How a run ends.
#[derive(Clone, Debug, PartialEq, Eq)]
pub enum Outcome {
    /// This site is to be visited; its visit is recorded.
    Selected(SelectedVisit),
    /// No site is due.
    NothingDue,
    /// The run failed on the site with this url (empty where no site was at
    /// hand).
    Failed { error: SchedulerError, url: String },
}

/// An outcome as a mathematical value.
pub enum OutcomeView {
    Selected(VisitView),
    NothingDue,
    Failed { error: SchedulerError, url: Seq<char> },
}

impl View for Outcome {
    type V = OutcomeView;

    open spec fn view(&self) -> OutcomeView {
        match *self {
            Outcome::Selected(visit) => OutcomeView::Selected(visit@),
            Outcome::NothingDue => OutcomeView::NothingDue,
            Outcome::Failed { error, url } => OutcomeView::Failed { error, url: url@ },
        }
    }
}

/// The exit status that an outcome stands for: zero for a decision, be it a
/// site or none, and one for a failure.
pub open spec fn exit_code_of(outcome: OutcomeView) -> i32 {
    if outcome is Failed {
        1
    } else {
        0
    }
}

impl Outcome {
    /// The exit status with which a process reports this outcome.
    pub fn exit_code(&self) -> (code: i32)
        ensures
            code == exit_code_of(self@),
    {
        match self {
            Outcome::Failed { .. } => 1,
            _ => 0,
        }
    }
}

/// What the caller is to do next.
#[derive(Clone, Debug, PartialEq, Eq)]
pub enum Action {
    /// Look up the last visit of `url` and answer with
    /// [`StoreReply::LastVisit`].
    Lookup { url: String },
    /// Record a visit of `url` at `timestamp`, replacing an earlier record,
    /// and answer with [`StoreReply::Recorded`].
    Record { url: String, timestamp: u64 },
    /// The run is over.
    Done(Outcome),
}

/// An action as a mathematical value.
pub enum ActionView {
    Lookup { url: Seq<char> },
    Record { url: Seq<char>, timestamp: u64 },
    Done(OutcomeView),
}

impl View for Action {
    type V = ActionView;

    open spec fn view(&self) -> ActionView {
        match *self {
            Action::Lookup { url } => ActionView::Lookup { url: url@ },
            Action::Record { url, timestamp } => ActionView::Record { url: url@, timestamp },
            Action::Done(outcome) => ActionView::Done(outcome@),
        }
    }
}

/// The request that a selector waits to have answered.
pub enum PendingView {
    /// The last visit of this candidate was asked for.
    Lookup(VisitView),
    /// The visit of this candidate is being recorded.
    Record(VisitView),
    /// Nothing was asked: the run is over.
    Nothing,
}

/// A selector as a mathematical value: the sites not yet tried, the time of
/// the run, and the request in flight.
pub struct SelectorView {
    pub pool: Seq<SiteView>,
    pub now: u64,
    pub pending: PendingView,
}

/// The views of a list of sites, in order.
pub open spec fn site_views(sites: Seq<Site>) -> Seq<SiteView> {
    sites.map_values(|site: Site| site@)
}

/// A selector that has all of `sites` before it and has asked for nothing.
pub open spec fn fresh(sites: Seq<SiteView>, now: u64) -> SelectorView {
    SelectorView { pool: sites, now, pending: PendingView::Nothing }
}

/// The state in which a run is over.
pub open spec fn closed(s: SelectorView) -> SelectorView {
    SelectorView { pending: PendingView::Nothing, ..s }
}

/// The end of a run on a store failure, blamed on `url`.
pub open spec fn store_failure(url: Seq<char>) -> ActionView {
    ActionView::Done(OutcomeView::Failed { error: SchedulerError::StoreUnavailable, url })
}

/// Takes the site at `choice` out of the pool and makes it the candidate;
/// `parsed` is what its cadence reads as. With an empty pool the run ends:
/// nothing is due. A cadence that does not read ends the run as well.
pub open spec fn draw(s: SelectorView, choice: int, parsed: Option<u64>) -> (
    SelectorView,
    ActionView,
) {
    if s.pool.len() == 0 {
        (closed(s), ActionView::Done(OutcomeView::NothingDue))
    } else {
        let site = s.pool[choice];
        let rest = SelectorView { pool: s.pool.remove(choice), ..s };
        match parsed {
            None => (
                closed(rest),
                ActionView::Done(
                    OutcomeView::Failed { error: SchedulerError::InvalidCadence, url: site.url },
                ),
            ),
            Some(cadence_seconds) => (
                SelectorView {
                    pending: PendingView::Lookup(
                        VisitView { name: site.name, url: site.url, cadence_seconds },
                    ),
                    ..rest
                },
                ActionView::Lookup { url: site.url },
            ),
        }
    }
}

/// Whether the answer `reply` makes the selector draw its next candidate:
/// the candidate it asked about is not due, and sites are left.
pub open spec fn draws(s: SelectorView, reply: StoreReply) -> bool {
    &&& s.pending matches PendingView::Lookup(candidate)
    &&& reply matches StoreReply::LastVisit(last_visit)
    &&& !eligible(last_visit, candidate.cadence_seconds, s.now)
    &&& s.pool.len() > 0
}

/// The transition of the selector on `reply`. Where it draws, `choice` is the
/// index drawn and `parsed` what the cadence of the site there reads as;
/// elsewhere neither is looked at.
///
/// A reply that does not answer the request in flight is a failure of the
/// store, and so is every reply once the run is over.
pub open spec fn next(s: SelectorView, reply: StoreReply, choice: int, parsed: Option<u64>) -> (
    SelectorView,
    ActionView,
) {
    match s.pending {
        PendingView::Lookup(candidate) => match reply {
            StoreReply::LastVisit(last_visit) => {
                if eligible(last_visit, candidate.cadence_seconds, s.now) {
                    (
                        SelectorView { pending: PendingView::Record(candidate), ..s },
                        ActionView::Record { url: candidate.url, timestamp: s.now },
                    )
                } else {
                    draw(closed(s), choice, parsed)
                }
            },
            _ => (closed(s), store_failure(candidate.url)),
        },
        PendingView::Record(candidate) => match reply {
            StoreReply::Recorded => (
                closed(s),
                ActionView::Done(OutcomeView::Selected(candidate)),
            ),
            _ => (closed(s), store_failure(candidate.url)),
        },
        PendingView::Nothing => (s, store_failure(Seq::empty())),
    }
}

/// The first draw with the cadence read by the parser.
pub open spec fn first_draw(sites: Seq<SiteView>, now: u64, choice: int) -> (
    SelectorView,
    ActionView,
) {
    draw(fresh(sites, now), choice, iso8601_total_seconds(sites[choice].cadence))
}

/// The transition on `reply` where the selector draws at `choice`, with the
/// cadence read by the parser.
pub open spec fn next_drawing(s: SelectorView, reply: StoreReply, choice: int) -> (
    SelectorView,
    ActionView,
) {
    next(s, reply, choice, iso8601_total_seconds(s.pool[choice].cadence))
}

enum Pending {
    Lookup(SelectedVisit),
    Record(SelectedVisit),
    Nothing,
}

impl View for Pending {
    type V = PendingView;

    closed spec fn view(&self) -> PendingView {
        match *self {
            Pending::Lookup(candidate) => PendingView::Lookup(candidate@),
            Pending::Record(candidate) => PendingView::Record(candidate@),
            Pending::Nothing => PendingView::Nothing,
        }
    }
}

/// The state of one run.
pub struct Selector {
    pool: Vec<Site>,
    now: u64,
    pending: Pending,
}

impl View for Selector {
    type V = SelectorView;

    closed spec fn view(&self) -> SelectorView {
        SelectorView { pool: site_views(self.pool@), now: self.now, pending: self.pending@ }
    }
}

fn failed(error: SchedulerError, url: String) -> (action: Action)
    ensures
        action@ == ActionView::Done(OutcomeView::Failed { error, url: url@ }),
{
    Action::Done(Outcome::Failed { error, url })
}

impl Selector {
    /// Draws the candidate at `choice`, whose cadence reads as `parsed`.
    fn draw_with(&mut self, choice: usize, parsed: Option<u64>) -> (action: Action)
        requires
            old(self)@.pool.len() > 0 ==> choice < old(self)@.pool.len(),
        ensures
            (final(self)@, action@) == draw(old(self)@, choice as int, parsed),
    {
        self.pending = Pending::Nothing;
        if self.pool.len() == 0 {
            return Action::Done(Outcome::NothingDue);
        }
        let ghost before = self.pool@;
        let site = self.pool.remove(choice);
        assert(site_views(self.pool@) =~= site_views(before).remove(choice as int));
        match parsed {
            None => failed(SchedulerError::InvalidCadence, site.url),
            Some(cadence_seconds) => {
                let url = site.url.clone();
                self.pending = Pending::Lookup(
                    SelectedVisit { name: site.name, url: site.url, cadence_seconds },
                );
                Action::Lookup { url }
            },
        }
    }

    /// Starts a run over `sites` at the time `now` with a first draw that the
    /// caller supplies: the index `choice`, and `parsed`, what the cadence
    /// of the site there reads as.
    pub fn start_with(sites: Vec<Site>, now: u64, choice: usize, parsed: Option<u64>) -> (run: (
        Selector,
        Action,
    ))
        requires
            sites.len() > 0 ==> choice < sites.len(),
        ensures
            (run.0@, run.1@) == draw(fresh(site_views(sites@), now), choice as int, parsed),
    {
        let mut selector = Selector { pool: sites, now, pending: Pending::Nothing };
        let action = selector.draw_with(choice, parsed);
        (selector, action)
    }

    /// Starts a run over `sites` at the time `now`: draws the first candidate
    /// from `rng`, every site being as likely as any other, and reads its
    /// cadence.
    pub fn start(sites: Vec<Site>, now: u64, rng: &mut rand::rngs::ThreadRng) -> (run: (
        Selector,
        Action,
    ))
        ensures
            sites.len() == 0 ==> (run.0@, run.1@) == draw(
                fresh(site_views(sites@), now),
                0,
                None,
            ),
            sites.len() > 0 ==> exists|choice: int|
                0 <= choice < sites.len() && (run.0@, run.1@) == #[trigger] first_draw(
                    site_views(sites@),
                    now,
                    choice,
                ),
    {
        if sites.len() == 0 {
            Selector::start_with(sites, now, 0, None)
        } else {
            let choice = random_index(rng, sites.len());
            let parsed = read_cadence(&sites[choice]);
            let ghost views = site_views(sites@);
            let run = Selector::start_with(sites, now, choice, parsed);
            assert((run.0@, run.1@) == first_draw(views, now, choice as int));
            run
        }
    }

    /// The number of sites not yet tried.
    pub fn remaining(&self) -> (count: usize)
        ensures
            count == self@.pool.len(),
    {
        self.pool.len()
    }

    /// The cadence of the site at `index` among those not yet tried, as it
    /// was configured.
    pub fn cadence_at(&self, index: usize) -> (cadence: Option<&str>)
        ensures
            match cadence {
                Some(text) => index < self@.pool.len() && text@
                    == self@.pool[index as int].cadence,
                None => index >= self@.pool.len(),
            },
    {
        if index < self.pool.len() {
            Some(self.pool[index].cadence.as_str())
        } else {
            None
        }
    }

    /// Whether the answer `reply` will make the selector draw its next
    /// candidate.
    pub fn will_draw(&self, reply: StoreReply) -> (drawing: bool)
        ensures
            drawing == draws(self@, reply),
    {
        match &self.pending {
            Pending::Lookup(candidate) => match reply {
                StoreReply::LastVisit(last_visit) => {
                    !is_eligible(last_visit, candidate.cadence_seconds, self.now)
                        && self.pool.len() > 0
                },
                _ => false,
            },
            _ => false,
        }
    }

    /// Takes the store's answer with a draw that the caller supplies: the
    /// index `choice` and `parsed`, what the cadence of the site there reads
    /// as. Neither is looked at unless the answer makes the selector draw.
    pub fn step_with(&mut self, reply: StoreReply, choice: usize, parsed: Option<u64>) -> (action:
        Action)
        requires
            draws(old(self)@, reply) ==> choice < old(self)@.pool.len(),
        ensures
            (final(self)@, action@) == next(old(self)@, reply, choice as int, parsed),
    {
        let mut pending = Pending::Nothing;
        core::mem::swap(&mut self.pending, &mut pending);
        match pending {
            Pending::Lookup(candidate) => match reply {
                StoreReply::LastVisit(last_visit) => {
                    if is_eligible(last_visit, candidate.cadence_seconds, self.now) {
                        let url = candidate.url.clone();
                        self.pending = Pending::Record(candidate);
                        Action::Record { url, timestamp: self.now }
                    } else {
                        self.draw_with(choice, parsed)
                    }
                },
                _ => failed(SchedulerError::StoreUnavailable, candidate.url),
            },
            Pending::Record(candidate) => match reply {
                StoreReply::Recorded => Action::Done(Outcome::Selected(candidate)),
                _ => failed(SchedulerError::StoreUnavailable, candidate.url),
            },
            Pending::Nothing => failed(SchedulerError::StoreUnavailable, String::new()),
        }
    }

    /// Takes the store's answer. Where the candidate asked about is not due,
    /// the next one is drawn from `rng`, every site left being as likely as
    /// any other, and its cadence is read.
    pub fn step(&mut self, reply: StoreReply, rng: &mut rand::rngs::ThreadRng) -> (action: Action)
        ensures
            !draws(old(self)@, reply) ==> (final(self)@, action@) == next(
                old(self)@,
                reply,
                0,
                None,
            ),
            draws(old(self)@, reply) ==> exists|choice: int|
                0 <= choice < old(self)@.pool.len() && (final(self)@, action@)
                    == #[trigger] next_drawing(old(self)@, reply, choice),
    {
        if self.will_draw(reply) {
            let choice = random_index(rng, self.pool.len());
            let parsed = read_cadence(&self.pool[choice]);
            let action = self.step_with(reply, choice, parsed);
            assert((self@, action@) == next_drawing(old(self)@, reply, choice as int));
            action
        } else {
            self.step_with(reply, 0, None)
        }
    }
}

/// Reads the cadence of `site`, keeping the seconds and dropping the error.
fn read_cadence(site: &Site) -> (parsed: Option<u64>)
    ensures
        parsed == iso8601_total_seconds(site@.cadence),
{
    match parse_cadence(site.cadence.as_str()) {
        Ok(seconds) => Some(seconds),
        Err(_) => None,
    }
}

} // verus!
