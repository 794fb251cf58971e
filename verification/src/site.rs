//! The data that a run works on: configured sites, the visit that a run
//! settles on, and the ways a run can fail.

use vstd::prelude::*;

verus! {

/// One configured site. `url` identifies the site in the visit store;
/// `cadence` is the minimum interval between two visits, as an ISO 8601
/// duration such as `P1D` or `PT6H`.
#[derive(Clone, Debug, PartialEq, Eq)]
pub struct Site {
    pub name: String,
    pub url: String,
    pub cadence: String,
}

/// A site as a mathematical value.
pub struct SiteView {
    pub name: Seq<char>,
    pub url: Seq<char>,
    pub cadence: Seq<char>,
}

impl View for Site {
    type V = SiteView;

    open spec fn view(&self) -> SiteView {
        SiteView { name: self.name@, url: self.url@, cadence: self.cadence@ }
    }
}

/// A site whose cadence has been read: the candidate of a run, and its
/// selection once the visit is recorded.
#[derive(Clone, Debug, PartialEq, Eq)]
pub struct SelectedVisit {
    pub name: String,
    pub url: String,
    pub cadence_seconds: u64,
}

/// A candidate or selection as a mathematical value.
pub struct VisitView {
    pub name: Seq<char>,
    pub url: Seq<char>,
    pub cadence_seconds: u64,
}

impl View for SelectedVisit {
    type V = VisitView;

    open spec fn view(&self) -> VisitView {
        VisitView { name: self.name@, url: self.url@, cadence_seconds: self.cadence_seconds }
    }
}

/// Why a run ended without a decision. Each of them is fatal to the run:
/// none is retried.
#[derive(Clone, Copy, Debug, PartialEq, Eq, Structural)]
pub enum SchedulerError {
    /// The site list is missing or cannot be read as a list of sites.
    InputUnreadable,
    /// The cadence of a drawn site is no duration with a fixed length in
    /// seconds.
    InvalidCadence,
    /// The visit store could not be opened, or a lookup or a write failed.
    StoreUnavailable,
}

impl SchedulerError {
    /// The wording of each failure.
    pub open spec fn description(self) -> Seq<char> {
        match self {
            SchedulerError::InputUnreadable => "the site list cannot be read"@,
            SchedulerError::InvalidCadence => "the cadence is not a duration in seconds"@,
            SchedulerError::StoreUnavailable => "the visit store is unavailable"@,
        }
    }

    /// Names the failure for the user. The caller adds the site or file that
    /// it came up on.
    pub fn describe(&self) -> (text: &'static str)
        ensures
            text@ == self.description(),
    {
        match self {
            SchedulerError::InputUnreadable => "the site list cannot be read",
            SchedulerError::InvalidCadence => "the cadence is not a duration in seconds",
            SchedulerError::StoreUnavailable => "the visit store is unavailable",
        }
    }
}

} // verus!
