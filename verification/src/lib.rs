//! Revisit scheduling: pick one site that is due for a visit, at most once per
//! run, honouring the minimum interval that each site asks for.
//!
//! - [`site`]: the sites, the visit that a run settles on, and the failures.
//! - [`cadence`]: reading a cadence as a count of seconds.
//! - [`eligibility`]: the cooldown rule.
//! - [`selector`]: the decisions of a run, step by step.
//! - [`run`]: what holds of every run, whatever the store answers.
//! - [`faithful`]: what a run comes to against a store that keeps its word.
//! - [`store`]: the visit table and what a lookup found.
//! - [`random`]: the generator that candidates are drawn from.

pub mod cadence;
pub mod eligibility;
pub mod faithful;
pub mod random;
pub mod run;
pub mod selector;
pub mod site;
pub mod store;
