use revisit_scheduler::cadence::parse_cadence;
use revisit_scheduler::site::SchedulerError;

#[test]
fn one_day_is_86400_seconds() {
    assert_eq!(parse_cadence("P1D"), Ok(86400));
}

#[test]
fn hours_minutes_and_seconds_add_up() {
    assert_eq!(parse_cadence("PT1H"), Ok(3600));
    assert_eq!(parse_cadence("PT6H"), Ok(21600));
    assert_eq!(parse_cadence("PT1M"), Ok(60));
    assert_eq!(parse_cadence("PT30S"), Ok(30));
    assert_eq!(parse_cadence("P1DT1H1M1S"), Ok(90061));
}

#[test]
fn a_week_is_seven_days() {
    assert_eq!(parse_cadence("P1W"), Ok(604800));
}

#[test]
fn a_zero_duration_is_zero_seconds() {
    assert_eq!(parse_cadence("PT0S"), Ok(0));
}

#[test]
fn a_fraction_of_a_unit_counts() {
    assert_eq!(parse_cadence("PT1.5M"), Ok(90));
    assert_eq!(parse_cadence("PT0.5H"), Ok(1800));
}

#[test]
fn a_fraction_of_a_second_is_cut_off() {
    assert_eq!(parse_cadence("PT1.5S"), Ok(1));
    assert_eq!(parse_cadence("PT0.9S"), Ok(0));
}

#[test]
fn text_that_is_no_duration_is_rejected() {
    assert_eq!(parse_cadence(""), Err(SchedulerError::InvalidCadence));
    assert_eq!(parse_cadence("P"), Err(SchedulerError::InvalidCadence));
    assert_eq!(parse_cadence("daily"), Err(SchedulerError::InvalidCadence));
    assert_eq!(parse_cadence("1D"), Err(SchedulerError::InvalidCadence));
    assert_eq!(parse_cadence("P1D and more"), Err(SchedulerError::InvalidCadence));
}

#[test]
fn months_and_years_are_rejected() {
    assert_eq!(parse_cadence("P1M"), Err(SchedulerError::InvalidCadence));
    assert_eq!(parse_cadence("P1Y"), Err(SchedulerError::InvalidCadence));
    assert_eq!(parse_cadence("P1Y2M3D"), Err(SchedulerError::InvalidCadence));
}

#[test]
fn the_same_text_reads_the_same_twice() {
    assert_eq!(parse_cadence("PT90M"), parse_cadence("PT90M"));
    assert_eq!(parse_cadence("PT90M"), Ok(5400));
}

#[test]
fn each_failure_has_its_own_wording() {
    let input = SchedulerError::InputUnreadable.describe();
    let cadence = SchedulerError::InvalidCadence.describe();
    let store = SchedulerError::StoreUnavailable.describe();
    assert_eq!(input, "the site list cannot be read");
    assert_eq!(cadence, "the cadence is not a duration in seconds");
    assert_eq!(store, "the visit store is unavailable");
}
