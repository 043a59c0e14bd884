use ndrpc::model::preset::Preset;
use ndrpc::presence::cycle::{PresetCycle, UPDATE_INTERVAL_MILLIS};
use ndrpc::presence::reconnect::{
    UpdateOutcome, UpdateTracker, CLIENT_RECONNECT_THRESHOLD, DYNAMIC_RECONNECT_THRESHOLD,
    RECONNECT_RETRY_MILLIS,
};

fn preset(details: &str) -> Preset {
    Preset { state: None, details: Some(details.to_string()), assets: None, buttons: None }
}

#[test]
fn tracker_reconnects_every_third_failure_with_threshold_one() {
    let mut t = UpdateTracker::new(1);
    assert_eq!(t.record(false), UpdateOutcome::Failed);
    assert_eq!(t.failures(), 1);
    assert_eq!(t.record(false), UpdateOutcome::Failed);
    assert_eq!(t.failures(), 2);
    assert_eq!(t.record(false), UpdateOutcome::Reconnect);
    assert_eq!(t.failures(), 0);
    assert_eq!(t.record(false), UpdateOutcome::Failed);
}

#[test]
fn tracker_reconnects_every_fourth_failure_with_threshold_two() {
    let mut t = UpdateTracker::new(2);
    let outcomes: Vec<UpdateOutcome> = (0..8).map(|_| t.record(false)).collect();
    assert_eq!(outcomes, vec![
            UpdateOutcome::Failed,
            UpdateOutcome::Failed,
            UpdateOutcome::Failed,
            UpdateOutcome::Reconnect,
            UpdateOutcome::Failed,
            UpdateOutcome::Failed,
            UpdateOutcome::Failed,
            UpdateOutcome::Reconnect
        ]);
}

#[test]
fn successes_do_not_reset_the_count() {
    let mut t = UpdateTracker::new(1);
    assert_eq!(t.record(false), UpdateOutcome::Failed);
    assert_eq!(t.record(true), UpdateOutcome::Updated);
    assert_eq!(t.failures(), 1);
    assert_eq!(t.record(false), UpdateOutcome::Failed);
    assert_eq!(t.record(true), UpdateOutcome::Updated);
    assert_eq!(t.record(false), UpdateOutcome::Reconnect);
    assert_eq!(t.failures(), 0);
}

#[test]
fn tracker_with_zero_threshold() {
    let mut t = UpdateTracker::new(0);
    assert_eq!(t.record(false), UpdateOutcome::Failed);
    assert_eq!(t.record(false), UpdateOutcome::Reconnect);
    assert_eq!(t.record(true), UpdateOutcome::Updated);
    assert_eq!(t.failures(), 0);
}

#[test]
fn cycle_goes_round_in_order() {
    let mut c = PresetCycle::new(vec![preset("a"), preset("b"), preset("c")]);
    assert_eq!(c.len(), 3);
    let shown: Vec<usize> = (0..7).map(|_| c.next().unwrap()).collect();
    assert_eq!(shown, vec![0, 1, 2, 0, 1, 2, 0]);
    assert_eq!(c.preset(2).details.as_deref(), Some("c"));
}

#[test]
fn cycle_of_one_repeats_it() {
    let mut c = PresetCycle::new(vec![preset("only")]);
    for _ in 0..4 {
        assert_eq!(c.next(), Some(0));
    }
}

#[test]
fn empty_cycle_gives_nothing() {
    let mut c = PresetCycle::new(Vec::new());
    assert_eq!(c.next(), None);
    assert_eq!(c.next(), None);
    assert_eq!(c.len(), 0);
}

#[test]
fn reload_starts_from_first() {
    let mut c = PresetCycle::new(vec![preset("a"), preset("b"), preset("c")]);
    assert_eq!(c.next(), Some(0));
    assert_eq!(c.next(), Some(1));
    c.reload(vec![preset("x"), preset("y")]);
    assert_eq!(c.next(), Some(0));
    assert_eq!(c.preset(0).details.as_deref(), Some("x"));
    assert_eq!(c.next(), Some(1));
    assert_eq!(c.next(), Some(0));
    c.reload(Vec::new());
    assert_eq!(c.next(), None);
}

#[test]
fn timing_and_thresholds() {
    assert_eq!(UPDATE_INTERVAL_MILLIS, 4010);
    assert_eq!(RECONNECT_RETRY_MILLIS, 100);
    assert_eq!(CLIENT_RECONNECT_THRESHOLD, 1);
    assert_eq!(DYNAMIC_RECONNECT_THRESHOLD, 2);
}

#[test]
fn cycle_shows_k_mod_n_over_many_calls() {
    for n in 1..6usize {
        let mut c = PresetCycle::new((0..n).map(|i| preset(&i.to_string())).collect());
        for k in 0..(3 * n + 2) {
            assert_eq!(c.next(), Some(k % n));
        }
    }
}
