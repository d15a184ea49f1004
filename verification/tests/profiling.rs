use std::time::Duration;
use zephyrchain::clock::UtcTimestamp;
use zephyrchain::hdcmodels::performance_optimization::profiling::{profile_hdcmodels, Profiler};

#[test]
fn stopped_timer_holds_the_span() {
    let mut p = Profiler::new();
    p.start_timer_at("encode", UtcTimestamp::new(100, 250_000_000));
    p.stop_timer_at("encode", UtcTimestamp::new(101, 750_000_000));
    assert_eq!(p.get_timing("encode"), Some(Duration::from_millis(1500)));
}

#[test]
fn running_timer_measures_nothing_yet() {
    let mut p = Profiler::new();
    p.start_timer_at("train", UtcTimestamp::new(5, 0));
    assert_eq!(p.get_timing("train"), Some(Duration::from_nanos(0)));
}

#[test]
fn unknown_label_has_no_timing() {
    let mut p = Profiler::new();
    assert_eq!(p.get_timing("predict"), None);
    p.stop_timer_at("predict", UtcTimestamp::new(9, 0));
    assert_eq!(p.get_timing("predict"), None);
}

#[test]
fn clock_going_backwards_measures_zero() {
    let mut p = Profiler::new();
    p.start_timer_at("x", UtcTimestamp::new(10, 0));
    p.stop_timer_at("x", UtcTimestamp::new(9, 0));
    assert_eq!(p.get_timing("x"), Some(Duration::ZERO));
}

#[test]
fn restarting_a_timer_resets_it() {
    let mut p = Profiler::new();
    p.start_timer_at("x", UtcTimestamp::new(1, 0));
    p.stop_timer_at("x", UtcTimestamp::new(3, 0));
    p.start_timer_at("x", UtcTimestamp::new(10, 0));
    assert_eq!(p.get_timing("x"), Some(Duration::ZERO));
    p.stop_timer_at("x", UtcTimestamp::new(10, 5));
    assert_eq!(p.get_timing("x"), Some(Duration::from_nanos(5)));
    assert_eq!(p.entries_vec().len(), 1);
}

#[test]
fn timers_are_independent() {
    let mut p = Profiler::new();
    p.start_timer_at("a", UtcTimestamp::new(0, 0));
    p.start_timer_at("b", UtcTimestamp::new(1, 0));
    p.stop_timer_at("a", UtcTimestamp::new(4, 0));
    assert_eq!(p.get_timing("a"), Some(Duration::from_secs(4)));
    assert_eq!(p.get_timing("b"), Some(Duration::ZERO));
    let labels: Vec<String> = p.entries_vec().iter().map(|t| t.label.clone()).collect();
    assert_eq!(labels, vec!["a".to_string(), "b".to_string()]);
}

#[test]
fn clock_timers_record_the_label() {
    let mut p = Profiler::new();
    p.start_timer("live");
    p.stop_timer("live");
    assert!(p.get_timing("live").is_some());
}

#[test]
fn profiling_times_each_stage() {
    let p = profile_hdcmodels();
    let labels: Vec<String> = p.entries_vec().iter().map(|t| t.label.clone()).collect();
    assert_eq!(labels, vec!["encode_data", "calculate_similarity", "train_model", "predict"]);
    for label in &labels {
        assert!(p.get_timing(label).is_some());
    }
}

#[test]
fn stopped_timer_records_its_stop() {
    let mut p = Profiler::new();
    p.start_timer_at("s", UtcTimestamp::new(3, 0));
    assert_eq!(p.entries_vec()[0].stopped, None);
    p.stop_timer_at("s", UtcTimestamp::new(4, 0));
    assert_eq!(p.entries_vec()[0].stopped, Some(UtcTimestamp::new(4, 0)));
    p.start_timer("live");
    p.stop_timer("live");
    assert!(p.entries_vec()[1].stopped.is_some());
}

#[test]
fn profiled_stages_are_stopped_and_measured() {
    let p = profile_hdcmodels();
    for timing in p.entries_vec() {
        let stop = timing.stopped.expect("every stage is stopped");
        assert!(timing.started.seconds >= 0);
        assert!(stop.seconds >= timing.started.seconds);
        let span = (stop.seconds - timing.started.seconds) as i128 * 1_000_000_000 + stop.nanos as i128
            - timing.started.nanos as i128;
        assert_eq!(timing.elapsed_nanos as i128, span.max(0));
    }
}
