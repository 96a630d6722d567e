use ellipsoid::persistence::{Persistence, SettingsKey, AUTOSAVE_IDLE_NANOS};

/// A frame at 60 Hz, in nanoseconds, rounded up.
const FRAME: u64 = 16_666_667;

/// Run `frames` frames without changing the settings, writing whenever the
/// debounce asks, and count the writes.
fn settle(p: &mut Persistence, input: &SettingsKey, frames: usize) -> usize {
    let mut writes = 0;
    for _ in 0..frames {
        if p.due(input, FRAME) {
            writes += 1;
            p.record_write(input);
        }
    }
    writes
}

fn started(input: &SettingsKey) -> Persistence {
    let mut p = Persistence::new();
    p.assume_stored(input);
    p
}

/// Settings whose one free field is `a`, keyed the way equal settings get
/// equal keys: `-0.0` written as `0.0`, and a NaN making them comparable to
/// nothing.
fn settings(a: f64) -> SettingsKey {
    SettingsKey { text: format!("a={:?} b=2.875", a + 0.0), comparable: a == a }
}

#[test]
fn merely_opening_the_app_writes_nothing() {
    let input = settings(3.75);
    assert_eq!(settle(&mut started(&input), &input, 300), 0);
}

#[test]
fn a_change_is_written_once_after_it_settles() {
    let mut p = started(&settings(3.75));
    let input = settings(4.0);
    assert_eq!(settle(&mut p, &input, 10), 0);
    assert_eq!(settle(&mut p, &input, 300), 1);
}

#[test]
fn a_continuing_drag_never_reaches_the_timer() {
    let mut p = started(&settings(0.1));
    let mut writes = 0;
    let mut last = settings(0.1);
    for i in 0..120 {
        last = settings(0.1 + 0.001 * (i + 1) as f64);
        if p.due(&last, FRAME) {
            writes += 1;
        }
    }
    assert_eq!(writes, 0, "wrote while the pointer was still moving");
    assert_eq!(settle(&mut p, &last, 300), 1);
}

#[test]
fn returning_to_the_saved_state_cancels_the_write() {
    let stored = settings(3.75);
    let mut p = started(&stored);
    let edited = settings(9.0);
    assert_eq!(settle(&mut p, &edited, 10), 0);
    assert_eq!(settle(&mut p, &stored, 300), 0);
}

#[test]
fn the_write_comes_after_three_quarters_of_a_second() {
    let mut p = started(&settings(1.0));
    let input = settings(2.0);
    // The first frame with new settings only notes them.
    assert!(!p.due(&input, FRAME));
    // 44 frames of 1/60 s fall short of 0.75 s; the 45th reaches it.
    for _ in 0..44 {
        assert!(!p.due(&input, FRAME));
    }
    assert!(p.due(&input, FRAME));
    assert_eq!(AUTOSAVE_IDLE_NANOS, 750_000_000);
}

#[test]
fn a_single_long_frame_is_enough() {
    let mut p = started(&settings(1.0));
    let input = settings(2.0);
    assert!(!p.due(&input, 0));
    assert!(p.due(&input, u64::MAX));
    // Saturating: another huge frame still asks, it does not wrap round.
    assert!(p.due(&input, u64::MAX));
}

#[test]
fn is_saved_tracks_the_last_write() {
    let mut p = Persistence::new();
    let input = settings(1.0);
    assert!(!p.is_saved(&input));
    p.record_write(&input);
    assert!(p.is_saved(&input));
    assert!(!p.is_saved(&settings(2.0)));
}

#[test]
fn settings_holding_a_nan_are_never_written() {
    // NaN equals nothing, itself included, so such settings always look as
    // if they had just changed.
    let mut p = started(&settings(1.0));
    let nan = settings(f64::NAN);
    assert_eq!(settle(&mut p, &nan, 300), 0);
    assert!(!p.due(&nan, u64::MAX));
    // Even taken to be stored, they are not equal to what is stored.
    let mut q = started(&nan);
    assert!(!q.is_saved(&nan));
    assert_eq!(settle(&mut q, &nan, 300), 0);
}

#[test]
fn negative_zero_counts_as_the_stored_zero() {
    let stored = settings(0.0);
    let mut p = started(&stored);
    assert_eq!(settle(&mut p, &settings(-0.0), 300), 0);
    assert!(p.is_saved(&settings(-0.0)));
}
