//! DAS/ARR input model tests.
//!
//! Parameterized over two timing profiles.  Clock readings are
//! nanoseconds offset from a fixed reference point, so the tests are fully
//! deterministic.

use blocktxt::input::{HeldDir, InputTranslator, KeyCode, KeyEvent, KeyEventKind, KittySupport, TermEvent};
use blocktxt::Input;


// ── helpers ───────────────────────────────────────────────────────────────

/// A clock reading well away from zero (ns).
const T0: u64 = 1_000_000_000_000;

/// `n` milliseconds in nanoseconds.
fn ms(n: u64) -> u64 {
    n * 1_000_000
}

/// Create a key-press event for the given code.
fn key_press(code: KeyCode) -> TermEvent {
    TermEvent::Key(KeyEvent { code, kind: KeyEventKind::Press, ctrl: false })
}

/// Create a key-release event for the given code.
fn key_release(code: KeyCode) -> TermEvent {
    TermEvent::Key(KeyEvent { code, kind: KeyEventKind::Release, ctrl: false })
}

/// Timing profile for parameterized tests.
struct Profile {
    das: u64,
    arr: u64,
    release_infer: u64,
}

fn profile_default() -> Profile {
    Profile {
        das: ms(160),
        arr: ms(30),
        release_infer: ms(160),
    }
}

fn profile_slow() -> Profile {
    Profile {
        das: ms(250),
        arr: ms(50),
        release_infer: ms(250),
    }
}

fn make_translator(p: &Profile) -> InputTranslator {
    InputTranslator::with_timing(KittySupport::Heuristic, p.das, p.arr, p.release_infer)
}

// ── tests ─────────────────────────────────────────────────────────────────

/// Pressing Left emits one immediate MoveLeft (no DAS yet).
#[test]
fn initial_press_emits_one_move() {
    let p = profile_default();
    let mut t = make_translator(&p);
    let base = T0;

    let (inputs, quit) = t.translate_event(&key_press(KeyCode::Left), base);
    assert!(!quit);
    assert_eq!(inputs, vec![Input::MoveLeft]);

    // No repeat yet — DAS window not elapsed.
    let mut ticked = Vec::new();
    t.tick(base + ms(100), &mut ticked);
    assert!(ticked.is_empty(), "should be empty before DAS: {ticked:?}");
}

/// After DAS elapses, ARR repeats kick in at the correct rate.
///
/// Parameterized over default and slow profiles.
fn das_arr_repeat_inner(p: Profile) {
    let mut t = make_translator(&p);
    let base = T0;

    let (first, _) = t.translate_event(&key_press(KeyCode::Right), base);
    assert_eq!(first, vec![Input::MoveRight], "initial press");

    // Nothing before DAS.
    let mut buf = Vec::new();
    t.tick(base + p.das - ms(1), &mut buf);
    assert!(buf.is_empty(), "no repeat before DAS");

    // First repeat exactly at DAS boundary.
    t.tick(base + p.das, &mut buf);
    assert_eq!(buf, vec![Input::MoveRight], "first ARR repeat at DAS");
    buf.clear();

    // Second repeat at DAS + ARR.
    t.tick(base + p.das + p.arr, &mut buf);
    assert_eq!(buf, vec![Input::MoveRight], "second ARR repeat");
    buf.clear();

    // Third repeat.
    t.tick(base + p.das + p.arr * 2, &mut buf);
    assert_eq!(buf, vec![Input::MoveRight], "third ARR repeat");
}

#[test]
fn das_arr_repeat_default_profile() {
    das_arr_repeat_inner(profile_default());
}

#[test]
fn das_arr_repeat_slow_profile() {
    das_arr_repeat_inner(profile_slow());
}

/// Release-inference timeout: no new event for `release_infer` ms → held cleared.
fn release_infer_inner(p: Profile) {
    let mut t = make_translator(&p);
    let base = T0;

    let (first, _) = t.translate_event(&key_press(KeyCode::Left), base);
    assert_eq!(first, vec![Input::MoveLeft]);

    // Held is set.
    assert!(t.held.is_some());

    // Simulate passing release_infer + 1 ms with no new events.
    // The threshold is strictly greater-than, so we need one extra ms.
    let mut buf = Vec::new();
    t.tick(base + p.release_infer + ms(1), &mut buf);

    // Key should now be treated as released.
    assert!(
        t.held.is_none(),
        "held should be cleared after release-infer timeout"
    );
}

#[test]
fn release_infer_timeout_default() {
    release_infer_inner(profile_default());
}

#[test]
fn release_infer_timeout_slow() {
    release_infer_inner(profile_slow());
}

/// Soft-drop: SoftDropOn on first press, SoftDropOff via release-inference.
#[test]
fn soft_drop_edge_events_via_inference() {
    let p = profile_default();
    let mut t = make_translator(&p);
    let base = T0;

    let (inputs, _) = t.translate_event(&key_press(KeyCode::Down), base);
    assert_eq!(
        inputs,
        vec![Input::SoftDropOn],
        "first down press → SoftDropOn"
    );

    // Press again quickly — no second SoftDropOn.
    let (inputs2, _) =
        t.translate_event(&key_press(KeyCode::Down), base + ms(20));
    assert!(
        !inputs2.contains(&Input::SoftDropOn),
        "no second SoftDropOn while held"
    );

    // Wait for release-inference from the SECOND press (at +20 ms).
    // Must tick past: +20ms + release_infer + 1ms.
    let mut buf = Vec::new();
    let tick_time = base + ms(20) + p.release_infer + ms(1);
    t.tick(tick_time, &mut buf);
    assert!(
        buf.contains(&Input::SoftDropOff),
        "SoftDropOff via release-inference: {buf:?}"
    );
}

/// Kitty mode: release event immediately clears held direction.
#[test]
fn kitty_release_clears_held() {
    let mut t = InputTranslator::with_timing(
        KittySupport::Supported,
        ms(160),
        ms(30),
        ms(160),
    );
    let base = T0;

    let _ = t.translate_event(&key_press(KeyCode::Left), base);
    assert!(t.held.is_some());

    // Real release event.
    let (_, _) = t.translate_event(
        &key_release(KeyCode::Left),
        base + ms(50),
    );
    assert!(t.held.is_none(), "kitty release should clear held");
}

/// Direction change: pressing right while left is held switches direction.
#[test]
fn direction_change_switches_held() {
    let p = profile_default();
    let mut t = make_translator(&p);
    let base = T0;

    let (first, _) = t.translate_event(&key_press(KeyCode::Left), base);
    assert_eq!(first, vec![Input::MoveLeft]);
    assert_eq!(t.held.as_ref().unwrap().kind, HeldDir::Left);

    // Switch to right.
    let (second, _) =
        t.translate_event(&key_press(KeyCode::Right), base + ms(50));
    assert_eq!(second, vec![Input::MoveRight]);
    assert_eq!(t.held.as_ref().unwrap().kind, HeldDir::Right);
}

/// Full 500 ms scripted run: press Left at t=0, hold for 400 ms, then
/// stop events for 200 ms.  Assert total repeats and release inference.
#[test]
fn scripted_500ms_run() {
    let p = profile_default();
    let mut t = make_translator(&p);
    let base = T0;

    // t=0: press
    let (init, _) = t.translate_event(&key_press(KeyCode::Left), base);
    assert_eq!(init.len(), 1);

    let mut total_repeats = 0usize;

    // Simulate ticks every 10 ms up to 400 ms (while key is "held").
    let mut at_ms = 10u64;
    while at_ms <= 400 {
        let now = base + ms(at_ms);
        // Simulate re-press every 40 ms to prevent release inference.
        if at_ms % 40 == 0 {
            t.translate_event(&key_press(KeyCode::Left), now);
        }
        let mut buf = Vec::new();
        t.tick(now, &mut buf);
        total_repeats += buf.iter().filter(|i| **i == Input::MoveLeft).count();
        at_ms += 10;
    }

    // There should be some ARR repeats after DAS (160 ms DAS, 30 ms ARR).
    // From 160 ms to 400 ms = 240 ms / 30 ms = ~8 repeats.
    assert!(
        total_repeats >= 5,
        "expected ≥5 ARR repeats in 400 ms, got {total_repeats}"
    );

    // Now let 200 ms pass with no events → release inference.
    let mut buf = Vec::new();
    t.tick(base + ms(600), &mut buf);
    assert!(
        t.held.is_none(),
        "should release-infer after 200 ms silence"
    );
}

/// Quit keys: `q`, Ctrl-C and Ctrl-D ask to quit and emit nothing.
#[test]
fn quit_keys_request_quit() {
    let p = profile_default();
    for (code, ctrl) in [(KeyCode::Char('q'), false), (KeyCode::Char('c'), true), (KeyCode::Char('d'), true)] {
        let mut t = make_translator(&p);
        let (inputs, quit) = t.translate_event(&TermEvent::Key(KeyEvent { code, kind: KeyEventKind::Press, ctrl }), T0);
        assert!(quit, "{code:?} ctrl={ctrl} must quit");
        assert!(inputs.is_empty());
    }
    // Plain `c` holds instead.
    let mut t = make_translator(&p);
    let (inputs, quit) = t.translate_event(&key_press(KeyCode::Char('c')), T0);
    assert!(!quit);
    assert_eq!(inputs, vec![Input::Hold]);
}

/// Action keys map to their inputs.
#[test]
fn action_keys_map_to_inputs() {
    let p = profile_default();
    let mut t = make_translator(&p);
    for (ch, input) in [
        (' ', Input::HardDrop),
        ('z', Input::RotateCcw),
        ('x', Input::RotateCw),
        ('p', Input::Pause),
        ('r', Input::Restart),
        ('y', Input::ConfirmYes),
        ('n', Input::ConfirmNo),
    ] {
        let (inputs, quit) = t.translate_event(&key_press(KeyCode::Char(ch)), T0);
        assert!(!quit);
        assert_eq!(inputs, vec![input], "key {ch:?}");
    }
    let (inputs, _) = t.translate_event(&key_press(KeyCode::Other), T0);
    assert!(inputs.is_empty());
    let (inputs, _) = t.translate_event(&TermEvent::Other, T0);
    assert!(inputs.is_empty());
}

/// A release of the soft-drop key ends the soft drop at once.
#[test]
fn soft_drop_release_emits_off() {
    let p = profile_default();
    let mut t = make_translator(&p);
    let (inputs, _) = t.translate_event(&key_press(KeyCode::Char('s')), T0);
    assert_eq!(inputs, vec![Input::SoftDropOn]);
    let (inputs, _) = t.translate_event(&key_release(KeyCode::Char('j')), T0 + ms(5));
    assert_eq!(inputs, vec![Input::SoftDropOff]);
    // A second release changes nothing.
    let (inputs, _) = t.translate_event(&key_release(KeyCode::Down), T0 + ms(6));
    assert!(inputs.is_empty());
}

/// With true release events, direction silence does not release the key.
#[test]
fn kitty_mode_does_not_infer_release() {
    let mut t = InputTranslator::with_timing(KittySupport::Supported, ms(160), ms(30), ms(160));
    let _ = t.translate_event(&key_press(KeyCode::Char('h')), T0);
    let mut buf = Vec::new();
    t.tick(T0 + ms(1000), &mut buf);
    assert!(t.held.is_some());
    assert_eq!(buf, vec![Input::MoveLeft]);
}

/// The default timing is 160 ms DAS, 30 ms ARR, 160 ms release inference.
#[test]
fn default_timing_matches_constants() {
    let t = InputTranslator::new(KittySupport::Heuristic);
    assert_eq!(t.das, ms(blocktxt::input::DAS_MS));
    assert_eq!(t.arr, ms(blocktxt::input::ARR_MS));
    assert_eq!(t.release_infer, ms(blocktxt::input::RELEASE_INFER_MS));
}
