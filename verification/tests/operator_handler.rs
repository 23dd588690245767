use evdev::KeyCode as Key;
use std::rc::Rc;
use std::time::{Duration, Instant};
use xremap::config::{DoubleTap, Expmap, ExpmapOperator, Simkey};
use xremap::event::{Event, InputDeviceInfo};
use xremap::operator_handler::{OperatorError, OperatorHandler};
use xremap::operators::ExpmapAction;

const TIMEOUT_MS: u64 = 10;

fn device() -> Rc<InputDeviceInfo> {
    Rc::new(InputDeviceInfo {
        name: "Some Device".into(),
        path: "/dev/input/event0".into(),
        vendor: 0x1234,
        product: 0x5678,
    })
}

fn press(key: Key) -> Event {
    Event::key_press(device(), key.code())
}

fn release(key: Key) -> Event {
    Event::key_release(device(), key.code())
}

#[allow(dead_code)]
fn repeat(key: Key) -> Event {
    Event::key_repeat(device(), key.code())
}

fn assert_events(actual: Vec<Event>, expected: Vec<Event>) {
    assert_eq!(format!("{:?}", actual), format!("{:?}", expected));
}

/// Waits for the operators' timeout to run out.
fn sleep_timeout() {
    let start = Instant::now();
    while start.elapsed() <= Duration::from_millis(TIMEOUT_MS) {}
}

#[allow(dead_code)]
fn simkey(keys: Vec<Key>, action: Key) -> Simkey {
    Simkey {
        keys: keys.iter().map(|k| k.code()).collect(),
        actions: vec![ExpmapAction::Key(action.code())],
        timeout_ms: TIMEOUT_MS,
    }
}

#[allow(dead_code)]
fn double_tap(key: Key, actions: Vec<Key>) -> (u16, ExpmapOperator) {
    (
        key.code(),
        ExpmapOperator::DoubleTap(DoubleTap {
            actions: actions.iter().map(|k| ExpmapAction::Key(k.code())).collect(),
            timeout_ms: TIMEOUT_MS,
        }),
    )
}

fn get_handler() -> OperatorHandler {
    let config: Vec<Expmap> = vec![
        Expmap {
            name: "".into(),
            chords: vec![],
            // Operators that interact on KEY_H. This has highest precedence.
            remap: vec![double_tap(Key::KEY_H, vec![Key::KEY_3, Key::KEY_4])],
        },
        Expmap {
            name: "".into(),
            chords: vec![
                // Two operators that interact on KEY_B
                simkey(vec![Key::KEY_A, Key::KEY_B], Key::KEY_1),
                simkey(vec![Key::KEY_B, Key::KEY_C], Key::KEY_2),
                // Operators that interact on KEY_H
                simkey(vec![Key::KEY_H, Key::KEY_I], Key::KEY_5),
            ],
            remap: vec![],
        },
    ];
    OperatorHandler::new(&config)
}

#[test]
fn test_operator_handler_picks_heighest_candidate() {
    let mut handler = get_handler();

    assert_events(handler.map_evs(vec![press(Key::KEY_B)]), vec![]);
    // Highest matches
    assert_events(handler.map_evs(vec![press(Key::KEY_A)]), vec![press(Key::KEY_1)]);
    assert_events(handler.map_evs(vec![release(Key::KEY_B)]), vec![release(Key::KEY_1)]);
    assert_events(handler.map_evs(vec![release(Key::KEY_A)]), vec![]);

    assert!(handler.is_base_state());
    assert!(handler.emitted_modifiers_are_synced());
}

#[test]
fn test_operator_handler_picks_heighest_candidate_after_lowest_has_canceled() {
    let mut handler = get_handler();

    assert_events(handler.map_evs(vec![press(Key::KEY_H)]), vec![]);
    assert_events(handler.map_evs(vec![release(Key::KEY_H)]), vec![]);
    // Other key to let lowest remain canceled a while.
    assert_events(handler.map_evs(vec![press(Key::KEY_K)]), vec![]);
    assert_events(handler.map_evs(vec![release(Key::KEY_K)]), vec![]);
    assert_events(
        handler.map_evs(vec![press(Key::KEY_H)]),
        vec![
            press(Key::KEY_3),
            press(Key::KEY_4),
            press(Key::KEY_K),
            release(Key::KEY_K),
        ],
    );
    assert_events(
        handler.map_evs(vec![release(Key::KEY_H)]),
        vec![release(Key::KEY_3), release(Key::KEY_4)],
    );

    assert!(handler.is_base_state());
    assert!(handler.emitted_modifiers_are_synced());
}

#[test]
fn test_operator_handler_picks_lowest_candidate_when_heighest_cancels() {
    let mut handler = get_handler();

    assert_events(handler.map_evs(vec![press(Key::KEY_B)]), vec![]);
    // Lowest precedence match
    assert_events(handler.map_evs(vec![press(Key::KEY_C)]), vec![]);
    // Highest precedence cancels
    assert_events(
        handler.map_evs(vec![release(Key::KEY_B)]),
        vec![press(Key::KEY_2), release(Key::KEY_2)],
    );
    assert_events(handler.map_evs(vec![release(Key::KEY_C)]), vec![]);

    assert!(handler.is_base_state());
    assert!(handler.emitted_modifiers_are_synced());
}

#[test]
fn test_operator_handler_picks_finished_lowest_candidate_when_heighest_cancels() {
    let mut handler = get_handler();

    assert_events(handler.map_evs(vec![press(Key::KEY_B)]), vec![]);
    // Lowest precedence match
    assert_events(handler.map_evs(vec![press(Key::KEY_C)]), vec![]);
    assert_events(handler.map_evs(vec![release(Key::KEY_C)]), vec![]);
    // Extra event
    assert_events(handler.map_evs(vec![press(Key::KEY_K)]), vec![]);
    // Highest precedence cancels (and the lowest goes into done)
    assert_events(
        handler.map_evs(vec![release(Key::KEY_B)]),
        vec![
            press(Key::KEY_2),
            release(Key::KEY_2),
            press(Key::KEY_K),
        ],
    );
    assert_events(handler.map_evs(vec![release(Key::KEY_K)]), vec![release(Key::KEY_K)]);

    assert!(handler.is_base_state());
    assert!(handler.emitted_modifiers_are_synced());
}

#[test]
fn test_operator_handler_picks_lowest_candidate_done_a_while_when_heighest_matches() {
    let mut handler = get_handler();

    assert_events(handler.map_evs(vec![press(Key::KEY_H)]), vec![]);
    // Lowest match
    assert_events(handler.map_evs(vec![press(Key::KEY_I)]), vec![]);
    assert_events(handler.map_evs(vec![release(Key::KEY_I)]), vec![]);
    // Lowest done
    assert_events(handler.map_evs(vec![release(Key::KEY_H)]), vec![]);

    // Other key to let lowest remain done a while.
    assert_events(handler.map_evs(vec![press(Key::KEY_K)]), vec![]);
    assert_events(handler.map_evs(vec![release(Key::KEY_K)]), vec![]);

    // Highest precedence matches
    assert_events(
        handler.map_evs(vec![press(Key::KEY_H)]),
        vec![
            press(Key::KEY_3),
            press(Key::KEY_4),
            press(Key::KEY_I),
            release(Key::KEY_I),
            press(Key::KEY_K),
            release(Key::KEY_K),
        ],
    );

    assert_events(
        handler.map_evs(vec![release(Key::KEY_H)]),
        vec![release(Key::KEY_3), release(Key::KEY_4)],
    );

    assert!(handler.is_base_state());
    assert!(handler.emitted_modifiers_are_synced());
}

#[test]
fn test_operator_handler_picks_lowest_candidate_finished_a_while_when_heighest_cancels_by_timeout() {
    let mut handler = get_handler();

    assert_events(handler.map_evs(vec![press(Key::KEY_H)]), vec![]);
    // Lowest match
    assert_events(handler.map_evs(vec![press(Key::KEY_I)]), vec![]);
    assert_events(handler.map_evs(vec![release(Key::KEY_I)]), vec![]);
    // Lowest done
    assert_events(handler.map_evs(vec![release(Key::KEY_H)]), vec![]);

    // Other key to let lowest remain done a while.
    assert_events(handler.map_evs(vec![press(Key::KEY_K)]), vec![]);
    assert_events(handler.map_evs(vec![release(Key::KEY_K)]), vec![]);

    // Highest precedence cancels
    sleep_timeout();
    assert_events(
        handler.map_evs(vec![Event::Tick]),
        vec![
            press(Key::KEY_5),
            release(Key::KEY_5),
            press(Key::KEY_K),
            release(Key::KEY_K),
        ],
    );

    assert!(handler.is_base_state());
    assert!(handler.emitted_modifiers_are_synced());
}

#[test]
fn test_operator_handler_picks_lowest_candidate_when_canceled_by_timeout() {
    let mut handler = get_handler();

    assert_events(handler.map_evs(vec![press(Key::KEY_B)]), vec![]);
    // Lowest precedence match
    assert_events(handler.map_evs(vec![press(Key::KEY_C)]), vec![]);
    // Lowest precedence virtually emits
    assert_events(handler.map_evs(vec![release(Key::KEY_C)]), vec![]);

    // Highest precedence cancels, and lowest gets emitted.
    sleep_timeout();
    assert_events(
        handler.map_evs(vec![Event::Tick]),
        vec![press(Key::KEY_2), release(Key::KEY_2)],
    );

    assert_events(handler.map_evs(vec![release(Key::KEY_B)]), vec![]);

    assert!(handler.is_base_state());
    assert!(handler.emitted_modifiers_are_synced());
}

#[test]
fn test_operator_handler_two_candidates_that_both_cancel() {
    let mut handler = get_handler();

    assert_events(handler.map_evs(vec![press(Key::KEY_B)]), vec![]);
    assert_events(
        handler.map_evs(vec![release(Key::KEY_B)]),
        vec![press(Key::KEY_B), release(Key::KEY_B)],
    );

    assert!(handler.is_base_state());
    assert!(handler.emitted_modifiers_are_synced());
}

#[test]
fn test_operator_handler_unhandled_events_are_passed_to_next_operator_when_canceled() {
    let mut handler = get_handler();

    // 1st operator
    assert_events(handler.map_evs(vec![press(Key::KEY_A)]), vec![]);
    // 2nd operator (not candidate yet)
    assert_events(handler.map_evs(vec![press(Key::KEY_C)]), vec![]);
    // Cancel 1st
    assert_events(handler.map_evs(vec![release(Key::KEY_A)]), vec![press(Key::KEY_A)]);
    // Cancel 2nd
    assert_events(
        handler.map_evs(vec![release(Key::KEY_C)]),
        vec![
            press(Key::KEY_C),
            release(Key::KEY_A),
            release(Key::KEY_C),
        ],
    );

    assert!(handler.is_base_state());
    assert!(handler.emitted_modifiers_are_synced());
}

#[test]
fn test_operator_handler_unhandled_events_are_passed_to_next_operator_at_match() {
    let mut handler = get_handler();

    // 1st operator
    assert_events(handler.map_evs(vec![press(Key::KEY_A)]), vec![]);
    // 2nd operator (not candidate yet)
    assert_events(handler.map_evs(vec![press(Key::KEY_C)]), vec![]);
    // 1st match
    assert_events(handler.map_evs(vec![press(Key::KEY_B)]), vec![press(Key::KEY_1)]);

    // 2nd cancel (can't match because 1st consumed KEY_B)
    assert_events(
        handler.map_evs(vec![release(Key::KEY_C)]),
        vec![press(Key::KEY_C), release(Key::KEY_C)],
    );
    assert_events(handler.map_evs(vec![release(Key::KEY_A)]), vec![release(Key::KEY_1)]);
    assert_events(handler.map_evs(vec![release(Key::KEY_B)]), vec![]);

    assert!(handler.is_base_state());
    assert!(handler.emitted_modifiers_are_synced());
}

#[test]
fn test_operator_handler_unhandled_events_are_passed_to_static_operators_when_done() {
    let mut handler = get_handler();

    assert_events(
        handler.map_evs(vec![press(Key::KEY_A), press(Key::KEY_B)]),
        vec![press(Key::KEY_1)],
    );

    assert_events(handler.map_evs(vec![release(Key::KEY_A)]), vec![release(Key::KEY_1)]);

    // Start new operator (of same type)
    assert_events(handler.map_evs(vec![press(Key::KEY_A)]), vec![]);
    // Last event to 1st operator
    assert_events(handler.map_evs(vec![release(Key::KEY_B)]), vec![]);
    // Cancel 2nd operator
    assert_events(
        handler.map_evs(vec![release(Key::KEY_A)]),
        vec![press(Key::KEY_A), release(Key::KEY_A)],
    );

    assert!(handler.is_base_state());
    assert!(handler.emitted_modifiers_are_synced());
}

#[test]
fn test_operator_handler_candidate_match_in_one_batch() {
    let mut handler = get_handler();

    assert_events(
        handler.map_evs(vec![
            press(Key::KEY_A),
            press(Key::KEY_B),
            release(Key::KEY_A),
            release(Key::KEY_B),
        ]),
        vec![press(Key::KEY_1), release(Key::KEY_1)],
    );

    assert!(handler.is_base_state());
    assert!(handler.emitted_modifiers_are_synced());
}

#[test]
fn test_operator_handler_candidate_cancels_in_one_batch() {
    let mut handler = get_handler();

    assert_events(
        handler.map_evs(vec![press(Key::KEY_A), release(Key::KEY_A)]),
        vec![press(Key::KEY_A), release(Key::KEY_A)],
    );

    assert!(handler.is_base_state());
    assert!(handler.emitted_modifiers_are_synced());
}

#[test]
fn test_operator_handler_candidate_with_many_actions() {
    let mut handler = get_handler();

    assert_events(handler.map_evs(vec![press(Key::KEY_H)]), vec![]);
    assert_events(handler.map_evs(vec![release(Key::KEY_H)]), vec![]);

    assert_events(handler.map_evs(vec![press(Key::KEY_O)]), vec![]);
    assert_events(handler.map_evs(vec![release(Key::KEY_O)]), vec![]);

    assert_events(handler.map_evs(vec![press(Key::KEY_P)]), vec![]);
    assert_events(handler.map_evs(vec![release(Key::KEY_P)]), vec![]);

    assert_events(
        handler.map_evs(vec![press(Key::KEY_H)]),
        vec![
            press(Key::KEY_3),
            press(Key::KEY_4),
            press(Key::KEY_O),
            release(Key::KEY_O),
            press(Key::KEY_P),
            release(Key::KEY_P),
        ],
    );
    assert_events(
        handler.map_evs(vec![release(Key::KEY_H)]),
        vec![release(Key::KEY_3), release(Key::KEY_4)],
    );

    assert!(handler.is_base_state());
    assert!(handler.emitted_modifiers_are_synced());
}

#[test]
fn test_map_event_at_chord_within_timeout() {
    let mut handler = get_handler();
    let ms = 1_000_000u64;

    assert_events(handler.map_event_at(press(Key::KEY_A), 0), vec![]);
    assert_events(handler.map_event_at(press(Key::KEY_B), 5 * ms), vec![press(Key::KEY_1)]);
    assert_events(handler.map_event_at(release(Key::KEY_A), 6 * ms), vec![release(Key::KEY_1)]);
    assert_events(handler.map_event_at(release(Key::KEY_B), 7 * ms), vec![]);
    assert!(handler.is_base_state());
    assert!(handler.emitted_modifiers_are_synced());
}

#[test]
fn test_map_event_at_chord_times_out() {
    let mut handler = get_handler();
    let ms = 1_000_000u64;

    assert_events(handler.map_event_at(press(Key::KEY_A), 0), vec![]);
    // A tick after the timeout cancels the chord: the press comes out as it was.
    assert_events(handler.map_event_at(Event::Tick, (TIMEOUT_MS + 1) * ms), vec![press(Key::KEY_A)]);
    assert!(handler.is_base_state());
    assert_events(handler.map_event_at(press(Key::KEY_B), (TIMEOUT_MS + 2) * ms), vec![]);
}

#[test]
fn test_map_event_at_tick_before_timeout_keeps_waiting() {
    let mut handler = get_handler();
    let ms = 1_000_000u64;

    assert_events(handler.map_event_at(press(Key::KEY_A), 0), vec![]);
    assert_events(handler.map_event_at(Event::Tick, ms), vec![]);
    assert!(!handler.is_base_state());
    assert_events(handler.map_event_at(press(Key::KEY_B), 2 * ms), vec![press(Key::KEY_1)]);
}

#[test]
fn test_map_event_at_passes_other_keys() {
    let mut handler = get_handler();

    assert_events(handler.map_event_at(press(Key::KEY_Z), 0), vec![press(Key::KEY_Z)]);
    assert_events(handler.map_event_at(release(Key::KEY_Z), 1), vec![release(Key::KEY_Z)]);
    assert_events(handler.map_event_at(Event::Tick, 2), vec![]);
    assert!(handler.is_base_state());
}

#[test]
fn test_try_map_events_runs_like_map_events() {
    let mut handler = get_handler();

    let out = handler.try_map_events(vec![press(Key::KEY_A), press(Key::KEY_B)]).expect("no failure");
    assert_eq!(format!("{:?}", out), format!("{:?}", vec![press(Key::KEY_1)]));
    let out = handler.try_map_events(vec![release(Key::KEY_A), release(Key::KEY_B)]).expect("no failure");
    assert_eq!(format!("{:?}", out), format!("{:?}", vec![release(Key::KEY_1)]));
    assert!(handler.is_base_state());
}

#[test]
fn test_try_map_events_tells_a_trigger_pressed_while_held() {
    let mut handler = get_handler();

    assert_events(handler.map_evs(vec![press(Key::KEY_A), press(Key::KEY_B)]), vec![press(Key::KEY_1)]);
    let failed = handler.try_map_events(vec![press(Key::KEY_A)]);
    assert_eq!(failed.unwrap_err(), OperatorError::TriggerPressedWhileHeld);
}
