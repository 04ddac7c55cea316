use sphereland::arbitration::{arbitrate, chain_sources, copy_sources, PlaneReport, PointerEvent};
use sphereland::input::{
    closest_pointer_index, select_closest_pointer, InputKind, InputSource, ScrollVector,
};

fn source(handle: u64, kind: InputKind, distance: i64) -> InputSource {
    InputSource { handle, kind, distance, scroll_continuous: None, scroll_discrete: None }
}

fn pointer(handle: u64, distance: i64) -> InputSource {
    source(handle, InputKind::Pointer, distance)
}

/// A key that orders as the distances in metres do.
fn key(metres: f32) -> i64 {
    let bits = (metres + 0.0).to_bits() as i32;
    (bits ^ (((bits >> 31) as u32) >> 1) as i32) as i64
}

fn report(hovering: Vec<InputSource>, touching: Vec<InputSource>) -> PlaneReport {
    PlaneReport { hovering, touching, touch_started: false, touch_stopped: false }
}

fn no_scroll() -> PointerEvent {
    PointerEvent::Scroll { continuous: None, discrete: None }
}

#[test]
fn pointer_filter_tells_pointers_from_touches() {
    assert!(pointer(1, 0).pointer_filter());
    assert!(!source(1, InputKind::Hand, 0).pointer_filter());
    assert!(!source(1, InputKind::Tip, 0).pointer_filter());
}

#[test]
fn closer_of_two_hovering_pointers_is_selected() {
    let events = arbitrate(&report(vec![pointer(1, key(0.5)), pointer(2, key(0.2))], vec![]));
    assert_eq!(events, vec![PointerEvent::Motion { source: 2 }, no_scroll()]);
    let events = arbitrate(&report(vec![pointer(1, key(0.2)), pointer(2, key(0.5))], vec![]));
    assert_eq!(events, vec![PointerEvent::Motion { source: 1 }, no_scroll()]);
}

#[test]
fn keys_of_distances_decide_as_the_distances_do() {
    let distances =
        [-1.5f32, -0.2, -f32::MIN_POSITIVE, 0.0, f32::MIN_POSITIVE, 0.2, 0.200_000_02, 0.5, 3.0];
    for (i, a) in distances.iter().enumerate() {
        for (j, b) in distances.iter().enumerate() {
            assert_eq!(key(*a) < key(*b), a < b);
            let sources = vec![pointer(i as u64, key(*a)), pointer(100 + j as u64, key(*b))];
            let winner = if a > b { 1 } else { 0 };
            assert_eq!(closest_pointer_index(&sources), Some(winner));
        }
    }
    assert_eq!(key(-0.0), key(0.0));
    assert_eq!(closest_pointer_index(&vec![pointer(1, key(0.0)), pointer(2, key(-0.0))]), Some(0));
}

#[test]
fn closest_pointer_index_finds_the_minimum() {
    let sources = vec![pointer(1, 30), pointer(2, 10), pointer(3, 20)];
    assert_eq!(closest_pointer_index(&sources), Some(1));
    assert_eq!(select_closest_pointer(&sources), Some(pointer(2, 10)));
}

#[test]
fn closest_pointer_of_none_is_none() {
    assert_eq!(closest_pointer_index(&vec![]), None);
    assert_eq!(select_closest_pointer(&vec![]), None);
}

#[test]
fn equally_close_pointers_go_to_the_first_met() {
    let sources = vec![pointer(7, 100), pointer(8, 100), pointer(9, 100)];
    assert_eq!(closest_pointer_index(&sources), Some(0));
    let sources = vec![pointer(7, 200), pointer(8, 100), pointer(9, 100)];
    assert_eq!(closest_pointer_index(&sources), Some(1));
}

#[test]
fn sources_that_are_no_pointers_are_passed_over() {
    let sources = vec![
        source(1, InputKind::Hand, 1),
        pointer(2, 900),
        source(3, InputKind::Tip, 2),
    ];
    assert_eq!(closest_pointer_index(&sources), Some(1));
    let sources = vec![source(1, InputKind::Hand, 1), source(3, InputKind::Tip, 2)];
    assert_eq!(closest_pointer_index(&sources), None);
}

#[test]
fn negative_distances_are_closer_than_positive_ones() {
    let sources = vec![pointer(1, 5), pointer(2, -5), pointer(3, 0)];
    assert_eq!(closest_pointer_index(&sources), Some(1));
}

#[test]
fn a_frame_without_pointers_sends_nothing() {
    let events = arbitrate(&report(
        vec![source(1, InputKind::Hand, 10)],
        vec![source(2, InputKind::Tip, 10)],
    ));
    assert_eq!(events, vec![]);
    assert_eq!(arbitrate(&PlaneReport::idle()), vec![]);
}

#[test]
fn the_scroll_carries_what_the_winner_holds() {
    let continuous = ScrollVector { x_bits: 1.5f32.to_bits(), y_bits: (-2.0f32).to_bits() };
    let discrete = ScrollVector { x_bits: 0f32.to_bits(), y_bits: 1f32.to_bits() };
    let mut winner = pointer(4, 10);
    winner.scroll_continuous = Some(continuous);
    let mut loser = pointer(5, 20);
    loser.scroll_discrete = Some(discrete);
    let events = arbitrate(&report(vec![loser, winner], vec![]));
    assert_eq!(
        events,
        vec![
            PointerEvent::Motion { source: 4 },
            PointerEvent::Scroll { continuous: Some(continuous), discrete: None },
        ]
    );
    winner.scroll_discrete = Some(discrete);
    let events = arbitrate(&report(vec![winner], vec![]));
    assert_eq!(
        events,
        vec![
            PointerEvent::Motion { source: 4 },
            PointerEvent::Scroll { continuous: Some(continuous), discrete: Some(discrete) },
        ]
    );
    winner.scroll_continuous = None;
    let events = arbitrate(&report(vec![winner], vec![]));
    assert_eq!(
        events,
        vec![
            PointerEvent::Motion { source: 4 },
            PointerEvent::Scroll { continuous: None, discrete: Some(discrete) },
        ]
    );
}

#[test]
fn both_groups_move_the_pointer_in_one_frame() {
    let events = arbitrate(&report(vec![pointer(1, 10)], vec![pointer(2, 50)]));
    assert_eq!(
        events,
        vec![
            PointerEvent::Motion { source: 1 },
            no_scroll(),
            PointerEvent::Motion { source: 2 },
        ]
    );
}

#[test]
fn a_touching_pointer_counts_for_the_hover_group_too() {
    let events = arbitrate(&report(vec![], vec![pointer(2, 50)]));
    assert_eq!(
        events,
        vec![
            PointerEvent::Motion { source: 2 },
            no_scroll(),
            PointerEvent::Motion { source: 2 },
        ]
    );
}

#[test]
fn hovering_comes_before_touching_among_equals() {
    let events = arbitrate(&report(vec![pointer(1, 50)], vec![pointer(2, 50)]));
    assert_eq!(events[0], PointerEvent::Motion { source: 1 });
    assert_eq!(events[2], PointerEvent::Motion { source: 2 });
}

#[test]
fn a_touch_start_presses_the_button_once() {
    let mut frame = report(vec![], vec![source(1, InputKind::Hand, 0)]);
    frame.touch_started = true;
    assert_eq!(arbitrate(&frame), vec![PointerEvent::Button { pressed: true }]);
    frame.touch_started = false;
    assert_eq!(arbitrate(&frame), vec![]);
    assert_eq!(arbitrate(&frame), vec![]);
}

#[test]
fn a_touch_stop_releases_the_button_once() {
    let mut frame = report(vec![], vec![]);
    frame.touch_stopped = true;
    assert_eq!(arbitrate(&frame), vec![PointerEvent::Button { pressed: false }]);
    frame.touch_stopped = false;
    assert_eq!(arbitrate(&frame), vec![]);
}

#[test]
fn a_start_and_a_stop_in_one_frame_press_and_release() {
    let mut frame = report(vec![], vec![]);
    frame.touch_started = true;
    frame.touch_stopped = true;
    assert_eq!(
        arbitrate(&frame),
        vec![PointerEvent::Button { pressed: true }, PointerEvent::Button { pressed: false }]
    );
    let mut frame = report(vec![pointer(1, 10)], vec![pointer(2, 5)]);
    frame.touch_started = true;
    frame.touch_stopped = true;
    assert_eq!(
        arbitrate(&frame),
        vec![
            PointerEvent::Motion { source: 2 },
            no_scroll(),
            PointerEvent::Motion { source: 2 },
            PointerEvent::Button { pressed: true },
            PointerEvent::Button { pressed: false },
        ]
    );
}

#[test]
fn the_button_follows_the_motions() {
    let mut frame = report(vec![pointer(1, 10)], vec![pointer(1, 10)]);
    frame.touch_started = true;
    assert_eq!(
        arbitrate(&frame),
        vec![
            PointerEvent::Motion { source: 1 },
            no_scroll(),
            PointerEvent::Motion { source: 1 },
            PointerEvent::Button { pressed: true },
        ]
    );
}

#[test]
fn chaining_keeps_order() {
    let first = vec![pointer(1, 1), pointer(2, 2)];
    let second = vec![pointer(3, 3)];
    assert_eq!(
        chain_sources(&first, &second),
        vec![pointer(1, 1), pointer(2, 2), pointer(3, 3)]
    );
    assert_eq!(chain_sources(&vec![], &second), second);
    assert_eq!(copy_sources(&first), first);
}

#[test]
fn a_report_duplicates_to_an_equal_report() {
    let mut frame = report(vec![pointer(1, 10)], vec![pointer(2, 20)]);
    frame.touch_stopped = true;
    assert_eq!(frame.duplicate(), frame);
}

fn next(state: &mut u64) -> u64 {
    *state = state.wrapping_mul(6364136223846793005).wrapping_add(1442695040888963407);
    *state >> 33
}

fn random_sources(state: &mut u64, first_handle: u64) -> Vec<InputSource> {
    let count = next(state) % 6;
    (0..count)
        .map(|i| {
            let kind = match next(state) % 3 {
                0 => InputKind::Pointer,
                1 => InputKind::Hand,
                _ => InputKind::Tip,
            };
            source(first_handle + i, kind, (next(state) % 7) as i64 - 3)
        })
        .collect()
}

fn first_closest(sources: &[InputSource]) -> Option<InputSource> {
    let mut best: Option<InputSource> = None;
    for candidate in sources {
        if candidate.kind != InputKind::Pointer {
            continue;
        }
        match best {
            Some(b) if b.distance <= candidate.distance => {}
            _ => best = Some(*candidate),
        }
    }
    best
}

#[test]
fn every_group_moves_the_pointer_to_its_closest_pointer() {
    let mut state = 7u64;
    for _ in 0..2000 {
        let hovering = random_sources(&mut state, 0);
        let touching = random_sources(&mut state, 100);
        let mut frame = report(hovering.clone(), touching.clone());
        frame.touch_started = next(&mut state) % 4 == 0;
        frame.touch_stopped = next(&mut state) % 4 == 0;

        let mut group = hovering.clone();
        group.extend(touching.iter().copied());
        let mut expected: Vec<PointerEvent> = Vec::new();
        if let Some(winner) = first_closest(&group) {
            assert!(group
                .iter()
                .filter(|s| s.kind == InputKind::Pointer)
                .all(|s| winner.distance <= s.distance));
            expected.push(PointerEvent::Motion { source: winner.handle });
            expected.push(no_scroll());
        }
        if let Some(winner) = first_closest(&touching) {
            expected.push(PointerEvent::Motion { source: winner.handle });
        }
        if frame.touch_started {
            expected.push(PointerEvent::Button { pressed: true });
        }
        if frame.touch_stopped {
            expected.push(PointerEvent::Button { pressed: false });
        }

        let events = arbitrate(&frame);
        assert_eq!(events, expected);
        let motions = events.iter().filter(|e| matches!(e, PointerEvent::Motion { .. })).count();
        let buttons = events.iter().filter(|e| matches!(e, PointerEvent::Button { .. })).count();
        let pointers = |sources: &[InputSource]| {
            sources.iter().any(|s| s.kind == InputKind::Pointer) as usize
        };
        assert_eq!(motions, pointers(&group) + pointers(&touching));
        assert_eq!(buttons, frame.touch_started as usize + frame.touch_stopped as usize);
        assert_eq!(select_closest_pointer(&group), first_closest(&group));
    }
}
