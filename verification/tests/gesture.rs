use gravity_sim::gesture::{ButtonPoll, Placement, PlacementGesture, RADIUS_STEP_LIMIT};

fn idle() -> ButtonPoll {
    ButtonPoll::default()
}

fn press() -> ButtonPoll {
    ButtonPoll { primary_just_pressed: true, primary_held: true, ..ButtonPoll::default() }
}

fn hold() -> ButtonPoll {
    ButtonPoll { primary_held: true, ..ButtonPoll::default() }
}

fn release() -> ButtonPoll {
    ButtonPoll { primary_just_released: true, ..ButtonPoll::default() }
}

fn secondary() -> ButtonPoll {
    ButtonPoll { secondary_just_pressed: true, ..ButtonPoll::default() }
}

#[test]
fn default_poll_reports_nothing() {
    let poll = ButtonPoll::default();
    assert!(!poll.primary_just_pressed);
    assert!(!poll.primary_held);
    assert!(!poll.primary_just_released);
    assert!(!poll.secondary_just_pressed);
}

#[test]
fn new_gesture_is_inert() {
    let gesture = PlacementGesture::new((3i32, 4i32));
    assert!(!gesture.is_active());
    assert_eq!(gesture.radius_steps(), 0);
    assert_eq!(gesture.anchor(), (3, 4));
}

#[test]
fn start_anchors_and_activates() {
    let mut gesture = PlacementGesture::new((0i32, 0i32));
    gesture.start((7, -2));
    assert!(gesture.is_active());
    assert_eq!(gesture.radius_steps(), 0);
    assert_eq!(gesture.anchor(), (7, -2));
}

#[test]
fn start_on_an_active_gesture_starts_over() {
    let mut gesture = PlacementGesture::new((0i32, 0i32));
    gesture.start((1, 1));
    gesture.drag();
    gesture.drag();
    gesture.start((5, 5));
    assert!(gesture.is_active());
    assert_eq!(gesture.radius_steps(), 0);
    assert_eq!(gesture.anchor(), (5, 5));
}

#[test]
fn drag_grows_one_step_per_poll() {
    let mut gesture = PlacementGesture::new((0i32, 0i32));
    gesture.start((1, 1));
    for steps in 1..=20u32 {
        gesture.drag();
        assert_eq!(gesture.radius_steps(), steps);
        assert_eq!(gesture.anchor(), (1, 1));
        assert!(gesture.is_active());
    }
}

#[test]
fn drag_on_an_inert_gesture_changes_nothing() {
    let mut gesture = PlacementGesture::new((2i32, 3i32));
    gesture.drag();
    gesture.drag();
    assert!(!gesture.is_active());
    assert_eq!(gesture.radius_steps(), 0);
    assert_eq!(gesture.anchor(), (2, 3));
}

#[test]
fn end_hands_out_the_placement_and_resets() {
    let mut gesture = PlacementGesture::new((0i32, 0i32));
    gesture.start((10, 20));
    gesture.drag();
    gesture.drag();
    gesture.drag();
    let placement = gesture.end((13, 24));
    assert_eq!(
        placement,
        Some(Placement { anchor: (10, 20), release: (13, 24), radius_steps: 3 })
    );
    assert!(!gesture.is_active());
    assert_eq!(gesture.radius_steps(), 0);
    assert_eq!(gesture.anchor(), (10, 20));
}

#[test]
fn end_without_a_gesture_places_nothing() {
    let mut gesture = PlacementGesture::new((1i32, 2i32));
    assert_eq!(gesture.end((9, 9)), None);
    assert!(!gesture.is_active());
    assert_eq!(gesture.radius_steps(), 0);
    assert_eq!(gesture.anchor(), (1, 2));
    gesture.start((3, 3));
    gesture.drag();
    gesture.cancel();
    assert_eq!(gesture.end((9, 9)), None);
    assert_eq!(gesture.end((9, 9)), None);
    assert!(!gesture.is_active());
    assert_eq!(gesture.anchor(), (3, 3));
}

#[test]
fn end_right_after_start_places_a_body_without_radius() {
    let mut gesture = PlacementGesture::new((1i32, 2i32));
    gesture.start((4, 5));
    assert_eq!(
        gesture.end((9, 9)),
        Some(Placement { anchor: (4, 5), release: (9, 9), radius_steps: 0 })
    );
    assert!(!gesture.is_active());
    assert_eq!(gesture.end((9, 9)), None);
}

#[test]
fn cancel_discards_the_gesture() {
    let mut gesture = PlacementGesture::new((0i32, 0i32));
    gesture.start((4, 4));
    gesture.drag();
    gesture.cancel();
    assert!(!gesture.is_active());
    assert_eq!(gesture.radius_steps(), 0);
    assert_eq!(gesture.anchor(), (4, 4));
}

#[test]
fn cancel_without_a_gesture_changes_nothing() {
    let mut gesture = PlacementGesture::new((6i32, 7i32));
    gesture.cancel();
    assert!(!gesture.is_active());
    assert_eq!(gesture.radius_steps(), 0);
    assert_eq!(gesture.anchor(), (6, 7));
}

#[test]
fn idle_poll_changes_nothing() {
    let mut gesture = PlacementGesture::new((0i32, 0i32));
    assert_eq!(gesture.poll(idle(), (5, 5)), None);
    assert!(!gesture.is_active());
    assert_eq!(gesture.anchor(), (0, 0));
    gesture.start((1, 1));
    gesture.drag();
    assert_eq!(gesture.poll(idle(), (5, 5)), None);
    assert!(gesture.is_active());
    assert_eq!(gesture.radius_steps(), 1);
    assert_eq!(gesture.anchor(), (1, 1));
}

#[test]
fn press_poll_starts_and_grows_once() {
    let mut gesture = PlacementGesture::new((0i32, 0i32));
    assert_eq!(gesture.poll(press(), (3, 4)), None);
    assert!(gesture.is_active());
    assert_eq!(gesture.anchor(), (3, 4));
    assert_eq!(gesture.radius_steps(), 1);
}

#[test]
fn press_hold_release_places_a_body() {
    let mut gesture = PlacementGesture::new((0i32, 0i32));
    assert_eq!(gesture.poll(press(), (3, 4)), None);
    for _ in 0..9 {
        assert_eq!(gesture.poll(hold(), (50, 60)), None);
    }
    let placed = gesture.poll(release(), (8, 1));
    assert_eq!(placed, Some(Placement { anchor: (3, 4), release: (8, 1), radius_steps: 10 }));
    assert!(!gesture.is_active());
    assert_eq!(gesture.radius_steps(), 0);
}

#[test]
fn press_and_release_in_one_poll_places_a_body_without_radius() {
    let mut gesture = PlacementGesture::new((0i32, 0i32));
    let input = ButtonPoll {
        primary_just_pressed: true,
        primary_just_released: true,
        ..ButtonPoll::default()
    };
    let placed = gesture.poll(input, (2, 2));
    assert_eq!(placed, Some(Placement { anchor: (2, 2), release: (2, 2), radius_steps: 0 }));
    assert!(!gesture.is_active());
}

#[test]
fn secondary_button_cancels_and_places_nothing() {
    let mut gesture = PlacementGesture::new((0i32, 0i32));
    gesture.poll(press(), (3, 4));
    gesture.poll(hold(), (3, 4));
    let input = ButtonPoll { primary_held: true, secondary_just_pressed: true, ..ButtonPoll::default() };
    assert_eq!(gesture.poll(input, (9, 9)), None);
    assert!(!gesture.is_active());
    assert_eq!(gesture.radius_steps(), 0);
}

#[test]
fn hold_after_cancel_does_not_grow() {
    let mut gesture = PlacementGesture::new((0i32, 0i32));
    gesture.poll(press(), (3, 4));
    gesture.poll(secondary(), (3, 4));
    for _ in 0..5 {
        assert_eq!(gesture.poll(hold(), (3, 4)), None);
    }
    assert!(!gesture.is_active());
    assert_eq!(gesture.radius_steps(), 0);
}

#[test]
fn release_after_cancel_places_nothing() {
    let mut gesture = PlacementGesture::new((0i32, 0i32));
    gesture.poll(press(), (3, 4));
    gesture.poll(hold(), (3, 4));
    gesture.poll(secondary(), (3, 4));
    assert_eq!(gesture.poll(hold(), (3, 4)), None);
    assert_eq!(gesture.poll(release(), (7, 7)), None);
    assert!(!gesture.is_active());
    assert_eq!(gesture.radius_steps(), 0);
    assert_eq!(gesture.anchor(), (3, 4));
}

#[test]
fn release_without_a_press_places_nothing() {
    let mut gesture = PlacementGesture::new((1i32, 1i32));
    assert_eq!(gesture.poll(release(), (7, 7)), None);
    let input = ButtonPoll {
        primary_just_released: true,
        secondary_just_pressed: true,
        ..ButtonPoll::default()
    };
    assert_eq!(gesture.poll(input, (7, 7)), None);
    assert!(!gesture.is_active());
    assert_eq!(gesture.anchor(), (1, 1));
}

#[test]
fn poll_ends_at_a_hold_without_a_gesture() {
    let mut gesture = PlacementGesture::new((1i32, 1i32));
    let input = ButtonPoll {
        primary_held: true,
        primary_just_released: true,
        secondary_just_pressed: true,
        ..ButtonPoll::default()
    };
    assert_eq!(gesture.poll(input, (5, 5)), None);
    assert!(!gesture.is_active());
    assert_eq!(gesture.anchor(), (1, 1));
}

#[test]
fn release_and_cancel_in_one_poll_still_place() {
    let mut gesture = PlacementGesture::new((0i32, 0i32));
    gesture.poll(press(), (3, 4));
    let input = ButtonPoll {
        primary_just_released: true,
        secondary_just_pressed: true,
        ..ButtonPoll::default()
    };
    let placed = gesture.poll(input, (6, 6));
    assert_eq!(placed, Some(Placement { anchor: (3, 4), release: (6, 6), radius_steps: 1 }));
    assert!(!gesture.is_active());
}

#[test]
fn second_gesture_starts_from_nothing() {
    let mut gesture = PlacementGesture::new((0i32, 0i32));
    gesture.poll(press(), (1, 1));
    gesture.poll(hold(), (1, 1));
    gesture.poll(release(), (2, 2));
    gesture.poll(press(), (8, 8));
    let placed = gesture.poll(release(), (9, 9));
    assert_eq!(placed, Some(Placement { anchor: (8, 8), release: (9, 9), radius_steps: 1 }));
}

#[test]
fn radius_stops_at_the_limit() {
    assert_eq!(RADIUS_STEP_LIMIT, 16_777_216);
    let mut gesture = PlacementGesture::new((0i32, 0i32));
    gesture.start((0, 0));
    for _ in 0..RADIUS_STEP_LIMIT {
        gesture.drag();
    }
    assert_eq!(gesture.radius_steps(), RADIUS_STEP_LIMIT);
    for _ in 0..5 {
        gesture.drag();
    }
    assert_eq!(gesture.radius_steps(), RADIUS_STEP_LIMIT);
    assert!(gesture.is_active());
}

#[test]
fn steps_agree_with_a_sum_of_halves() {
    let mut gesture = PlacementGesture::new((0.0f32, 0.0f32));
    gesture.start((1.0, 2.0));
    let mut radius: f32 = 0.0;
    for poll in 0..(RADIUS_STEP_LIMIT + 3) {
        if poll < 10_000 || poll % 65_536 == 0 || poll + 8 > RADIUS_STEP_LIMIT {
            assert_eq!(gesture.radius_steps() as f32 * 0.5, radius, "after {} polls", poll);
        }
        gesture.drag();
        radius += 0.5;
    }
    assert_eq!(gesture.radius_steps() as f32 * 0.5, radius);
    assert_eq!(radius, 8_388_608.0);
}

#[test]
fn positions_are_handed_through_unchanged() {
    let mut gesture = PlacementGesture::new((0.0f32, 0.0f32));
    gesture.start((-12.25, 7.5));
    gesture.drag();
    let placement = gesture.end((100.125, -0.0)).unwrap();
    assert_eq!(placement.anchor, (-12.25, 7.5));
    assert_eq!(placement.release.0, 100.125);
    assert!(placement.release.1 == 0.0 && placement.release.1.is_sign_negative());
    assert_eq!(placement.radius_steps, 1);
}
