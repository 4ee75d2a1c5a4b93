use fj_kernel::zoom::Zoom;

#[test]
fn deltas_are_damped_to_a_tenth() {
    let mut z = Zoom::new();
    z.push_delta(100, 0);
    z.push_delta(55, 10);
    z.push_delta(-1, 20);
    // -1 damps to 0, which counts as positive: it queues.
    assert_eq!(z.events, vec![(0, 10), (10, 5), (20, 0)]);
    assert_eq!(z.speed, 0);
}

#[test]
fn negative_deltas_damp_toward_zero() {
    let mut z = Zoom::new();
    z.push_delta(-55, 0);
    assert_eq!(z.events, vec![(0, -5)]);
}

#[test]
fn opposite_input_stops_the_zoom() {
    let mut z = Zoom::new();
    z.push_delta(100, 0);
    z.push_delta(200, 10);
    z.push_delta(-100, 20);
    // The opposing delta clears the queue and is itself dropped.
    assert_eq!(z.events, vec![]);
    z.push_delta(-100, 30);
    assert_eq!(z.events, vec![(30, -10)]);
}

#[test]
fn old_events_fall_out_of_the_window() {
    let mut z = Zoom::new();
    z.push_delta(100, 0);
    z.push_delta(100, 400);
    z.push_delta(100, 600);
    z.discard_old_events(1000);
    // Stale means strictly older than the 500 ms window: the events at 0
    // and 400 go, the one at 600 stays.
    assert_eq!(z.events, vec![(600, 10)]);
    z.discard_old_events(1101);
    assert_eq!(z.events, vec![]);
}
