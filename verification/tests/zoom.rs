use dsh_ui::zoom::{next_zoom, prev_zoom, DEFAULT_ZOOM, ZOOM_STEPS};

#[test]
fn zoom_steps_are_ascending_and_bounded() {
    let mut sorted = ZOOM_STEPS.to_vec();
    sorted.sort_unstable();
    assert_eq!(sorted, ZOOM_STEPS.to_vec(), "档位必须严格升序且无重复");
    assert_eq!(ZOOM_STEPS.first(), Some(&25));
    assert_eq!(ZOOM_STEPS.last(), Some(&500));
}

#[test]
fn zoom_in_moves_to_next_step_and_clamps_at_max() {
    assert_eq!(next_zoom(100), 110);
    assert_eq!(next_zoom(90), 100);
    assert_eq!(next_zoom(0), 25);
    assert_eq!(next_zoom(500), 500);
    assert_eq!(next_zoom(490), 500);
}

#[test]
fn zoom_out_moves_to_prev_step_and_clamps_at_min() {
    assert_eq!(prev_zoom(100), 90);
    assert_eq!(prev_zoom(110), 100);
    assert_eq!(prev_zoom(25), 25);
    assert_eq!(prev_zoom(26), 25);
}

#[test]
fn zooming_in_and_out_leads_back() {
    for i in 0..ZOOM_STEPS.len() {
        let step = ZOOM_STEPS[i];
        if step < 500 {
            assert_eq!(prev_zoom(next_zoom(step)), step);
        }
        if step > 25 {
            assert_eq!(next_zoom(prev_zoom(step)), step);
        }
    }
    assert_eq!(next_zoom(u32::MAX), 500);
    assert_eq!(prev_zoom(u32::MAX), 500);
    assert_eq!(prev_zoom(0), 25);
    assert!(ZOOM_STEPS.contains(&DEFAULT_ZOOM));
}
