use audioviz::handoff::RingHandoff;
use audioviz::render::RenderLoop;
use audioviz::render::UiEvent;
use audioviz::render::bar_height;
use audioviz::render::drain_into;
use audioviz::render::should_close;
use audioviz::render::wants_render;
use audioviz::render::y_of_coeff;

#[test]
fn draining_an_empty_handoff_keeps_the_previous_frame() {
    let mut coeff_h: RingHandoff<i64> = RingHandoff::new(8);
    let mut fft_h: RingHandoff<i64> = RingHandoff::new(8);
    let mut r = RenderLoop::new(4, 4);
    coeff_h.push_all(&vec![1, 2, 3, 4]);
    fft_h.push_all(&vec![9, 8, 7, 6]);
    r.tick(&mut coeff_h, &mut fft_h);
    assert_eq!(r.auto_frame(), &vec![1, 2, 3, 4]);
    assert_eq!(r.fft_frame(), &vec![9, 8, 7, 6]);
    // both handoffs are now empty: a tick must leave the frames as they are
    r.tick(&mut coeff_h, &mut fft_h);
    assert_eq!(r.auto_frame(), &vec![1, 2, 3, 4]);
    assert_eq!(r.fft_frame(), &vec![9, 8, 7, 6]);
}

#[test]
fn fresh_render_state_is_a_zero_baseline() {
    let r = RenderLoop::new(3, 5);
    assert_eq!(r.auto_frame(), &vec![0, 0, 0]);
    assert_eq!(r.fft_frame(), &vec![0, 0, 0, 0, 0]);
}

#[test]
fn polyline_vertex_mapping_is_affine() {
    assert_eq!(y_of_coeff(0, 480), 240);
    assert_eq!(y_of_coeff(32768, 480), 0);
    assert_eq!(y_of_coeff(-32768, 480), 480);
    assert_eq!(y_of_coeff(16384, 480), 120);
}

#[test]
fn bar_height_is_proportional_to_power() {
    assert_eq!(bar_height(0, 10, 100), 0);
    assert_eq!(bar_height(5, 10, 100), 50);
    assert_eq!(bar_height(10, 10, 100), 100);
    assert_eq!(bar_height(1, 3, 100), 33);
}

#[test]
fn only_the_stop_key_closes_and_only_render_events_draw() {
    assert!(should_close(UiEvent::StopKey));
    assert!(!should_close(UiEvent::OtherKey));
    assert!(!should_close(UiEvent::RenderTick));
    assert!(wants_render(UiEvent::RenderTick));
    assert!(!wants_render(UiEvent::StopKey));
    assert!(!wants_render(UiEvent::OtherKey));
}

#[test]
fn drain_wraps_modulo_the_frame_length() {
    let mut h: RingHandoff<i64> = RingHandoff::new(8);
    h.push_all(&vec![5, 6, 7, 8, 9]);
    let mut local: Vec<i64> = vec![0, 0, 0];
    let drained = drain_into(&mut h, &mut local);
    assert_eq!(drained, 5);
    assert_eq!(h.len(), 0);
    // slots 0,1,2,0,1: the later values overwrite from the start
    assert_eq!(local, vec![8, 9, 7]);
}
