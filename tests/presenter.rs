use euler_method::bounds::{axis_bounds, first_min_index, last_max_index, AxisBounds};
use euler_method::frame::{Frame, FrameError};
use euler_method::viewer::{next_action, ViewerAction};

fn order_key(v: f64) -> i64 {
    let b = v.to_bits() as i64;
    b ^ ((((b >> 63) as u64) >> 1) as i64)
}

fn keys(v: &[f64]) -> Vec<i64> {
    v.iter().map(|&x| order_key(x)).collect()
}

#[test]
fn axis_bounds_pair_euler_min_with_exact_max() {
    let x = [0.1, 0.2, 0.3];
    let euler = [0.5, -1.0, 3.0];
    let exact = [0.7, 9.0, -4.0];
    let b = axis_bounds(x.len(), &keys(&euler), &keys(&exact)).unwrap();
    assert_eq!(b, AxisBounds { x_first: 0, x_last: 2, y_low: 1, y_high: 1 });
    assert_eq!(euler[b.y_low], -1.0);
    assert_eq!(exact[b.y_high], 9.0);
}

#[test]
fn axis_bounds_ignore_other_extremes() {
    // The least value overall is in the exact series and the greatest in the
    // Euler series: neither is chosen.
    let euler = [1.0, 50.0];
    let exact = [-20.0, 2.0];
    let b = axis_bounds(2, &keys(&euler), &keys(&exact)).unwrap();
    assert_eq!(euler[b.y_low], 1.0);
    assert_eq!(exact[b.y_high], 2.0);
}

#[test]
fn axis_bounds_none_when_empty() {
    assert_eq!(axis_bounds(0, &vec![], &vec![]), None);
    assert_eq!(axis_bounds(0, &vec![1], &vec![1]), None);
    assert_eq!(axis_bounds(1, &vec![], &vec![1]), None);
    assert_eq!(axis_bounds(1, &vec![1], &vec![]), None);
}

#[test]
fn ties_pick_first_least_and_last_greatest() {
    assert_eq!(first_min_index(&vec![3, 1, 2, 1]), 1);
    assert_eq!(last_max_index(&vec![3, 1, 3, 2]), 2);
    assert_eq!(first_min_index(&vec![i64::MIN, i64::MAX]), 0);
    assert_eq!(last_max_index(&vec![7]), 0);
}

#[test]
fn order_keys_follow_float_order() {
    let vals = [-3.5, -0.25, 0.0, 1e-300, 2.0, 1e300];
    let k = keys(&vals);
    for i in 1..k.len() {
        assert!(k[i - 1] < k[i]);
    }
}

#[test]
fn frame_keeps_requested_dimensions() {
    let f = Frame::from_rgba(640, 480, vec![255u8; 640 * 480 * 4]).unwrap();
    assert_eq!((f.width(), f.height()), (640, 480));
    assert_eq!(f.packed_pixels().len(), 640 * 480);
}

#[test]
fn frame_refuses_wrong_byte_count() {
    assert_eq!(Frame::from_rgba(2, 2, vec![0u8; 15]).err(), Some(FrameError::BufferSizeMismatch));
    assert_eq!(Frame::from_rgba(2, 2, vec![0u8; 17]).err(), Some(FrameError::BufferSizeMismatch));
    assert!(Frame::from_rgba(0, 5, vec![]).is_ok());
    assert_eq!(
        Frame::from_rgba(u32::MAX, u32::MAX, vec![0u8; 4]).err(),
        Some(FrameError::BufferSizeMismatch)
    );
}

#[test]
fn packed_pixels_drop_alpha() {
    let f = Frame::from_rgba(2, 1, vec![0x12, 0x34, 0x56, 0x78, 255, 0, 1, 9]).unwrap();
    assert_eq!(f.packed_pixels(), vec![0x0012_3456u32, 0x00ff_0001u32]);
}

#[test]
fn viewer_redraws_until_closed_or_exit_key() {
    assert_eq!(next_action(true, false), ViewerAction::Redraw);
    assert_eq!(next_action(true, true), ViewerAction::Close);
    assert_eq!(next_action(false, false), ViewerAction::Close);
    assert_eq!(next_action(false, true), ViewerAction::Close);
}
