use wgpu_animator::norm::{extend_range, frame_range, global_range, NormMode, NEG_INF_BITS, ONE_BITS, POS_INF_BITS};

fn bits(vs: &[f32]) -> Vec<u32> {
    vs.iter().map(|v| v.to_bits()).collect()
}

fn floats(r: (u32, u32)) -> (f32, f32) {
    (f32::from_bits(r.0), f32::from_bits(r.1))
}

const EMPTY: (u32, u32) = (POS_INF_BITS, NEG_INF_BITS);

#[test]
fn constants_are_the_float_bit_patterns() {
    assert_eq!(POS_INF_BITS, f32::INFINITY.to_bits());
    assert_eq!(NEG_INF_BITS, f32::NEG_INFINITY.to_bits());
    assert_eq!(ONE_BITS, 1.0f32.to_bits());
}

#[test]
fn extend_range_ignores_non_finite_values() {
    let data = bits(&[3.0, f32::NAN, -1.5, f32::INFINITY, 2.0, f32::NEG_INFINITY]);
    assert_eq!(floats(extend_range(EMPTY, &data)), (-1.5, 3.0));
}

#[test]
fn extend_range_keeps_a_wider_running_range() {
    let r = (f32::to_bits(-10.0), f32::to_bits(10.0));
    assert_eq!(floats(extend_range(r, &bits(&[1.0, 2.0]))), (-10.0, 10.0));
    assert_eq!(floats(extend_range(r, &bits(&[11.0, -0.5]))), (-10.0, 11.0));
}

#[test]
fn extend_range_without_finite_values() {
    assert_eq!(extend_range(EMPTY, &bits(&[f32::NAN, f32::INFINITY])), EMPTY);
    assert_eq!(extend_range(EMPTY, &[]), EMPTY);
}

#[test]
fn extend_range_in_pieces_equals_at_once() {
    let a = bits(&[0.5, -7.0, f32::NAN]);
    let b = bits(&[100.0, -0.25, 3.0]);
    let mut ab = a.clone();
    ab.extend_from_slice(&b);
    assert_eq!(extend_range(extend_range(EMPTY, &a), &b), extend_range(EMPTY, &ab));
    assert_eq!(floats(extend_range(EMPTY, &ab)), (-7.0, 100.0));
}

#[test]
fn global_range_over_frames() {
    let frames = vec![bits(&[1.0, 2.0]), bits(&[f32::NAN]), bits(&[-4.0, 0.5])];
    assert_eq!(floats(global_range(&frames)), (-4.0, 2.0));
    assert_eq!(global_range(&[]), EMPTY);
    let mut more = frames.clone();
    more.push(bits(&[9.0]));
    assert_eq!(global_range(&more), extend_range(global_range(&frames), &bits(&[9.0])));
}

#[test]
fn global_and_fixed_modes_pass_their_ranges_on() {
    let data = bits(&[5.0, 6.0]);
    let g = (f32::to_bits(-1.0), f32::to_bits(1.0));
    let f = (0, ONE_BITS);
    assert_eq!(frame_range(&data, NormMode::Global, g, f), g);
    assert_eq!(frame_range(&data, NormMode::Fixed, g, f), f);
}

#[test]
fn per_frame_mode_uses_the_frame() {
    let data = bits(&[5.0, f32::NAN, 6.0, -2.0]);
    let g = (0, ONE_BITS);
    assert_eq!(floats(frame_range(&data, NormMode::PerFrame, g, g)), (-2.0, 6.0));
    assert_eq!(frame_range(&bits(&[f32::NAN]), NormMode::PerFrame, g, g), EMPTY);
}

#[test]
fn percentile_mode_picks_first_and_ninety_ninth() {
    // 200 values 199, 198, ..., 0 in reverse order: sorted index 2 and 198.
    let vals: Vec<f32> = (0..200).rev().map(|i| i as f32).collect();
    let g = (0, ONE_BITS);
    assert_eq!(floats(frame_range(&bits(&vals), NormMode::Percentile, g, g)), (2.0, 198.0));
}

#[test]
fn percentile_mode_on_small_frames() {
    let g = (0, ONE_BITS);
    // n = 5: low index 0, high index floor(495 / 100) = 4.
    let data = bits(&[3.0, -1.0, f32::NAN, 7.0, 0.0, 2.0]);
    assert_eq!(floats(frame_range(&data, NormMode::Percentile, g, g)), (-1.0, 7.0));
    // A single value gives it twice.
    assert_eq!(floats(frame_range(&bits(&[4.0]), NormMode::Percentile, g, g)), (4.0, 4.0));
    // Without finite values: (0.0, 1.0).
    assert_eq!(frame_range(&bits(&[f32::NAN, f32::INFINITY]), NormMode::Percentile, g, g), (0, ONE_BITS));
    assert_eq!(frame_range(&[], NormMode::Percentile, g, g), (0, ONE_BITS));
}

#[test]
fn percentile_mode_on_negative_values() {
    let g = (0, ONE_BITS);
    let vals: Vec<f32> = (1..=300).map(|i| -(i as f32) * 0.5).collect();
    // sorted: -150.0, -149.5, ..., -0.5; indices 3 and 297.
    assert_eq!(floats(frame_range(&bits(&vals), NormMode::Percentile, g, g)), (-148.5, -1.5));
}

#[test]
fn percentile_mode_keeps_the_sign_of_zero() {
    let g = (0, ONE_BITS);
    let r = frame_range(&bits(&[-0.0]), NormMode::Percentile, g, g);
    assert_eq!(r, ((-0.0f32).to_bits(), (-0.0f32).to_bits()));
    // −0 sorts just before +0: low index 0, high index 1.
    let r = frame_range(&bits(&[0.0, -0.0]), NormMode::Percentile, g, g);
    assert_eq!(r, ((-0.0f32).to_bits(), 0.0f32.to_bits()));
}

#[test]
fn extend_range_is_order_free_and_idempotent() {
    let cur = ((5.0f32).to_bits(), (6.0f32).to_bits());
    let a = bits(&[-0.0, 3.0, f32::NAN]);
    let b = bits(&[0.0, 9.0, -1.0]);
    let ab = floats(extend_range(extend_range(cur, &a), &b));
    let ba = floats(extend_range(extend_range(cur, &b), &a));
    assert_eq!(ab, ba);
    assert_eq!(ab, (-1.0, 9.0));
    let once = floats(extend_range(cur, &a));
    let twice = floats(extend_range(extend_range(cur, &a), &a));
    assert_eq!(once, twice);
    assert_eq!(once, (-0.0, 6.0));
}

#[test]
fn global_range_of_concatenated_frames() {
    let x = vec![bits(&[1.0, 2.0]), bits(&[f32::NAN])];
    let y = vec![bits(&[-4.0]), bits(&[0.5, 1.5])];
    let mut xy = x.clone();
    xy.extend(y.iter().cloned());
    let (gx, gy, g) = (floats(global_range(&x)), floats(global_range(&y)), floats(global_range(&xy)));
    assert_eq!(g, (gx.0.min(gy.0), gx.1.max(gy.1)));
    assert_eq!(g, (-4.0, 2.0));
    assert_eq!(global_range(&xy), global_range(&[x, y].concat()));
}
