use fractal_clock::angle::{QUARTER_TURN_UNITS, UNITS_PER_TURN};
use fractal_clock::clock_time::ClockTime;
use fractal_clock::generator::{generate, generate_into};
use fractal_clock::segment::Segment;

/// Turns the exact segment list into screen-space endpoints:
/// `(x0, y0, x1, y1)` per segment, `+y` pointing down as on a screen.
fn endpoints(segs: &[Segment], center: (f32, f32), radius: f32) -> Vec<(f32, f32, f32, f32)> {
    let mut out: Vec<(f32, f32, f32, f32)> = Vec::new();
    for seg in segs {
        let (x0, y0) = match seg.parent {
            Some(p) => {
                let e = out[p];
                (e.2, e.3)
            }
            None => center,
        };
        let radians =
            seg.angle_units as f32 / UNITS_PER_TURN as f32 * 2.0 * std::f32::consts::PI;
        let x1 = x0 + radius * radians.cos();
        let y1 = y0 + radius * radians.sin();
        out.push((x0, y0, x1, y1));
    }
    out
}

fn close(a: f32, b: f32) -> bool {
    (a - b).abs() < 1e-3
}

#[test]
fn depth_zero_is_two_full_arms() {
    let t = ClockTime::new(17, 23, 42);
    let segs = generate(&t, 0);
    assert_eq!(segs.len(), 2);
    for seg in &segs {
        assert!(seg.parent.is_none());
        assert_eq!(seg.brightness_num, seg.brightness_den);
        let brightness = seg.brightness_num as f32 / seg.brightness_den as f32;
        assert_eq!(brightness, 1.0);
        let thickness = 3.0 * brightness;
        assert_eq!(thickness, 3.0);
    }
}

#[test]
fn segment_count_matches_formula() {
    let t = ClockTime::new(9, 41, 7);
    for depth in 0..7u32 {
        let segs = generate(&t, depth);
        assert_eq!(segs.len(), 2 * (2usize.pow(depth + 1) - 1));
    }
}

#[test]
fn root_arms_start_at_center() {
    let t = ClockTime::new(3, 20, 250);
    for depth in 0..5u32 {
        let segs = generate(&t, depth);
        let minutes_root = segs.len() / 2;
        for (i, seg) in segs.iter().enumerate() {
            if i == 0 || i == minutes_root {
                assert!(seg.parent.is_none());
            } else {
                assert!(seg.parent.is_some());
            }
        }
        let pts = endpoints(&segs, (5.0, 7.0), 50.0);
        assert_eq!((pts[0].0, pts[0].1), (5.0, 7.0));
        assert_eq!((pts[minutes_root].0, pts[minutes_root].1), (5.0, 7.0));
    }
}

#[test]
fn brightness_never_increases_toward_leaves() {
    let t = ClockTime::new(58, 59, 999);
    let segs = generate(&t, 4);
    for (i, seg) in segs.iter().enumerate() {
        assert!(1 <= seg.brightness_num && seg.brightness_num <= seg.brightness_den);
        assert_eq!(seg.brightness_den, 5);
        match seg.parent {
            None => assert_eq!(seg.brightness_num, seg.brightness_den),
            Some(j) => {
                assert!(j < i);
                assert_eq!(segs[j].brightness_num, seg.brightness_num + 1);
            }
        }
    }
    let deepest = segs.iter().map(|s| s.brightness_num).min().unwrap();
    assert_eq!(deepest, 1);
    assert!(deepest > 0);
}

#[test]
fn top_of_minute_seconds_arm_points_up() {
    let t = ClockTime::new(37, 0, 0);
    let segs = generate(&t, 2);
    assert_eq!(segs[0].angle_units, -QUARTER_TURN_UNITS);
    let pts = endpoints(&segs, (0.0, 0.0), 100.0);
    assert!(close(pts[0].2, 0.0));
    assert!(close(pts[0].3, -100.0));
}

#[test]
fn noon_scenario_both_hands_up() {
    // Exactly 12:00:00.000.
    let t = ClockTime::new(0, 0, 0);
    let segs = generate(&t, 0);
    assert_eq!(segs.len(), 2);
    assert_eq!(segs[0].angle_units, -QUARTER_TURN_UNITS);
    assert_eq!(segs[1].angle_units, -QUARTER_TURN_UNITS);
    let pts = endpoints(&segs, (0.0, 0.0), 100.0);
    for p in &pts {
        assert_eq!((p.0, p.1), (0.0, 0.0));
        assert!(close(p.2, 0.0));
        assert!(close(p.3, -100.0));
    }
}

#[test]
fn depth_one_scenario_six_segments() {
    let t = ClockTime::new(10, 30, 500);
    let segs = generate(&t, 1);
    assert_eq!(segs.len(), 6);
    // Pre-order, seconds branch first: root seconds arm, its two
    // children, root minutes arm, its two children.
    assert!(segs[0].parent.is_none());
    assert_eq!(segs[1].parent, Some(0));
    assert_eq!(segs[2].parent, Some(0));
    assert!(segs[3].parent.is_none());
    assert_eq!(segs[4].parent, Some(3));
    assert_eq!(segs[5].parent, Some(3));
    // Children inherit the spawning arm's angle as their offset.
    let s_delta = 30 * 60_000 + 500 * 60 - 900_000;
    let m_delta = 10 * 60_000 + 30 * 1_000 + 500 - 900_000;
    assert_eq!(segs[0].angle_units, s_delta);
    assert_eq!(segs[1].angle_units, s_delta + segs[0].angle_units);
    assert_eq!(segs[2].angle_units, m_delta + segs[0].angle_units);
    assert_eq!(segs[3].angle_units, m_delta);
    assert_eq!(segs[4].angle_units, s_delta + segs[3].angle_units);
    assert_eq!(segs[5].angle_units, m_delta + segs[3].angle_units);
    // Root arms at brightness 1, children at 1/2; thickness is three
    // times the brightness.
    for i in [0usize, 3] {
        assert_eq!(segs[i].brightness_num, 2);
        assert_eq!(segs[i].brightness_den, 2);
    }
    for i in [1usize, 2, 4, 5] {
        assert_eq!(segs[i].brightness_num, 1);
        assert_eq!(segs[i].brightness_den, 2);
        let thickness = 3.0 * segs[i].brightness_num as f32 / segs[i].brightness_den as f32;
        assert_eq!(thickness, 1.5);
    }
}

#[test]
fn zero_radius_degenerates_to_center() {
    let t = ClockTime::new(48, 13, 37);
    let segs = generate(&t, 3);
    for p in &endpoints(&segs, (11.0, -4.0), 0.0) {
        assert_eq!((p.0, p.1), (11.0, -4.0));
        assert_eq!((p.2, p.3), (11.0, -4.0));
    }
}

#[test]
fn deepest_arm_is_dimmest_but_lit() {
    let t = ClockTime::new(1, 2, 3);
    for depth in 0..6u32 {
        let segs = generate(&t, depth);
        let last = segs.last().unwrap();
        assert_eq!(last.brightness_num, 1);
        assert_eq!(last.brightness_den, u64::from(depth) + 1);
        let brightness = last.brightness_num as f32 / last.brightness_den as f32;
        assert!(brightness > 0.0);
        if depth > 0 {
            assert!(brightness < 1.0);
        }
    }
}

#[test]
fn generation_is_idempotent() {
    let t = ClockTime::new(41, 26, 333);
    let a = generate(&t, 5);
    let b = generate(&t, 5);
    assert_eq!(a, b);
}

#[test]
fn exact_hand_angles() {
    let t = ClockTime::new(15, 30, 500);
    let segs = generate(&t, 0);
    assert_eq!(segs[0].angle_units, 930_000);
    assert_eq!(segs[1].angle_units, 30_500);
}

#[test]
fn generate_into_appends_to_accumulator() {
    let t = ClockTime::new(6, 15, 125);
    let mut acc = generate(&t, 0);
    assert_eq!(acc.len(), 2);
    generate_into(&t, 1, 1, 0, None, &mut acc);
    assert_eq!(acc.len(), 8);
    // The earlier contents are untouched and the new node follows them.
    assert_eq!(acc[0].angle_units, acc[2].angle_units);
    assert!(acc[2].parent.is_none());
    assert_eq!(acc[3].parent, Some(2));
}
