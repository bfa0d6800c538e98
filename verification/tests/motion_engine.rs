use focuslens::motion::{
    compute_motion_path, evaluate_metrics, smooth_motion, CursorSample, MotionConfig, MotionPoint,
};
use focuslens::{CameraIntensity, CameraMotionProfile};

fn profile(intensity: CameraIntensity) -> CameraMotionProfile {
    CameraMotionProfile {
        enabled: true,
        intensity,
        smoothing: 560,
        max_zoom: 1350,
        idle_threshold_ms: 500,
    }
}

#[test]
fn large_jump_is_clamped() {
    let prev = MotionPoint { x: 0, y: 0, zoom: 1000 };
    let target = MotionPoint { x: 1_000_000, y: 0, zoom: 2000 };
    let cfg = MotionConfig { smoothing: 500, max_speed_px: 60_000, max_zoom_step: 100 };
    let next = smooth_motion(prev, target, cfg);
    assert!(next.x <= 60_000);
    assert_eq!(next.y, 0);
    assert!(next.zoom <= 1_100);
}

#[test]
fn idle_point_stays_stable() {
    let prev = MotionPoint { x: 400_000, y: 300_000, zoom: 1300 };
    let next = smooth_motion(prev, prev, MotionConfig::default());
    assert_eq!(next, prev);
}

#[test]
fn zoom_always_lands_in_unit_range() {
    let prev = MotionPoint { x: 0, y: 0, zoom: 0 };
    let target = MotionPoint { x: 0, y: 0, zoom: 1_000_000 };
    let cfg = MotionConfig { smoothing: 0, max_speed_px: 100_000, max_zoom_step: 1_000_000 };
    let next = smooth_motion(prev, target, cfg);
    assert!(next.zoom >= 1000 && next.zoom <= 2000);
}

#[test]
fn displacement_never_exceeds_speed_cap() {
    let prev = MotionPoint { x: -50_000_000, y: 40_000_000, zoom: 1500 };
    let target = MotionPoint { x: 70_000_000, y: -90_000_000, zoom: 1000 };
    let cfg = MotionConfig { smoothing: 100, max_speed_px: 12_345, max_zoom_step: 80 };
    let next = smooth_motion(prev, target, cfg);
    let dx = (next.x - prev.x) as i128;
    let dy = (next.y - prev.y) as i128;
    let cap = cfg.max_speed_px as i128;
    assert!(dx * dx + dy * dy <= cap * cap);
}

#[test]
fn motion_path_reacts_within_mvp_latency_band() {
    let samples = vec![
        CursorSample { t_ms: 0, x: 100_000, y: 100_000 },
        CursorSample { t_ms: 120, x: 900_000, y: 520_000 },
        CursorSample { t_ms: 240, x: 900_000, y: 520_000 },
        CursorSample { t_ms: 360, x: 900_000, y: 520_000 },
        CursorSample { t_ms: 480, x: 900_000, y: 520_000 },
    ];
    let path = compute_motion_path(&samples, &profile(CameraIntensity::Medium));
    let metrics = evaluate_metrics(&samples, &path);
    assert!(metrics.transition_latency_ms <= 450);
}

#[test]
fn idle_jitter_is_small() {
    let samples = (0..20)
        .map(|idx| CursorSample { t_ms: idx * 50, x: 500_000, y: 300_000 })
        .collect::<Vec<_>>();
    let path = compute_motion_path(&samples, &profile(CameraIntensity::Low));
    let metrics = evaluate_metrics(&samples, &path);
    assert!(metrics.idle_jitter_ratio <= 10);
}

#[test]
fn transition_latency_should_handle_single_axis_movement() {
    let samples = vec![
        CursorSample { t_ms: 0, x: 100_000, y: 320_000 },
        CursorSample { t_ms: 120, x: 860_000, y: 320_000 },
        CursorSample { t_ms: 240, x: 860_000, y: 320_000 },
        CursorSample { t_ms: 360, x: 860_000, y: 320_000 },
    ];
    let path = compute_motion_path(&samples, &profile(CameraIntensity::Medium));
    let metrics = evaluate_metrics(&samples, &path);
    assert!(metrics.transition_latency_ms > 0);
}

#[test]
fn higher_smoothing_should_move_slower() {
    let samples = vec![
        CursorSample { t_ms: 0, x: 100_000, y: 100_000 },
        CursorSample { t_ms: 120, x: 900_000, y: 520_000 },
    ];
    let mut slow = profile(CameraIntensity::Medium);
    slow.smoothing = 900;
    let mut fast = profile(CameraIntensity::Medium);
    fast.smoothing = 200;
    let slow_path = compute_motion_path(&samples, &slow);
    let fast_path = compute_motion_path(&samples, &fast);
    let slow_dx = (slow_path[1].x - samples[0].x).abs();
    let fast_dx = (fast_path[1].x - samples[0].x).abs();
    assert!(fast_dx > slow_dx);
}

#[test]
fn path_starts_at_first_sample_at_zoom_one() {
    let samples = vec![
        CursorSample { t_ms: 0, x: 123_000, y: 456_000 },
        CursorSample { t_ms: 100, x: 223_000, y: 456_000 },
    ];
    let path = compute_motion_path(&samples, &profile(CameraIntensity::High));
    assert_eq!(path.len(), 2);
    assert_eq!(path[0], focuslens::motion::MotionPoint { x: 123_000, y: 456_000, zoom: 1000 });
}

#[test]
fn synthetic_track_covers_whole_duration() {
    let track = focuslens::track::synthetic_track(130);
    assert!(track.len() >= 2);
    assert_eq!(track[0].t_ms, 0);
    assert_eq!(track.last().unwrap().t_ms, 130);
    for w in track.windows(2) {
        assert!(w[0].t_ms <= w[1].t_ms);
    }
}

#[test]
fn normalize_extends_track_to_duration() {
    let samples = vec![
        CursorSample { t_ms: 0, x: 1_000, y: 2_000 },
        CursorSample { t_ms: 700, x: 3_000, y: 4_000 },
    ];
    let out = focuslens::track::normalize_cursor_track(&samples, 1_000);
    assert_eq!(out.len(), 3);
    assert_eq!(out[2].t_ms, 1_000);
    assert_eq!(out[2].x, 3_000);
    let clamped = focuslens::track::normalize_cursor_track(
        &vec![CursorSample { t_ms: 5_000, x: 1_000, y: 2_000 }],
        1_000,
    );
    assert_eq!(clamped.len(), 1);
    assert_eq!(clamped[0].t_ms, 1_000);
}

#[test]
fn empty_track_gets_synthetic_substitute() {
    let out = focuslens::track::normalize_cursor_track(&Vec::new(), 600);
    assert!(!out.is_empty());
    assert_eq!(out[0].t_ms, 0);
    assert_eq!(out.last().unwrap().t_ms, 600);
}
