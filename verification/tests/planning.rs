use wascan::planner::{can_resample, is_admissible, plan, Candidate, Thresholds};

fn limits() -> Thresholds {
    Thresholds::default()
}

#[test]
fn the_standard_limits() {
    let limits = Thresholds::default();
    assert_eq!(limits.min_dimension, 60);
    assert_eq!(limits.optimal_dimension, 1200);
    assert_eq!(limits.crop_factor, 4);
    assert_eq!(limits.resize_factor, 3);
    assert_eq!(limits.required_consecutive_detections, 3);
    assert_eq!(limits.min_sample_interval_ms, 100);
}

#[test]
fn a_camera_frame_is_tried_in_three_forms() {
    assert_eq!(
        plan(640, 480, &limits()),
        vec![
            Candidate::Reduced { width: 213, height: 160 },
            Candidate::Cropped { x: 240, y: 180, width: 160, height: 120 },
            Candidate::Whole,
        ]
    );
}

#[test]
fn a_large_frame_is_reduced_to_the_optimal_length() {
    assert_eq!(
        plan(1920, 1440, &limits()),
        vec![
            Candidate::Reduced { width: 1200, height: 900 },
            Candidate::Cropped { x: 720, y: 540, width: 480, height: 360 },
            Candidate::Whole,
        ]
    );
    assert_eq!(
        plan(1500, 3000, &limits()),
        vec![
            Candidate::Reduced { width: 600, height: 1200 },
            Candidate::Cropped { x: 562, y: 1125, width: 375, height: 750 },
            Candidate::Whole,
        ]
    );
}

#[test]
fn a_frame_that_is_large_on_one_side_only_is_divided() {
    assert_eq!(
        plan(1920, 1080, &limits()),
        vec![
            Candidate::Reduced { width: 640, height: 360 },
            Candidate::Cropped { x: 720, y: 405, width: 480, height: 270 },
            Candidate::Whole,
        ]
    );
    assert_eq!(
        plan(1201, 1200, &limits()),
        vec![
            Candidate::Reduced { width: 400, height: 400 },
            Candidate::Cropped { x: 450, y: 450, width: 300, height: 300 },
            Candidate::Whole,
        ]
    );
    assert_eq!(
        plan(1201, 1201, &limits()),
        vec![
            Candidate::Reduced { width: 1200, height: 1200 },
            Candidate::Cropped { x: 450, y: 450, width: 300, height: 300 },
            Candidate::Whole,
        ]
    );
}

#[test]
fn parts_that_are_too_small_are_left_out() {
    assert_eq!(plan(100, 100, &limits()), vec![Candidate::Whole]);
    assert_eq!(plan(60, 60, &limits()), vec![Candidate::Whole]);
    assert_eq!(
        plan(180, 180, &limits()),
        vec![Candidate::Reduced { width: 60, height: 60 }, Candidate::Whole]
    );
    assert_eq!(plan(179, 180, &limits()), vec![Candidate::Whole]);
    assert_eq!(
        plan(240, 240, &limits()),
        vec![
            Candidate::Reduced { width: 80, height: 80 },
            Candidate::Cropped { x: 90, y: 90, width: 60, height: 60 },
            Candidate::Whole,
        ]
    );
    assert_eq!(
        plan(239, 240, &limits()),
        vec![Candidate::Reduced { width: 79, height: 80 }, Candidate::Whole]
    );
}

#[test]
fn a_frame_that_is_too_small_is_not_tried_at_all() {
    assert_eq!(plan(59, 60, &limits()), vec![]);
    assert_eq!(plan(60, 59, &limits()), vec![]);
    assert_eq!(plan(5, 5, &limits()), vec![]);
    assert_eq!(plan(0, 0, &limits()), vec![]);
    assert_eq!(plan(59, 4000, &limits()), vec![]);
    assert_eq!(plan(4000, 59, &limits()), vec![]);
}

#[test]
fn an_empty_frame_is_never_tried() {
    let lax = Thresholds { min_dimension: 0, ..limits() };
    assert_eq!(plan(0, 0, &lax), vec![]);
    assert_eq!(plan(0, 10, &lax), vec![]);
    assert_eq!(plan(1, 1, &lax), vec![Candidate::Whole]);
    assert_eq!(
        plan(4, 4, &lax),
        vec![
            Candidate::Reduced { width: 1, height: 1 },
            Candidate::Cropped { x: 1, y: 1, width: 1, height: 1 },
            Candidate::Whole,
        ]
    );
}

#[test]
fn a_factor_below_two_switches_a_part_off() {
    let no_window = Thresholds { crop_factor: 1, ..limits() };
    assert_eq!(
        plan(640, 480, &no_window),
        vec![Candidate::Reduced { width: 213, height: 160 }, Candidate::Whole]
    );
    let no_copy = Thresholds { resize_factor: 0, ..limits() };
    assert_eq!(
        plan(640, 480, &no_copy),
        vec![Candidate::Cropped { x: 240, y: 180, width: 160, height: 120 }, Candidate::Whole]
    );
    let neither = Thresholds { crop_factor: 0, resize_factor: 1, ..limits() };
    assert_eq!(plan(640, 480, &neither), vec![Candidate::Whole]);
    assert_eq!(
        plan(2000, 2000, &neither),
        vec![Candidate::Reduced { width: 1200, height: 1200 }, Candidate::Whole]
    );
}

#[test]
fn a_half_window_lies_in_the_middle() {
    let halves = Thresholds { crop_factor: 2, resize_factor: 0, ..limits() };
    assert_eq!(
        plan(641, 481, &halves),
        vec![Candidate::Cropped { x: 160, y: 120, width: 320, height: 240 }, Candidate::Whole]
    );
}

#[test]
fn a_very_flat_large_frame_has_no_reduced_copy() {
    let limits = Thresholds { min_dimension: 1, optimal_dimension: 10, ..limits() };
    assert_eq!(
        plan(4000, 11, &limits),
        vec![Candidate::Cropped { x: 1500, y: 4, width: 1000, height: 2 }, Candidate::Whole]
    );
}

#[test]
fn admissible_pictures() {
    assert!(is_admissible(60, 60, &limits()));
    assert!(!is_admissible(59, 60, &limits()));
    assert!(!is_admissible(60, 59, &limits()));
    let lax = Thresholds { min_dimension: 0, ..limits() };
    assert!(is_admissible(1, 1, &lax));
    assert!(!is_admissible(0, 1, &lax));
}

#[test]
fn room_for_resampling() {
    assert!(can_resample(640, 160));
    assert!(can_resample(0, 0));
    assert_eq!(can_resample(u32::MAX, u32::MAX), usize::MAX as u128 >= 32 * (u32::MAX as u128).pow(2));
}
