use wavey::amplitude::{clamp_unit, divide_by_peak, magnitude_of};
use wavey::{Editor, ExportStatus, Mode};

fn editor_of(samples: Vec<i64>) -> Editor {
    Editor {
        num_samples: samples.len() as i32,
        samples,
        path: String::new(),
        mode: Mode::Biphasic,
        status: ExportStatus::Idle,
    }
}

#[test]
fn scale_divides_interior_by_peak() {
    let mut e = editor_of(vec![0, 500_000, -2_000_000, 1_000_000, 0]);
    e.scale_samples();
    assert_eq!(e.samples, vec![0, 250_000, -1_000_000, 500_000, 0]);
}

#[test]
fn scale_of_all_zero_is_noop() {
    let mut e = editor_of(vec![0; 12]);
    e.scale_samples();
    assert_eq!(e.samples, vec![0; 12]);
}

#[test]
fn scale_of_empty_is_noop() {
    let mut e = editor_of(Vec::new());
    e.scale_samples();
    assert!(e.samples.is_empty());
}

#[test]
fn scale_without_interior_is_noop() {
    for samples in [vec![5], vec![5, -9]] {
        let mut e = editor_of(samples.clone());
        e.scale_samples();
        assert_eq!(e.samples, samples);
    }
}

#[test]
fn scale_counts_boundary_in_peak_but_leaves_it() {
    let mut e = editor_of(vec![4_000_000, 1_000_000, -2_000_000, -8_000_000]);
    e.scale_samples();
    assert_eq!(e.samples, vec![4_000_000, 125_000, -250_000, -8_000_000]);
}

#[test]
fn scale_rounds_to_nearest_step() {
    let mut e = editor_of(vec![0, 1, 2, 3, 0]);
    e.scale_samples();
    assert_eq!(e.samples, vec![0, 333_333, 666_667, 1_000_000, 0]);
    let mut e = editor_of(vec![0, -1, -2, -3, 0]);
    e.scale_samples();
    assert_eq!(e.samples, vec![0, -333_333, -666_667, -1_000_000, 0]);
}

#[test]
fn scale_tie_goes_away_from_zero() {
    let mut e = editor_of(vec![0, 1, -1, 3, 2_000_000, 0]);
    e.scale_samples();
    assert_eq!(e.samples, vec![0, 1, -1, 2, 1_000_000, 0]);
}

#[test]
fn scale_of_small_waveform_reaches_full_scale() {
    let mut e = editor_of(vec![0, 100_000, -50_000, 25_000, 0]);
    e.scale_samples();
    assert_eq!(e.samples, vec![0, 1_000_000, -500_000, 250_000, 0]);
}

#[test]
fn scale_handles_extreme_amplitudes() {
    let mut e = editor_of(vec![0, i64::MIN, i64::MAX, 0, 0]);
    e.scale_samples();
    assert_eq!(e.samples, vec![0, -1_000_000, 1_000_000, 0, 0]);
}

#[test]
fn scale_leaves_settings_alone() {
    let mut e = editor_of(vec![0, 500_000, 0]);
    e.num_samples = 42;
    e.mode = Mode::Positive;
    e.path = String::from("p");
    e.status = ExportStatus::Failed;
    e.scale_samples();
    assert_eq!(e.samples, vec![0, 1_000_000, 0]);
    assert_eq!(e.num_samples, 42);
    assert_eq!(e.mode, Mode::Positive);
    assert_eq!(e.path, "p");
    assert_eq!(e.status, ExportStatus::Failed);
}

#[test]
fn peak_is_largest_magnitude() {
    assert_eq!(editor_of(Vec::new()).peak(), 0);
    assert_eq!(editor_of(vec![0, 0]).peak(), 0);
    assert_eq!(editor_of(vec![3, -7, 5]).peak(), 7);
    assert_eq!(editor_of(vec![-9, 1, 1]).peak(), 9);
    assert_eq!(editor_of(vec![1, 1, 9]).peak(), 9);
    assert_eq!(editor_of(vec![i64::MAX, i64::MIN]).peak(), 9_223_372_036_854_775_808);
}

#[test]
fn magnitude_of_amplitudes() {
    assert_eq!(magnitude_of(0), 0);
    assert_eq!(magnitude_of(17), 17);
    assert_eq!(magnitude_of(-17), 17);
    assert_eq!(magnitude_of(i64::MAX), 9_223_372_036_854_775_807);
    assert_eq!(magnitude_of(i64::MIN), 9_223_372_036_854_775_808);
}

#[test]
fn clamp_to_full_scale() {
    assert_eq!(clamp_unit(0), 0);
    assert_eq!(clamp_unit(999_999), 999_999);
    assert_eq!(clamp_unit(1_000_000), 1_000_000);
    assert_eq!(clamp_unit(1_000_001), 1_000_000);
    assert_eq!(clamp_unit(-1_000_000), -1_000_000);
    assert_eq!(clamp_unit(-1_000_001), -1_000_000);
    assert_eq!(clamp_unit(i64::MAX), 1_000_000);
    assert_eq!(clamp_unit(i64::MIN), -1_000_000);
}

#[test]
fn divide_by_peak_exact_values() {
    assert_eq!(divide_by_peak(500_000, 2_000_000), 250_000);
    assert_eq!(divide_by_peak(-2_000_000, 2_000_000), -1_000_000);
    assert_eq!(divide_by_peak(0, 1), 0);
    assert_eq!(divide_by_peak(1, 3), 333_333);
    assert_eq!(divide_by_peak(2, 3), 666_667);
    assert_eq!(divide_by_peak(1, 2_000_000), 1);
    assert_eq!(divide_by_peak(-1, 2_000_000), -1);
    assert_eq!(divide_by_peak(1, 2_000_001), 0);
    assert_eq!(divide_by_peak(i64::MIN, 9_223_372_036_854_775_808), -1_000_000);
    assert_eq!(divide_by_peak(i64::MAX, 9_223_372_036_854_775_808), 1_000_000);
    assert_eq!(divide_by_peak(i64::MAX, u64::MAX), 500_000);
}
