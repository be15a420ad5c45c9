use wavey::{Editor, ExportStatus, Mode, Polarity};

fn editor_in(mode: Mode, samples: Vec<i64>) -> Editor {
    Editor {
        num_samples: samples.len() as i32,
        samples,
        path: String::new(),
        mode,
        status: ExportStatus::Idle,
    }
}

fn mixed() -> Vec<i64> {
    vec![0, 250_000, -250_000, 1_000_000, -1_000_000, 1, -1, 3_000_000, -3_000_000, i64::MAX, i64::MIN, 0]
}

#[test]
fn negative_mode_zeroes_positive_samples() {
    let mut e = editor_in(Mode::Negative, mixed());
    e.wipe_on_mode();
    assert_eq!(
        e.samples,
        vec![0, 0, -250_000, 0, -1_000_000, 0, -1, 0, -3_000_000, 0, i64::MIN, 0]
    );
    assert!(e.samples.iter().all(|v| *v <= 0));
}

#[test]
fn positive_mode_zeroes_negative_samples() {
    let mut e = editor_in(Mode::Positive, mixed());
    e.wipe_on_mode();
    assert_eq!(
        e.samples,
        vec![0, 250_000, 0, 1_000_000, 0, 1, 0, 3_000_000, 0, i64::MAX, 0, 0]
    );
    assert!(e.samples.iter().all(|v| *v >= 0));
}

#[test]
fn biphasic_mode_wipes_nothing() {
    let mut e = editor_in(Mode::Biphasic, mixed());
    e.wipe_on_mode();
    assert_eq!(e.samples, mixed());
}

#[test]
fn wipe_twice_equals_wipe_once() {
    for mode in [Mode::Biphasic, Mode::Negative, Mode::Positive] {
        let mut once = editor_in(mode, mixed());
        once.wipe_on_mode();
        let mut twice = editor_in(mode, mixed());
        twice.wipe_on_mode();
        twice.wipe_on_mode();
        assert_eq!(once.samples, twice.samples);
    }
}

#[test]
fn wipe_on_empty_waveform() {
    let mut e = editor_in(Mode::Negative, Vec::new());
    e.wipe_on_mode();
    assert!(e.samples.is_empty());
}

#[test]
fn wipe_leaves_settings_alone() {
    let mut e = editor_in(Mode::Negative, mixed());
    e.num_samples = 77;
    e.path = String::from("a.csv");
    e.status = ExportStatus::Written;
    e.wipe_on_mode();
    assert_eq!(e.num_samples, 77);
    assert_eq!(e.path, "a.csv");
    assert_eq!(e.mode, Mode::Negative);
    assert_eq!(e.status, ExportStatus::Written);
}

#[test]
fn polarity_table() {
    assert_eq!(Mode::Biphasic.polarity(), Polarity { negative: true, positive: true });
    assert_eq!(Mode::Negative.polarity(), Polarity { negative: true, positive: false });
    assert_eq!(Mode::Positive.polarity(), Polarity { negative: false, positive: true });
}

#[test]
fn constrain_one_amplitude() {
    let neg = Mode::Negative.polarity();
    assert_eq!(neg.constrain(5), 0);
    assert_eq!(neg.constrain(-5), -5);
    assert_eq!(neg.constrain(0), 0);
    let pos = Mode::Positive.polarity();
    assert_eq!(pos.constrain(5), 5);
    assert_eq!(pos.constrain(-5), 0);
    assert_eq!(pos.constrain(0), 0);
    let both = Mode::Biphasic.polarity();
    assert_eq!(both.constrain(5), 5);
    assert_eq!(both.constrain(-5), -5);
}

#[test]
fn plot_range_follows_polarity() {
    assert_eq!(Mode::Biphasic.polarity().y_min(), -1_200_000);
    assert_eq!(Mode::Biphasic.polarity().y_max(), 1_200_000);
    assert_eq!(Mode::Negative.polarity().y_min(), -1_200_000);
    assert_eq!(Mode::Negative.polarity().y_max(), 0);
    assert_eq!(Mode::Positive.polarity().y_min(), 0);
    assert_eq!(Mode::Positive.polarity().y_max(), 1_200_000);
}
