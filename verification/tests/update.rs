use wavey::{Editor, ExportStatus, FrameInput, Mode, Pointer, Viewport};

fn idle_input(num_samples: i32, mode: Mode) -> FrameInput {
    FrameInput {
        button_down: false,
        pointer: None,
        num_samples,
        mode,
        path: String::from("out.csv"),
        scale_clicked: false,
        export_clicked: false,
    }
}

#[test]
fn update_takes_over_settings_and_resizes() {
    let mut e = Editor::new();
    let out = e.update(idle_input(12, Mode::Negative));
    assert_eq!(e.num_samples, 12);
    assert_eq!(e.mode, Mode::Negative);
    assert_eq!(e.path, "out.csv");
    assert_eq!(e.status, ExportStatus::Idle);
    assert_eq!(e.samples, vec![0i64; 12]);
    assert_eq!(out.viewport, Viewport { x_min: 0, x_max: 12, y_min: -1_200_000, y_max: 0 });
    assert!(out.export.is_none());
}

#[test]
fn update_clamps_small_count() {
    let mut e = Editor::new();
    let out = e.update(idle_input(-4, Mode::Biphasic));
    assert_eq!(e.num_samples, 10);
    assert_eq!(e.samples.len(), 10);
    assert_eq!(out.viewport.x_max, 10);
}

#[test]
fn update_draws_after_wiping() {
    let mut e = Editor::new();
    let mut input = idle_input(100, Mode::Biphasic);
    input.button_down = true;
    input.pointer = Some(Pointer { x: 5_400_000, y: 730_000 });
    e.update(input);
    assert_eq!(e.samples[5], 730_000);

    // Under the negative mode the old positive sample is wiped, while the
    // one drawn in this cycle stays until the next.
    let mut input = idle_input(100, Mode::Negative);
    input.button_down = true;
    input.pointer = Some(Pointer { x: 8_000_000, y: 500_000 });
    e.update(input);
    assert_eq!(e.samples[5], 0);
    assert_eq!(e.samples[8], 500_000);

    e.update(idle_input(100, Mode::Negative));
    assert_eq!(e.samples, vec![0i64; 100]);
}

#[test]
fn update_scales_after_drawing() {
    let mut e = Editor::new();
    let mut input = idle_input(10, Mode::Biphasic);
    input.button_down = true;
    input.pointer = Some(Pointer { x: 3_000_000, y: 500_000 });
    e.update(input);
    let mut input = idle_input(10, Mode::Biphasic);
    input.button_down = true;
    input.pointer = Some(Pointer { x: 4_000_000, y: -250_000 });
    input.scale_clicked = true;
    e.update(input);
    assert_eq!(e.samples, vec![0, 0, 0, 1_000_000, -500_000, 0, 0, 0, 0, 0]);
}

#[test]
fn update_hands_back_export_when_due() {
    let mut e = Editor::new();
    let mut input = idle_input(10, Mode::Biphasic);
    input.button_down = true;
    input.pointer = Some(Pointer { x: 2_000_000, y: -200_000 });
    input.export_clicked = true;
    let out = e.update(input);
    let request = out.export.expect("an export is due");
    assert_eq!(request.path, "out.csv");
    assert_eq!(request.text, "0,0,-0.2,0,0,0,0,0,0,0,");
    assert_eq!(e.status, ExportStatus::Idle);
}

#[test]
fn update_exports_nothing_without_path() {
    let mut e = Editor::new();
    let mut input = idle_input(10, Mode::Biphasic);
    input.path = String::new();
    input.export_clicked = true;
    let out = e.update(input);
    assert!(out.export.is_none());
    assert_eq!(e.path, "");
}

#[test]
fn update_exports_nothing_without_click() {
    let mut e = Editor::new();
    let out = e.update(idle_input(10, Mode::Biphasic));
    assert!(out.export.is_none());
}

#[test]
fn update_cuts_before_anything_else() {
    let mut e = Editor::new();
    let mut input = idle_input(100, Mode::Biphasic);
    input.button_down = true;
    input.pointer = Some(Pointer { x: 11_000_000, y: 400_000 });
    e.update(input);
    let mut input = idle_input(100, Mode::Biphasic);
    input.button_down = true;
    input.pointer = Some(Pointer { x: 4_000_000, y: 200_000 });
    e.update(input);

    // Cutting to twelve samples puts index 11 last, so it is anchored at
    // zero before the peak is taken.
    let mut input = idle_input(12, Mode::Biphasic);
    input.scale_clicked = true;
    e.update(input);
    assert_eq!(e.samples, vec![0, 0, 0, 0, 1_000_000, 0, 0, 0, 0, 0, 0, 0]);
}

#[test]
fn update_keeps_waveform_settled() {
    let mut e = Editor::new();
    let pointers = [
        (i64::MIN, i64::MAX),
        (i64::MAX, i64::MIN),
        (0, 3_000_000),
        (50_500_000, -999_999),
        (99_499_999, 1),
    ];
    let modes = [Mode::Biphasic, Mode::Negative, Mode::Positive];
    let counts = [100, 3, 57, 10, 250, -1];
    for round in 0..36 {
        let (x, y) = pointers[round % pointers.len()];
        let mut input = idle_input(counts[round % counts.len()], modes[round % modes.len()]);
        input.button_down = round % 4 != 3;
        input.pointer = Some(Pointer { x, y });
        input.scale_clicked = round % 5 == 0;
        e.update(input);
        assert!(e.num_samples >= 10);
        assert_eq!(e.samples.len(), e.num_samples as usize);
        assert!(e.samples.iter().all(|v| -1_000_000 <= *v && *v <= 1_000_000));
        assert_eq!(e.samples[0], 0);
        assert_eq!(*e.samples.last().unwrap(), 0);
    }
}

#[test]
fn update_keeps_export_status() {
    let mut e = Editor::new();
    e.export_finished(false);
    e.update(idle_input(10, Mode::Biphasic));
    assert_eq!(e.status, ExportStatus::Failed);
}
