use loom_cli::spinner::SpinnerWidget;

#[test]
fn test_new_has_ten_frames() {
    let spinner = SpinnerWidget::new();
    assert_eq!(spinner.frame_count(), 10);
    assert_eq!(spinner.frame_index(), 0);
}

#[test]
fn test_with_frames() {
    let frames = vec!["a", "b", "c"];
    let spinner = SpinnerWidget::with_frames(frames);
    assert_eq!(spinner.frame_count(), 3);
    assert_eq!(spinner.current_frame(), "a");
}

#[test]
fn test_default_is_new() {
    let a = SpinnerWidget::new();
    let b = SpinnerWidget::default();
    assert_eq!(a.frames(), b.frames());
    assert_eq!(a.frame_index(), b.frame_index());
}

#[test]
fn test_tick_advances_frame() {
    let mut spinner = SpinnerWidget::new();
    assert_eq!(spinner.current_frame(), "⠋");

    spinner.tick();
    assert_eq!(spinner.current_frame(), "⠙");

    spinner.tick();
    assert_eq!(spinner.current_frame(), "⠹");
}

#[test]
fn test_tick_wraps_around() {
    let frames = vec!["x", "y"];
    let mut spinner = SpinnerWidget::with_frames(frames);

    assert_eq!(spinner.current_frame(), "x");
    spinner.tick();
    assert_eq!(spinner.current_frame(), "y");
    spinner.tick();
    assert_eq!(spinner.current_frame(), "x"); // wraps
}

#[test]
fn test_reset_goes_to_zero() {
    let mut spinner = SpinnerWidget::new();
    spinner.tick();
    spinner.tick();
    assert_ne!(spinner.frame_index(), 0);

    spinner.reset();
    assert_eq!(spinner.frame_index(), 0);
    assert_eq!(spinner.current_frame(), "⠋");
}

#[test]
fn test_current_frame_empty_frames() {
    let spinner = SpinnerWidget::with_frames(vec![]);
    assert_eq!(spinner.current_frame(), " ");
}

#[test]
fn test_tick_no_crash_on_empty() {
    let mut spinner = SpinnerWidget::with_frames(vec![]);
    spinner.tick(); // no crash
    assert_eq!(spinner.frame_index(), 0);
}

#[test]
fn test_desired_height_is_one() {
    let spinner = SpinnerWidget::new();
    assert_eq!(spinner.desired_height(80), 1);
}

#[test]
fn test_spinner_frame_cycle() {
    let mut spinner = SpinnerWidget::new();
    let mut seen = std::collections::HashSet::new();

    for _ in 0..spinner.frame_count() {
        let frame = spinner.current_frame().to_string();
        seen.insert(frame);
        spinner.tick();
    }

    assert_eq!(seen.len(), 10, "all 10 unique frames should be visited");
}

#[test]
fn test_with_frames_single_frame() {
    let mut spinner = SpinnerWidget::with_frames(vec!["*"]);
    assert_eq!(spinner.current_frame(), "*");
    // tick on a single-frame spinner stays on the same frame
    spinner.tick();
    assert_eq!(spinner.current_frame(), "*");
    spinner.tick();
    assert_eq!(spinner.current_frame(), "*");
    assert_eq!(spinner.frame_index(), 0, "single-frame index stays 0");
}

#[test]
fn test_tick_wraps_exactly_at_boundary() {
    let frames = vec!["a", "b", "c"];
    let mut spinner = SpinnerWidget::with_frames(frames);
    assert_eq!(spinner.current_frame(), "a");
    spinner.tick();
    assert_eq!(spinner.current_frame(), "b");
    spinner.tick();
    assert_eq!(spinner.current_frame(), "c");
    // 3rd tick wraps back to index 0
    spinner.tick();
    assert_eq!(spinner.current_frame(), "a");
}

#[test]
fn test_tick_many_cycles_no_overflow() {
    let mut spinner = SpinnerWidget::new();
    // 10 000 ticks — should not panic or degrade
    for _ in 0..10_000 {
        spinner.tick();
    }
    // 10 000 % 10 == 0, so we're back at frame 0
    assert_eq!(spinner.current_frame(), "⠋");
    assert_eq!(spinner.frame_index(), 0);
}

#[test]
fn test_tick_then_reset_then_tick() {
    let mut spinner = SpinnerWidget::new();
    spinner.tick();
    spinner.tick();
    assert_eq!(spinner.current_frame(), "⠹", "after 2 ticks");
    spinner.reset();
    assert_eq!(spinner.current_frame(), "⠋", "back to first frame");
    spinner.tick();
    assert_eq!(spinner.current_frame(), "⠙", "advances again after reset");
}

#[test]
fn test_reset_idempotent() {
    let mut spinner = SpinnerWidget::new();
    spinner.reset();
    assert_eq!(spinner.frame_index(), 0);
    spinner.reset();
    assert_eq!(spinner.frame_index(), 0);
    assert_eq!(spinner.current_frame(), "⠋");
}

#[test]
fn test_desired_height_independent_of_width() {
    let spinner = SpinnerWidget::new();
    assert_eq!(spinner.desired_height(0), 1);
    assert_eq!(spinner.desired_height(u16::MAX), 1);
    assert_eq!(spinner.desired_height(1), 1);
    assert_eq!(spinner.desired_height(80), 1);
}

#[test]
fn law_tick_stays_in_frames_example() {
    let mut spinner = SpinnerWidget::with_frames(vec!["a", "b", "c"]);
    for _ in 0..7 {
        spinner.tick();
        assert!(spinner.frame_index() < spinner.frame_count());
    }
    assert_eq!(spinner.current_frame(), "b");
}
