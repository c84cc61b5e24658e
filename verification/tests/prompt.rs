use wuwa_fps_unlocker::edit::validate_frame_rate;
use wuwa_fps_unlocker::prompt::{
    accepts_monitor_rate, choice_of, frame_rate_of, frame_rate_of_line, frame_rate_presets,
    Choice, CONFIRM_ANSWER, CUSTOM_CHOICE, DEFAULT_FRAME_RATE,
};

#[test]
fn prompt_constants() {
    assert_eq!(DEFAULT_FRAME_RATE, 60);
    assert_eq!(CONFIRM_ANSWER, "Yes");
    assert_eq!(CUSTOM_CHOICE, "Custom");
}

#[test]
fn presets_are_accepted_frame_rates() {
    let presets = frame_rate_presets();
    assert_eq!(presets, vec![30, 60, 72, 90, 120, 144, 165, 240]);
    for rate in presets {
        assert_eq!(validate_frame_rate(i64::from(rate)), Ok(()));
    }
}

#[test]
fn frame_rate_of_falls_back_to_the_default() {
    assert_eq!(frame_rate_of("120"), 120);
    assert_eq!(frame_rate_of("+75"), 75);
    assert_eq!(frame_rate_of("0144"), 144);
    assert_eq!(frame_rate_of("0"), 0);
    assert_eq!(frame_rate_of("4294967295"), u32::MAX);
    assert_eq!(frame_rate_of("4294967296"), 60);
    assert_eq!(frame_rate_of(""), 60);
    assert_eq!(frame_rate_of("fast"), 60);
    assert_eq!(frame_rate_of("-30"), 60);
    assert_eq!(frame_rate_of(" 120"), 60);
    assert_eq!(frame_rate_of("120\n"), 60);
    assert_eq!(frame_rate_of("12.5"), 60);
}

#[test]
fn frame_rate_of_line_ignores_white_space_around() {
    assert_eq!(frame_rate_of_line("120\n"), 120);
    assert_eq!(frame_rate_of_line("  90\r\n"), 90);
    assert_eq!(frame_rate_of_line("\t+165 "), 165);
    assert_eq!(frame_rate_of_line("\n"), 60);
    assert_eq!(frame_rate_of_line(""), 60);
    assert_eq!(frame_rate_of_line("1 20\n"), 60);
    assert_eq!(frame_rate_of_line("abc\n"), 60);
    let lines = ["144\n", " 7 ", "x", "", "\u{a0}30\u{3000}", "99999999999\n"];
    for line in lines {
        assert_eq!(frame_rate_of_line(line), line.trim().parse::<u32>().unwrap_or(60));
    }
}

#[test]
fn only_the_confirming_answer_takes_the_monitor_rate() {
    assert!(accepts_monitor_rate(Some("Yes")));
    assert!(!accepts_monitor_rate(Some("No")));
    assert!(!accepts_monitor_rate(Some("yes")));
    assert!(!accepts_monitor_rate(Some("")));
    assert!(!accepts_monitor_rate(None));
}

#[test]
fn choice_of_reads_the_selection() {
    assert_eq!(choice_of(Some("Custom")), Choice::Custom);
    assert_eq!(choice_of(Some("30")), Choice::Rate(30));
    assert_eq!(choice_of(Some("240")), Choice::Rate(240));
    assert_eq!(choice_of(Some("custom")), Choice::Rate(60));
    assert_eq!(choice_of(Some("")), Choice::Rate(60));
    assert_eq!(choice_of(None), Choice::Rate(60));
}
