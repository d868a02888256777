use monitor::plugin::log::{breaks_display, new_log_sink, render_log, LOG_LINES_MAX};
use monitor::text::{char_boundary_end, truncate};

fn keeps_the_newest_lines() {
    let mut logs = new_log_sink();
    for i in 0..20 {
        logs.push(&format!("line {i}"));
    }
    assert_eq!(logs.len(), LOG_LINES_MAX);
    assert_eq!(logs.dropped(), 4);
    assert_eq!(logs.line(0).unwrap(), "line 4");
    assert_eq!(logs.line(logs.len() - 1).unwrap(), "line 19");
    let detail = render_log(&logs, 500).unwrap();
    assert!(detail.starts_with("…（更早的 4 行已省略）"), "{detail}");
    assert!(detail.ends_with("line 19"), "{detail}");
}

fn fits_the_budget() {
    assert_eq!(render_log(&new_log_sink(), 500), None);
    let mut logs = new_log_sink();
    for i in 0..6 {
        logs.push(&format!("{}{i}", "x".repeat(90)));
    }
    let detail = render_log(&logs, 300).unwrap();
    assert!(detail.len() <= 300, "{}", detail.len());
    assert!(detail.ends_with("5"), "{detail}");
    assert!(detail.contains("已省略"), "{detail}");
    let tight = render_log(&logs, 40).unwrap();
    assert!(tight.len() <= 40, "{}: {tight}", tight.len());
}

fn neutralizes_control_characters() {
    let mut logs = new_log_sink();
    logs.push("first\r\nsecond");
    assert_eq!(render_log(&logs, 500).unwrap(), "first  second");
    let mut logs = new_log_sink();
    logs.push("evil\u{2028}line\u{202e}reversed\u{feff}");
    assert_eq!(render_log(&logs, 500).unwrap(), "evil line reversed ");
}

#[test]
fn host_the_log_sink_keeps_the_newest_lines_and_counts_the_rest() {
    keeps_the_newest_lines();
}

#[test]
fn log_the_log_sink_keeps_the_newest_lines_and_counts_the_rest() {
    keeps_the_newest_lines();
}

#[test]
fn host_render_log_fits_the_budget_and_keeps_the_newest_line() {
    fits_the_budget();
}

#[test]
fn log_render_log_fits_the_budget_and_keeps_the_newest_line() {
    fits_the_budget();
}

#[test]
fn host_control_characters_in_a_log_line_are_neutralized() {
    neutralizes_control_characters();
}

#[test]
fn log_control_characters_in_a_log_line_are_neutralized() {
    neutralizes_control_characters();
}

#[test]
fn a_log_without_omissions_is_its_lines() {
    let mut logs = new_log_sink();
    logs.push("one");
    logs.push("two");
    assert_eq!(render_log(&logs, 500).unwrap(), "one\ntwo");
}

#[test]
fn a_long_line_is_cut_and_marked() {
    let mut logs = new_log_sink();
    logs.push(&"y".repeat(201));
    let line = logs.line(0).unwrap();
    assert_eq!(line.len(), 203);
    assert!(line.ends_with("y…"));
    assert_eq!(logs.line(1), None);
}

#[test]
fn a_rendering_has_the_exact_note() {
    let mut logs = new_log_sink();
    for i in 0..3 {
        logs.push(&format!("{}{i}", "z".repeat(40)));
    }
    // 100 bytes less the reserve leave room for one line.
    assert_eq!(
        render_log(&logs, 100).unwrap(),
        format!("…（更早的 2 行已省略）\n{}2", "z".repeat(40))
    );
}

#[test]
fn breaking_characters_are_told_apart() {
    for c in ['\n', '\t', '\u{7f}', '\u{85}', '\u{ad}', '\u{200b}', '\u{2028}', '\u{e0041}'] {
        assert!(breaks_display(c), "{:?}", c);
    }
    for c in [' ', 'a', '中', '\u{2065}', '\u{a0}', '😀'] {
        assert!(!breaks_display(c), "{:?}", c);
    }
}

#[test]
fn cuts_fall_on_character_boundaries() {
    assert_eq!(char_boundary_end("aé", 2), 1);
    assert_eq!(char_boundary_end("aé", 3), 3);
    assert_eq!(char_boundary_end("aé", 99), 3);
    assert_eq!(char_boundary_end("é", 1), 0);
    assert_eq!(truncate("aé", 2), "a…");
    assert_eq!(truncate("aé", 3), "aé");
}
