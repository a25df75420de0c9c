use mcping::formatting::legacy;
use mcping::formatting::{latency_bar, pad, player_list, Pad};

const RED: &str = "\u{1b}[38;5;9m";
const FG_RESET: &str = "\u{1b}[39m";
const BOLD: &str = "\u{1b}[1m";
const UNDERLINE: &str = "\u{1b}[4m";
const RESET_ALL: &str = "\u{1b}[0m";

#[test]
fn truncates_at_width_minus_three_and_marks() {
    let long = "a".repeat(100);
    let formatted = legacy::format(10, &long);
    assert_eq!(formatted, "aaaaaaa...");
}

#[test]
fn short_lines_pass_through_unmarked() {
    assert_eq!(legacy::format(10, "hi"), "hi");
    assert_eq!(legacy::format(10, "abcdef"), "abcdef");
}

#[test]
fn color_code_styles_until_reset() {
    let formatted = legacy::format(100, "§cRed§rNormal");
    let mut expected = String::new();
    for c in ["R", "e", "d"] {
        expected.push_str(RED);
        expected.push_str(c);
        expected.push_str(FG_RESET);
    }
    expected.push_str("Normal");
    assert_eq!(formatted, expected);
}

#[test]
fn unknown_code_passes_through_literally() {
    assert_eq!(legacy::format(100, "§zX"), "§zX");
}

#[test]
fn bold_wraps_outside_the_color() {
    let formatted = legacy::format(100, "§c§lX");
    let expected = format!("{BOLD}{RED}X{FG_RESET}{RESET_ALL}");
    assert_eq!(formatted, expected);
}

#[test]
fn underline_code_styles_characters() {
    let formatted = legacy::format(100, "§nX");
    let expected = format!("{UNDERLINE}X{RESET_ALL}");
    assert_eq!(formatted, expected);
}

#[test]
fn style_codes_at_the_boundary_are_still_honored() {
    let formatted = legacy::format(4, "a§cb");
    let mut expected = String::from("a");
    expected.push_str("...");
    assert_eq!(formatted, expected);
    let continued = legacy::format(4, "a§cb\nc");
    let expected_continued = format!("a...\n{RED}c{FG_RESET}...");
    assert_eq!(continued, expected_continued);
}

#[test]
fn newline_resets_the_column_but_not_the_style() {
    let formatted = legacy::format(10, "§cab\ncd");
    let mut expected = String::new();
    for c in ["a", "b"] {
        expected.push_str(RED);
        expected.push_str(c);
        expected.push_str(FG_RESET);
    }
    expected.push('\n');
    for c in ["c", "d"] {
        expected.push_str(RED);
        expected.push_str(c);
        expected.push_str(FG_RESET);
    }
    assert_eq!(formatted, expected);
}

#[test]
fn truncated_line_gains_marker_before_newline() {
    let formatted = legacy::format(5, "abcdef\ngh");
    assert_eq!(formatted, "ab...\ngh...");
}

#[test]
fn pads_left_and_right() {
    assert_eq!(pad("ab", 2, 5, Pad::Left), "ab   ");
    assert_eq!(pad("ab", 2, 5, Pad::Right), "   ab");
}

#[test]
fn overlong_text_is_never_truncated_by_pad() {
    assert_eq!(pad("abcdef", 6, 5, Pad::Left), "abcdef");
    assert_eq!(pad("abcdef", 6, 5, Pad::Right), "abcdef");
}

#[test]
fn latency_glyphs_change_exactly_at_the_thresholds() {
    assert_eq!(latency_bar(0), '█');
    assert_eq!(latency_bar(150), '█');
    assert_eq!(latency_bar(151), '▆');
    assert_eq!(latency_bar(300), '▆');
    assert_eq!(latency_bar(301), '▄');
    assert_eq!(latency_bar(450), '▄');
    assert_eq!(latency_bar(451), '▂');
    assert_eq!(latency_bar(600), '▂');
    assert_eq!(latency_bar(601), '▁');
    assert_eq!(latency_bar(1000000), '▁');
}

#[test]
fn player_names_are_cut_off_with_an_ellipsis_entry() {
    let names = vec![
        String::from("alice"),
        String::from("bob"),
        String::from("christopher"),
        String::from("dan"),
    ];
    let listed = player_list(&names, 15);
    assert_eq!(listed, vec!["alice", "bob", "..."]);
}

#[test]
fn short_player_lists_render_in_full() {
    let names = vec![String::from("ab"), String::from("cd")];
    let listed = player_list(&names, 20);
    assert_eq!(listed, vec!["ab", "cd"]);
}
