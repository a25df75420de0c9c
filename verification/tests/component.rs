use mcping::formatting::component::{get_color, TextComponent};
use mcping::formatting::component;
use mcping::formatting::style::Color;

const RED: &str = "\u{1b}[38;5;9m";
const GOLD: &str = "\u{1b}[38;5;3m";
const FG_RESET: &str = "\u{1b}[39m";
const BOLD: &str = "\u{1b}[1m";
const ITALIC: &str = "\u{1b}[3m";
const STRIKE: &str = "\u{1b}[9m";
const RESET_ALL: &str = "\u{1b}[0m";

fn leaf(text: &str) -> TextComponent {
    TextComponent {
        text: String::from(text),
        extra: Vec::new(),
        color: None,
        bold: false,
        italic: false,
        underlined: false,
        strikethrough: false,
    }
}

#[test]
fn children_do_not_inherit_the_parent_color() {
    let mut root = leaf("A");
    root.color = Some(String::from("red"));
    root.extra.push(leaf("B"));
    let rendered = component::format(100, &root);
    let expected = format!("{RED}A{RESET_ALL}{FG_RESET}B{RESET_ALL}{FG_RESET}");
    assert_eq!(rendered, expected);
}

#[test]
fn a_plain_leaf_renders_its_text_and_the_resets() {
    let rendered = component::format(100, &leaf("hello"));
    let expected = format!("hello{RESET_ALL}{FG_RESET}");
    assert_eq!(rendered, expected);
}

#[test]
fn attributes_open_in_a_fixed_order() {
    let mut node = leaf("X");
    node.color = Some(String::from("gold"));
    node.bold = true;
    node.italic = true;
    node.strikethrough = true;
    let rendered = component::format(100, &node);
    let expected = format!("{GOLD}{BOLD}{ITALIC}{STRIKE}X{RESET_ALL}{FG_RESET}");
    assert_eq!(rendered, expected);
}

#[test]
fn unknown_color_names_style_nothing() {
    let mut node = leaf("X");
    node.color = Some(String::from("chartreuse"));
    let rendered = component::format(100, &node);
    let expected = format!("X{RESET_ALL}{FG_RESET}");
    assert_eq!(rendered, expected);
}

#[test]
fn component_text_still_interprets_legacy_codes() {
    let rendered = component::format(100, &leaf("§cR"));
    let expected = format!("{RED}R{FG_RESET}{RESET_ALL}{FG_RESET}");
    assert_eq!(rendered, expected);
}

#[test]
fn component_text_is_width_bounded() {
    let rendered = component::format(10, &leaf(&"a".repeat(50)));
    let expected = format!("aaaaaaa...{RESET_ALL}{FG_RESET}");
    assert_eq!(rendered, expected);
}

#[test]
fn siblings_render_in_order() {
    let mut root = leaf("1");
    root.extra.push(leaf("2"));
    root.extra.push(leaf("3"));
    let rendered = component::format(100, &root);
    let expected = format!(
        "1{RESET_ALL}{FG_RESET}2{RESET_ALL}{FG_RESET}3{RESET_ALL}{FG_RESET}"
    );
    assert_eq!(rendered, expected);
}

#[test]
fn color_names_map_to_the_legacy_palette() {
    assert_eq!(get_color("red"), Some(Color::Red));
    assert_eq!(get_color("RED"), Some(Color::Red));
    assert_eq!(get_color("dark_aqua"), Some(Color::DarkCyan));
    assert_eq!(get_color("dark_cyan"), Some(Color::DarkCyan));
    assert_eq!(get_color("gold"), Some(Color::DarkYellow));
    assert_eq!(get_color("light_purple"), Some(Color::Magenta));
    assert_eq!(get_color("gray"), Some(Color::Grey));
    assert_eq!(get_color("grey"), Some(Color::Grey));
    assert_eq!(get_color("aqua"), Some(Color::Cyan));
    assert_eq!(get_color("white"), Some(Color::White));
    assert_eq!(get_color("blurple"), None);
    assert_eq!(get_color(""), None);
}
