use bio::event::ProcessEvent;
use bio::format::EventFormat;
use bio::regex_style::{join_styled, split_at_ranges, split_match, Pattern, RegexStyle, StyleRule};
use bio::render_loop::RenderLoop;
use bio::style::{Attribute, Color, ContentStyle};
use crossterm::style::Color as Named;

fn pattern(source: &str) -> Pattern {
    Pattern::new(source).unwrap()
}

fn rule(source: &str, foreground: Option<Color>) -> StyleRule {
    StyleRule { pattern: pattern(source), background: None, foreground, attributes: None }
}

#[test]
fn pattern_keeps_its_source() {
    assert_eq!(pattern(r"\d+").as_str(), r"\d+");
}

#[test]
fn invalid_pattern_is_refused() {
    assert!(Pattern::new("foo(bar").is_none());
}

#[test]
fn matches_are_byte_ranges_in_order() {
    assert_eq!(pattern("a+").matches("baaac a"), vec![(1, 4), (6, 7)]);
    assert_eq!(pattern("z").matches("baaac"), vec![]);
    assert_eq!(pattern("b").matches("\u{e9}b\u{e9}b"), vec![(2, 3), (5, 6)]);
}

#[test]
fn text_is_cut_at_the_matches() {
    assert_eq!(
        split_match("hello world", &pattern("o")),
        vec![("hell", false), ("o", true), (" w", false), ("o", true), ("rld", false)]
    );
}

#[test]
fn match_at_either_end_leaves_no_empty_piece() {
    assert_eq!(split_match("abcab", &pattern("ab")), vec![("ab", true), ("c", false), ("ab", true)]);
}

#[test]
fn adjacent_matches_follow_each_other() {
    assert_eq!(split_match("aab", &pattern("a")), vec![("a", true), ("a", true), ("b", false)]);
}

#[test]
fn text_without_a_match_is_one_piece() {
    assert_eq!(split_match("plain", &pattern("x")), vec![("plain", false)]);
    assert_eq!(split_match("", &pattern("x")), vec![]);
}

#[test]
fn whole_text_matched_is_one_piece() {
    assert_eq!(split_match("aaa", &pattern("a+")), vec![("aaa", true)]);
}

#[test]
fn pieces_respect_characters_of_several_bytes() {
    assert_eq!(
        split_match("caf\u{e9} au lait", &pattern("\u{e9}|au")),
        vec![("caf", false), ("\u{e9}", true), (" ", false), ("au", true), (" lait", false)]
    );
}

#[test]
fn given_ranges_are_cut_as_they_are() {
    assert_eq!(
        split_at_ranges("abcdef", &vec![(0, 0), (1, 3), (3, 4)]),
        vec![("", true), ("a", false), ("bc", true), ("d", true), ("ef", false)]
    );
    assert_eq!(split_at_ranges("abc", &vec![]), vec![("abc", false)]);
    assert_eq!(split_at_ranges("abc", &vec![(3, 3)]), vec![("abc", false), ("", true)]);
}

#[test]
fn style_without_anything_leaves_the_text() {
    assert_eq!(ContentStyle::new().apply("same"), "same");
}

#[test]
fn foreground_is_set_and_reset() {
    let mut style = ContentStyle::new();
    style.foreground_color = Some(Color::AnsiValue(9));
    assert_eq!(style.apply("red"), "\x1b[38;5;9mred\x1b[39m");
    style.foreground_color = Some(Color::Rgb { r: 1, g: 20, b: 255 });
    assert_eq!(style.apply("rgb"), "\x1b[38;2;1;20;255mrgb\x1b[39m");
    style.foreground_color = Some(Color::Reset);
    assert_eq!(style.apply("default"), "\x1b[39mdefault\x1b[39m");
}

#[test]
fn background_comes_before_foreground() {
    let mut style = ContentStyle::new();
    style.background_color = Some(Color::AnsiValue(4));
    assert_eq!(style.apply("b"), "\x1b[48;5;4mb\x1b[49m");
    style.foreground_color = Some(Color::AnsiValue(15));
    assert_eq!(style.apply("b"), "\x1b[48;5;4m\x1b[38;5;15mb\x1b[49m\x1b[39m");
}

#[test]
fn attributes_are_set_and_everything_reset() {
    assert_eq!(ContentStyle::new().attribute(Attribute::Bold).apply("b"), "\x1b[1mb\x1b[0m");
    assert_eq!(ContentStyle::new().attribute(Attribute::Reset).apply("r"), "\x1b[0mr\x1b[0m");
    assert_eq!(
        ContentStyle::new().attribute(Attribute::Fraktur).apply("f"),
        "\x1b[20mf\x1b[0m"
    );
    assert_eq!(
        ContentStyle::new().attribute(Attribute::NotOverLined).apply("n"),
        "\x1b[55mn\x1b[0m"
    );
    let mut style = ContentStyle::new()
        .attribute(Attribute::Underlined)
        .attribute(Attribute::Bold)
        .attribute(Attribute::Underlined);
    style.foreground_color = Some(Color::AnsiValue(2));
    assert_eq!(style.apply("x"), "\x1b[38;5;2m\x1b[1m\x1b[4mx\x1b[0m");
}

#[test]
fn every_attribute_has_its_own_code() {
    let all = [
        (Attribute::Reset, 0),
        (Attribute::Bold, 1),
        (Attribute::Dim, 2),
        (Attribute::Italic, 3),
        (Attribute::Underlined, 4),
        (Attribute::SlowBlink, 5),
        (Attribute::RapidBlink, 6),
        (Attribute::Reverse, 7),
        (Attribute::Hidden, 8),
        (Attribute::CrossedOut, 9),
        (Attribute::Fraktur, 20),
        (Attribute::NoBold, 21),
        (Attribute::NormalIntensity, 22),
        (Attribute::NoItalic, 23),
        (Attribute::NoUnderline, 24),
        (Attribute::NoBlink, 25),
        (Attribute::NoReverse, 27),
        (Attribute::NoHidden, 28),
        (Attribute::NotCrossedOut, 29),
        (Attribute::Framed, 51),
        (Attribute::Encircled, 52),
        (Attribute::OverLined, 53),
        (Attribute::NotFramedOrEncircled, 54),
        (Attribute::NotOverLined, 55),
    ];
    for (attribute, code) in all {
        assert_eq!(
            ContentStyle::new().attribute(attribute).apply(""),
            format!("\x1b[{}m\x1b[0m", code)
        );
    }
}

#[test]
fn rule_gives_its_style() {
    let full = StyleRule {
        pattern: pattern("x"),
        background: Some(Color::AnsiValue(1)),
        foreground: Some(Color::Reset),
        attributes: Some(vec![Attribute::Dim, Attribute::Italic]),
    };
    assert_eq!(
        full.content_style(),
        ContentStyle {
            foreground_color: Some(Color::Reset),
            background_color: Some(Color::AnsiValue(1)),
            attributes: vec![Attribute::Dim, Attribute::Italic],
        }
    );
    assert_eq!(rule("y", None).content_style(), ContentStyle::new());
}

#[test]
fn matched_pieces_are_styled_when_joined() {
    let mut style = ContentStyle::new();
    style.foreground_color = Some(Color::AnsiValue(9));
    let parts = vec![("an ", false), ("err", true), ("or", false)];
    assert_eq!(join_styled(&style, &parts), "an \x1b[38;5;9merr\x1b[39mor");
    assert_eq!(join_styled(&style, &vec![]), "");
}

#[test]
fn rules_apply_one_after_the_other() {
    let rules = vec![rule("a", Some(Color::AnsiValue(9))), {
        let mut bold = rule("b", None);
        bold.attributes = Some(vec![Attribute::Bold]);
        bold
    }];
    assert_eq!(
        RegexStyle::style_with("ab", &rules),
        "\x1b[38;5;9ma\x1b[39m\x1b[1mb\x1b[0m"
    );
}

#[test]
fn later_rule_sees_what_the_earlier_one_wrote() {
    let rules = vec![rule("a", Some(Color::AnsiValue(9))), rule("9", Some(Color::AnsiValue(2)))];
    assert_eq!(
        RegexStyle::style_with("a", &rules),
        "\x1b[38;5;\x1b[38;5;2m9\x1b[39mma\x1b[3\x1b[38;5;2m9\x1b[39mm"
    );
}

#[test]
fn no_rule_leaves_the_text() {
    assert_eq!(RegexStyle::style_with("as it is", &vec![]), "as it is");
}

#[test]
fn each_stream_has_its_own_rules() {
    let style = RegexStyle::new(
        vec![rule("ok", Some(Color::AnsiValue(10)))],
        vec![rule("fail", Some(Color::AnsiValue(9)))],
    );
    assert_eq!(style.style_stdout("ok fail"), "\x1b[38;5;10mok\x1b[39m fail");
    assert_eq!(style.style_stderr("ok fail"), "ok \x1b[38;5;9mfail\x1b[39m");
    assert_eq!(
        style.format(ProcessEvent::Output("ok".to_string())),
        "\x1b[38;5;10mok\x1b[39m"
    );
    assert_eq!(
        style.format(ProcessEvent::Error("fail".to_string())),
        "\x1b[38;5;9mfail\x1b[39m"
    );
    assert_eq!(style.format(ProcessEvent::Input("ok".to_string())), "\x1b[38;5;14mok\x1b[39m");
    assert_eq!(style.format(ProcessEvent::Terminate), "Process Terminated");
}

#[test]
fn render_loop_prints_styled_lines() {
    let style = RegexStyle::new(vec![rule("hello", Some(Color::AnsiValue(10)))], vec![]);
    let mut session = RenderLoop::new(style);
    session.tick(vec![], None, vec![]);
    let out = session.tick(
        vec![
            ProcessEvent::Output("hello there".to_string()),
            ProcessEvent::Error("hello".to_string()),
        ],
        None,
        vec![],
    );
    assert_eq!(
        String::from_utf8(out.frame).unwrap(),
        "\x1b[2K\r\x1b[38;5;10mhello\x1b[39m there\n\r\x1b[2K\rhello\n\r\x1b[2K\r> "
    );
    session.set_event_format(RegexStyle::new(vec![], vec![rule("h", Some(Color::Reset))]));
    let out = session.tick(vec![ProcessEvent::Error("hi".to_string())], None, vec![]);
    assert_eq!(
        String::from_utf8(out.frame).unwrap(),
        "\x1b[2K\r\x1b[39mh\x1b[39mi\n\r\x1b[2K\r> "
    );
}

#[test]
fn rules_can_be_taken_out_again() {
    let style = RegexStyle::new(vec![rule("a", None), rule("b", None)], vec![rule("c", None)]);
    let (stdout, stderr) = style.into_rules();
    assert_eq!(stdout.len(), 2);
    assert_eq!(stdout[1].pattern.as_str(), "b");
    assert_eq!(stderr.len(), 1);
    assert_eq!(stderr[0].pattern.as_str(), "c");
}

#[test]
fn named_colours_are_the_first_sixteen_palette_entries() {
    let names = [
        Named::Black,
        Named::DarkRed,
        Named::DarkGreen,
        Named::DarkYellow,
        Named::DarkBlue,
        Named::DarkMagenta,
        Named::DarkCyan,
        Named::Grey,
        Named::DarkGrey,
        Named::Red,
        Named::Green,
        Named::Yellow,
        Named::Blue,
        Named::Magenta,
        Named::Cyan,
        Named::White,
    ];
    for (entry, name) in names.into_iter().enumerate() {
        let mut ours = ContentStyle::new();
        ours.foreground_color = Some(Color::AnsiValue(entry as u8));
        ours.background_color = Some(Color::AnsiValue(entry as u8));
        let mut theirs = crossterm::style::ContentStyle::new();
        theirs.foreground_color = Some(name);
        theirs.background_color = Some(name);
        assert_eq!(ours.apply("x"), theirs.apply("x").to_string());
    }
}
