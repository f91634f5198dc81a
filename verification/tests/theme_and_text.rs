use oxicord_ui::theme::{ansi_to_rgb, color_rgb, parse_color, parse_color_fallback, parse_hex_color, resolve_color, Color};
use oxicord_ui::utils::{
    choose_timestamp, clean_text, format_iso_timestamp, get_author_color, get_user_color, hash_id_to_color, parse_u64_str,
    sanitize_channel_name, split_command, timestamp_fallback, u32_to_color, u64_to_decimal,
};

#[test]
fn test_ansi_256_cube() {
    let (r, g, b) = ansi_to_rgb(208);
    assert_eq!((r, g, b), (255, 135, 0));

    let (r, g, b) = ansi_to_rgb(16);
    assert_eq!((r, g, b), (0, 0, 0));

    let (r, g, b) = ansi_to_rgb(231);
    assert_eq!((r, g, b), (255, 255, 255));
}

#[test]
fn ansi_gray_ramp_and_system_colors() {
    assert_eq!(ansi_to_rgb(232), (8, 8, 8));
    assert_eq!(ansi_to_rgb(255), (238, 238, 238));
    assert_eq!(color_rgb(Color::Rgb(1, 2, 3)), (1, 2, 3));
}

#[test]
fn hex_colors_parse_long_and_short_forms() {
    assert_eq!(parse_hex_color("#FF0000"), Ok((255, 0, 0)));
    assert_eq!(parse_hex_color("#0f0"), Ok((0, 255, 0)));
    assert_eq!(parse_hex_color("#12345"), Err(()));
    assert_eq!(parse_hex_color("#zzzzzz"), Err(()));
}

#[test]
fn color_fallback_handles_hex_orange_and_unknown() {
    assert_eq!(parse_color_fallback("#FF0000"), Color::Rgb(255, 0, 0));
    assert_eq!(parse_color_fallback("#0f0"), Color::Rgb(0, 255, 0));
    assert_eq!(parse_color_fallback("Orange"), Color::Indexed(208));
    assert_eq!(parse_color_fallback("Invalid"), Color::Yellow);
}

#[test]
fn test_sanitize_channel_name() {
    assert_eq!(sanitize_channel_name("general"), "general");
    assert_eq!(sanitize_channel_name("#general"), "general");
    assert_eq!(sanitize_channel_name("##general"), "general");
    assert_eq!(sanitize_channel_name("#- -general"), "general");
    assert_eq!(sanitize_channel_name(" - general"), "general");
    assert_eq!(sanitize_channel_name("@linuxmobile"), "linuxmobile");
    assert_eq!(sanitize_channel_name("!voice"), "voice");
    assert_eq!(sanitize_channel_name("\u{f057e} voice"), "voice");
    assert_eq!(sanitize_channel_name("\u{f0b79} forum"), "forum");
    assert_eq!(sanitize_channel_name("^thread"), "thread");
}

#[test]
fn test_split_command() {
    assert_eq!(split_command("nvim"), vec!["nvim"]);
    assert_eq!(split_command("code --wait"), vec!["code", "--wait"]);
    assert_eq!(split_command("\"/usr/bin/my editor\" --file"), vec!["/usr/bin/my editor", "--file"]);
    assert_eq!(split_command("nvim -u NONE"), vec!["nvim", "-u", "NONE"]);
    assert_eq!(split_command("editor 'file with spaces.txt'"), vec!["editor", "file with spaces.txt"]);
    assert_eq!(split_command("editor \"file with spaces.txt\""), vec!["editor", "file with spaces.txt"]);
    assert_eq!(split_command("editor file\\ with\\ spaces.txt"), vec!["editor", "file with spaces.txt"]);
    assert_eq!(split_command(""), Vec::<String>::new());
    assert_eq!(split_command("   "), Vec::<String>::new());
}

#[test]
fn split_command_never_yields_empty_arguments() {
    for s in ["a  b", "'' x", "\"\"", " \\  "] {
        for arg in split_command(s) {
            assert!(!arg.is_empty());
        }
    }
}

#[test]
fn clean_text_removes_emoji_and_decorations() {
    assert_eq!(clean_text("  -| general  "), "general");
    assert_eq!(clean_text("\u{1F600} fun"), "fun");
}

#[test]
fn decimal_formatting() {
    assert_eq!(u64_to_decimal(0), "0");
    assert_eq!(u64_to_decimal(1234567890), "1234567890");
    assert_eq!(u64_to_decimal(u64::MAX), "18446744073709551615");
}

#[test]
fn palette_and_rgb_numbers() {
    assert_eq!(hash_id_to_color(0), Color::Red);
    assert_eq!(hash_id_to_color(12), Color::Green);
    assert_eq!(hash_id_to_color(10), Color::LightCyan);
    assert_eq!(u32_to_color(0x123456), Color::Rgb(0x12, 0x34, 0x56));
}

#[test]
fn timestamp_fallback_cuts_time_or_date() {
    assert_eq!(timestamp_fallback("2024-01-02 garbage Tnope12345"), "nope1");
    assert_eq!(timestamp_fallback("not a timestamp at all"), "not a time");
    assert_eq!(timestamp_fallback("short"), "short");
}

#[test]
fn timestamp_prefers_parsed_times() {
    assert_eq!(choose_timestamp(Some("10:30".to_string()), None, "x"), "10:30");
    assert_eq!(choose_timestamp(None, Some("11:45".to_string()), "x"), "11:45");
    assert_eq!(choose_timestamp(None, None, "garbage-input-here"), "garbage-in");
}

#[test]
fn formatted_timestamp_is_a_time_of_day() {
    let t = format_iso_timestamp("2024-05-06T07:08:09+00:00");
    assert_eq!(t.len(), 5);
    assert_eq!(t.as_bytes()[2], b':');
    assert_eq!(format_iso_timestamp("garbage"), "garbage");
}

#[test]
fn parse_u64_like_str_parse() {
    assert_eq!(parse_u64_str("123"), Some(123));
    assert_eq!(parse_u64_str("+7"), Some(7));
    assert_eq!(parse_u64_str(""), None);
    assert_eq!(parse_u64_str("+"), None);
    assert_eq!(parse_u64_str("12a"), None);
    assert_eq!(parse_u64_str("-1"), None);
    assert_eq!(parse_u64_str("18446744073709551615"), Some(u64::MAX));
    assert_eq!(parse_u64_str("18446744073709551616"), None);
    for s in ["0", "42", "+900", "007", "x", " 1"] {
        assert_eq!(parse_u64_str(s), s.parse::<u64>().ok());
    }
}

#[test]
fn author_and_user_colors() {
    assert_eq!(get_author_color(Some(0x112233), "5"), Color::Rgb(0x11, 0x22, 0x33));
    assert_eq!(get_author_color(None, "12"), Color::Green);
    assert_eq!(get_author_color(None, "abc"), Color::Red);
    assert_eq!(get_user_color(None, 3), Color::Magenta);
    assert_eq!(get_user_color(Some(0xFF0000), 3), Color::Rgb(255, 0, 0));
}

#[test]
fn sanitize_strips_until_no_marker_is_left() {
    assert_eq!(sanitize_channel_name("#-#general"), "general");
    assert_eq!(sanitize_channel_name("-#- @!general  "), "general");
    for name in ["#-#general", "##general", " - general", "@user", "^x", "plain", ""] {
        let once = sanitize_channel_name(name);
        assert_eq!(sanitize_channel_name(&once), once);
    }
}

#[test]
fn split_command_without_quotes_is_whitespace_split() {
    let line = "  code   --wait\t-n  file.txt ";
    let expected: Vec<String> = line.split_whitespace().map(String::from).collect();
    assert_eq!(split_command(line), expected);
}

#[test]
fn test_parse_color() {
    assert_eq!(parse_color("Red"), Color::Red);
    assert_eq!(parse_color("blue"), Color::Blue);
    assert_eq!(parse_color("#FF0000"), Color::Rgb(255, 0, 0));
    assert_eq!(parse_color("#0f0"), Color::Rgb(0, 255, 0));
    assert_eq!(parse_color("Orange"), Color::Indexed(208));
    assert_eq!(parse_color("Invalid"), Color::Yellow);
}

#[test]
fn parse_color_takes_the_terminal_names() {
    assert_eq!(parse_color("bright white"), Color::White);
    assert_eq!(parse_color("light-red"), Color::LightRed);
    assert_eq!(parse_color("grey"), Color::Gray);
    assert_eq!(parse_color("42"), Color::Indexed(42));
    assert_eq!(parse_color("Reset"), Color::Reset);
}

#[test]
fn resolve_color_prefers_the_terminal_reading() {
    assert_eq!(resolve_color(Some(Color::Cyan), "orange"), Color::Cyan);
    assert_eq!(resolve_color(None, "orange"), Color::Indexed(208));
    assert_eq!(resolve_color(None, "#00ff00"), Color::Rgb(0, 255, 0));
}
