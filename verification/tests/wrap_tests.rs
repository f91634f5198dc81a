use oxicord_ui::theme::Color;
use oxicord_ui::wrap::{calculate_embed_layout, checked_embed_layout, str_lines, truncate_string, wrap_text};

fn strings(v: &[&str]) -> Vec<String> {
    v.iter().map(|s| s.to_string()).collect()
}

#[test]
fn truncate_keeps_text_that_fits() {
    assert_eq!(truncate_string("hello", 10), "hello");
    assert_eq!(truncate_string("hello", 5), "hello");
}

#[test]
fn truncate_adds_ellipsis() {
    assert_eq!(truncate_string("hello world", 8), "hello...");
    assert_eq!(truncate_string("abcdef", 3), "...");
}

#[test]
fn truncate_narrow_has_no_ellipsis() {
    assert_eq!(truncate_string("hello", 2), "he");
    assert_eq!(truncate_string("hello", 0), "");
}

#[test]
fn truncate_counts_wide_characters() {
    assert_eq!(truncate_string("日本語テキスト", 7), "日本...");
    assert_eq!(truncate_string("日本語", 3), "...");
    assert_eq!(truncate_string("日本語", 2), "日");
}

#[test]
fn wrap_empty_and_zero_width() {
    assert_eq!(wrap_text("", 10), strings(&[""]));
    assert_eq!(wrap_text("abc def", 0), strings(&["abc def"]));
}

#[test]
fn wrap_at_spaces() {
    assert_eq!(wrap_text("hello world foo", 11), strings(&["hello world", "foo"]));
    assert_eq!(wrap_text("one two three", 7), strings(&["one two", "three"]));
}

#[test]
fn wrap_cuts_long_words() {
    assert_eq!(wrap_text("abcdefghij", 4), strings(&["abcd", "efgh", "ij"]));
    assert_eq!(wrap_text("hi abcdefgh", 4), strings(&["hi", "abcd", "efgh"]));
}

#[test]
fn wrap_keeps_paragraphs_and_blank_lines() {
    assert_eq!(wrap_text("a\n\nb", 5), strings(&["a", "", "b"]));
    assert_eq!(wrap_text("line\r\nnext\n", 10), strings(&["line", "next"]));
}

#[test]
fn wrap_keeps_repeated_spaces() {
    assert_eq!(wrap_text("ab  cd", 10), strings(&["ab  cd"]));
}

#[test]
fn wrap_wide_characters() {
    assert_eq!(wrap_text("日本語", 4), strings(&["日本", "語"]));
}

#[test]
fn lines_split_like_str_lines() {
    let v: Vec<char> = "a\r\nb\rc\n".chars().collect();
    let lines: Vec<String> = str_lines(&v).iter().map(|l| l.iter().collect()).collect();
    assert_eq!(lines, strings(&["a", "b\rc"]));
    let empty: Vec<char> = Vec::new();
    assert!(str_lines(&empty).is_empty());
}

#[test]
fn embed_layout_height_and_color() {
    let l = calculate_embed_layout(true, Some("Title"), Some(3), 20, Some(0xFF8800), Color::Blue);
    assert_eq!(l.title, strings(&["Title"]));
    assert_eq!(l.description_height, 3);
    assert_eq!(l.height, 7);
    assert_eq!(l.color, Color::Rgb(255, 136, 0));
}

#[test]
fn embed_layout_empty() {
    let l = calculate_embed_layout(false, None, None, 20, None, Color::Blue);
    assert!(l.title.is_empty());
    assert_eq!(l.height, 0);
    assert_eq!(l.color, Color::Blue);
}

#[test]
fn embed_layout_wraps_title_inside_borders() {
    let l = calculate_embed_layout(false, Some("abcdef"), None, 5, None, Color::Red);
    assert_eq!(l.title, strings(&["abc", "def"]));
    assert_eq!(l.height, 4);
}

#[test]
fn embed_layout_checked() {
    let l = checked_embed_layout(false, None, Some(70000), 20, None, Color::Blue).unwrap();
    assert_eq!(l.description_height, 0);
    assert_eq!(l.height, 0);
    assert!(checked_embed_layout(true, None, Some(65534), 20, None, Color::Blue).is_none());
    assert!(checked_embed_layout(false, None, Some(65533), 20, None, Color::Blue).is_some());
}
