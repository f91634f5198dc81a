use oxicord_ui::commands::{parse_key_event, CommandRegistry};
use oxicord_ui::keys::{
    exits_app, Action, EventHandler, KeyCode, KeyEvent, KeyEventKind, KeyModifiers, MOD_ALT, MOD_CONTROL, MOD_SHIFT,
};

fn make_key_event(code: KeyCode, modifiers: KeyModifiers) -> KeyEvent {
    KeyEvent::new_with_kind(code, modifiers, KeyEventKind::Press)
}

fn none() -> KeyModifiers {
    KeyModifiers::none()
}

fn shift() -> KeyModifiers {
    KeyModifiers::from_bits(MOD_SHIFT)
}

fn ctrl() -> KeyModifiers {
    KeyModifiers::from_bits(MOD_CONTROL)
}

#[test]
fn test_parse_simple_char() {
    assert_eq!(parse_key_event("a"), Some(KeyEvent::new(KeyCode::Char('a'), none())));
}

#[test]
fn test_parse_uppercase_char() {
    assert_eq!(parse_key_event("A"), Some(KeyEvent::new(KeyCode::Char('A'), shift())));
}

#[test]
fn test_parse_ctrl_char() {
    assert_eq!(parse_key_event("Ctrl+c"), Some(KeyEvent::new(KeyCode::Char('c'), ctrl())));
}

#[test]
fn test_parse_shift_char() {
    assert_eq!(parse_key_event("Shift+a"), Some(KeyEvent::new(KeyCode::Char('A'), shift())));
}

#[test]
fn test_parse_plus_key() {
    assert_eq!(parse_key_event("+"), Some(KeyEvent::new(KeyCode::Char('+'), none())));
}

#[test]
fn test_parse_ctrl_plus() {
    assert_eq!(parse_key_event("Ctrl++"), Some(KeyEvent::new(KeyCode::Char('+'), ctrl())));
}

#[test]
fn test_parse_function_key() {
    assert_eq!(parse_key_event("F1"), Some(KeyEvent::new(KeyCode::F(1), none())));
}

#[test]
fn parse_named_keys_and_modifier_combinations() {
    assert_eq!(parse_key_event("Enter"), Some(KeyEvent::new(KeyCode::Enter, none())));
    assert_eq!(parse_key_event("Esc"), Some(KeyEvent::new(KeyCode::Esc, none())));
    assert_eq!(
        parse_key_event("Ctrl+Alt+x"),
        Some(KeyEvent::new(KeyCode::Char('x'), KeyModifiers::from_bits(MOD_CONTROL | MOD_ALT)))
    );
    assert_eq!(parse_key_event("F12"), Some(KeyEvent::new(KeyCode::F(12), none())));
}

#[test]
fn parse_rejects_unknown_keys() {
    assert_eq!(parse_key_event("Nope"), None);
    assert_eq!(parse_key_event(""), None);
}

#[test]
fn test_quit_events() {
    assert!(EventHandler::is_quit_event(&make_key_event(KeyCode::Char('q'), none())));
    assert!(EventHandler::is_quit_event(&make_key_event(KeyCode::Char('c'), ctrl())));
    assert!(EventHandler::is_quit_event(&make_key_event(KeyCode::Esc, none())));
}

#[test]
fn test_non_quit_events() {
    assert!(!EventHandler::is_quit_event(&make_key_event(KeyCode::Char('a'), none())));
    assert!(!EventHandler::is_quit_event(&make_key_event(KeyCode::Enter, none())));
}

#[test]
fn test_submit_event() {
    assert!(EventHandler::is_submit_event(&make_key_event(KeyCode::Enter, none())));
    assert!(!EventHandler::is_submit_event(&make_key_event(KeyCode::Char('a'), none())));
}

#[test]
fn event_handler_timeouts() {
    assert_eq!(EventHandler::new().poll_timeout_ms(), 100);
    assert_eq!(EventHandler::new().poll_timeout(), std::time::Duration::from_millis(100));
    assert_eq!(EventHandler::default().poll_timeout_ms(), 100);
    let h = EventHandler::with_timeout(std::time::Duration::from_millis(250));
    assert_eq!(h.poll_timeout_ms(), 250);
    assert_eq!(h.poll_timeout(), std::time::Duration::from_millis(250));
}

#[test]
fn key_equality_normalizes_shift_and_case() {
    assert_eq!(KeyEvent::new(KeyCode::Char('a'), shift()), KeyEvent::new(KeyCode::Char('A'), shift()));
    assert_eq!(KeyEvent::new(KeyCode::Char('A'), none()), KeyEvent::new(KeyCode::Char('A'), shift()));
    assert_ne!(KeyEvent::new(KeyCode::Char('a'), none()), KeyEvent::new(KeyCode::Char('A'), none()));
}

#[test]
fn registry_finds_default_bindings() {
    let registry = CommandRegistry::default();
    assert_eq!(registry.find_action(KeyEvent::new(KeyCode::Char('j'), none())), Some(Action::NavigateDown));
    assert_eq!(registry.find_action(KeyEvent::new(KeyCode::Char('k'), none())), Some(Action::NavigateUp));
    assert_eq!(registry.find_action(KeyEvent::new(KeyCode::F(9), none())), None);
}

#[test]
fn registry_override_replaces_binding() {
    let mut registry = CommandRegistry::default();
    registry.apply_overrides(&vec![("Ctrl+j".to_string(), Action::NavigateDown)]);
    assert_eq!(registry.find_action(KeyEvent::new(KeyCode::Char('j'), ctrl())), Some(Action::NavigateDown));
    registry.apply_overrides(&vec![("Ctrl+j".to_string(), Action::NavigateUp)]);
    assert_eq!(registry.find_action(KeyEvent::new(KeyCode::Char('j'), ctrl())), Some(Action::NavigateUp));
}

#[test]
fn keys_that_leave_the_app() {
    let ctrl_c = KeyEvent::new(KeyCode::Char('c'), KeyModifiers::from_bits(MOD_CONTROL));
    let esc = KeyEvent::new(KeyCode::Esc, KeyModifiers::from_bits(MOD_SHIFT));
    let c = KeyEvent::new(KeyCode::Char('c'), KeyModifiers::none());
    assert!(exits_app(false, &ctrl_c));
    assert!(exits_app(true, &ctrl_c));
    assert!(exits_app(true, &esc));
    assert!(!exits_app(false, &esc));
    assert!(!exits_app(true, &c));
}
