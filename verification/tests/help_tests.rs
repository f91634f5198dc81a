use oxicord_ui::commands::CommandRegistry;
use oxicord_ui::help::{help_key_label, help_key_labels};
use oxicord_ui::keys::{Action, KeyCode, KeyEvent, KeyModifiers, MOD_ALT, MOD_CONTROL, MOD_SHIFT};

fn label(code: KeyCode, bits: u8) -> (String, Option<String>) {
    let l = help_key_label(&KeyEvent::new(code, KeyModifiers::from_bits(bits)));
    (l.prefix, l.name)
}

#[test]
fn help_labels_spell_out_modifiers() {
    assert_eq!(label(KeyCode::Char('x'), MOD_CONTROL | MOD_ALT), ("Ctrl+Alt+".to_string(), Some("x".to_string())));
    assert_eq!(label(KeyCode::Tab, MOD_SHIFT), ("Shift+".to_string(), Some("Tab".to_string())));
    assert_eq!(label(KeyCode::Char('A'), MOD_SHIFT), (String::new(), Some("A".to_string())));
    assert_eq!(label(KeyCode::Char('?'), MOD_SHIFT), ("Shift+".to_string(), Some("?".to_string())));
}

#[test]
fn help_labels_name_keys() {
    assert_eq!(label(KeyCode::BackTab, 0).1.as_deref(), Some("Tab"));
    assert_eq!(label(KeyCode::F(5), 0).1.as_deref(), Some("F5"));
    assert_eq!(label(KeyCode::Backspace, 0).1.as_deref(), Some("Backspace"));
    assert_eq!(label(KeyCode::Home, 0).1, None);
    assert_eq!(label(KeyCode::Delete, MOD_CONTROL), ("Ctrl+".to_string(), None));
}

#[test]
fn help_labels_from_registry() {
    let registry = CommandRegistry::new();
    let quit = help_key_labels(&registry, Action::Quit).unwrap();
    assert_eq!(quit.len(), 1);
    assert_eq!(quit[0].prefix, "Ctrl+");
    assert_eq!(quit[0].name.as_deref(), Some("c"));
    let help = help_key_labels(&registry, Action::ToggleHelp).unwrap();
    assert_eq!(help.len(), 1);
    assert_eq!(help[0].prefix, "");
    assert_eq!(help[0].name.as_deref(), Some("?"));
    assert!(help_key_labels(&registry, Action::ToggleHiddenFiles).is_none());
}
