use nfc_wedge::auto_start;
use nfc_wedge::config::{default_cooldown_ms, Config};
use nfc_wedge::i18n::I18n;
use nfc_wedge::nfc::{Command, NfcEvent};
use nfc_wedge::ui::{initial_status, status_for_event, toggle_polling, StatusKind};
use nfc_wedge::wedge::{typing_plan, KeyAction};

#[test]
fn config_defaults() {
    let c = Config::default();
    assert_eq!(c.default_reader, None);
    assert!(c.append_enter);
    assert_eq!(c.language, "ru");
    assert_eq!(c.cooldown_ms, 2000);
    assert_eq!(default_cooldown_ms(), 2000);
    assert_eq!(c.typing_delay_ms, 0);
}

#[test]
fn auto_start_is_a_no_op_here() {
    assert_eq!(auto_start::is_enabled().unwrap(), false);
    assert!(auto_start::enable().is_ok());
    assert!(auto_start::disable().is_ok());
}

#[test]
fn status_line_follows_events() {
    let i18n = I18n::new("ru").unwrap();
    let s = initial_status(&i18n);
    assert_eq!(s.kind, StatusKind::Waiting);
    assert_eq!(s.text, "Ожидание карты...");
    assert!(status_for_event(&i18n, &NfcEvent::Readers(vec![])).is_none());
    let s = status_for_event(&i18n, &NfcEvent::CardPresent).unwrap();
    assert_eq!((s.kind, s.text.as_str()), (StatusKind::Detected, "Карта обнаружена"));
    let s = status_for_event(&i18n, &NfcEvent::Text("abc".into())).unwrap();
    assert_eq!((s.kind, s.text.as_str()), (StatusKind::Detected, "Прочитано: abc"));
    let s = status_for_event(&i18n, &NfcEvent::Error("boom".into())).unwrap();
    assert_eq!((s.kind, s.text.as_str()), (StatusKind::Error, "Ошибка: boom"));
    let s = status_for_event(&i18n, &NfcEvent::CardRemoved).unwrap();
    assert_eq!(s.kind, StatusKind::Waiting);
}

#[test]
fn toggling_polling() {
    let (on, cmd) = toggle_polling(true, &Some("R".into()));
    assert!(!on && matches!(cmd, Command::Pause));
    let (on, cmd) = toggle_polling(false, &Some("R".into()));
    assert!(on && matches!(cmd, Command::SetReader(ref r) if r == "R"));
    let (on, cmd) = toggle_polling(false, &None);
    assert!(on && matches!(cmd, Command::Resume));
}

#[test]
fn typing_whole_text_without_delay() {
    let plan = typing_plan("ab", 0, true);
    assert_eq!(plan.len(), 3);
    assert!(matches!(plan[0], KeyAction::Pause(50)));
    assert!(matches!(plan[1], KeyAction::TypeText(ref t) if t == "ab"));
    assert!(matches!(plan[2], KeyAction::PressEnter));
}

#[test]
fn typing_char_by_char_with_delay() {
    let plan = typing_plan("жb", 10, false);
    assert_eq!(plan.len(), 5);
    assert!(matches!(plan[1], KeyAction::TypeChar('ж')));
    assert!(matches!(plan[2], KeyAction::Pause(10)));
    assert!(matches!(plan[3], KeyAction::TypeChar('b')));
    assert!(matches!(plan[4], KeyAction::Pause(10)));
}
