use nfc_wedge::i18n::I18n;

#[test]
fn translate_known_key() {
    let i18n = I18n::new("ru").unwrap();
    assert_eq!(i18n.t("waiting_card"), "Ожидание карты...");
}

#[test]
fn translate_fallback() {
    let i18n = I18n::new("ru").unwrap();
    assert_eq!(i18n.t("unknown_key"), "unknown_key");
}

#[test]
fn every_language_gets_the_russian_dictionary() {
    let i18n = I18n::new("en").unwrap();
    assert_eq!(i18n.t("exit"), "Выход");
    assert_eq!(i18n.t("show"), "Показать");
}

#[test]
fn translate_keys_used_by_the_window() {
    let i18n = I18n::new("ru").unwrap();
    for key in [
        "waiting_card",
        "card_detected",
        "read_text",
        "error",
        "settings",
        "logs",
        "enable_disable",
        "reader",
        "refresh",
        "set_default",
        "cooldown_ms",
        "typing_delay_ms",
        "append_enter",
        "auto_start",
        "disable_polling",
        "enable_polling",
        "status_running",
        "status_stopped",
    ] {
        assert_ne!(i18n.t(key), key, "missing translation for {key}");
    }
}
