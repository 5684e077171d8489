//! What the window shows and sends, decided from the events it receives and the
//! buttons pressed.
use vstd::prelude::*;

use crate::i18n::I18n;
use crate::nfc::{Command, NfcEvent};

verus! {

/// How the status line is colored.
#[derive(Debug, Clone, Copy, PartialEq, Eq)]
pub enum StatusKind {
    Waiting,
    Detected,
    Error,
}

/// The status line: its kind and its text.
pub struct UiStatus {
    pub kind: StatusKind,
    pub text: String,
}

/// The translation of `key` in a dictionary, or the key itself.
pub open spec fn translated(m: Map<Seq<char>, Seq<char>>, key: Seq<char>) -> Seq<char> {
    if m.contains_key(key) {
        m[key]
    } else {
        key
    }
}

/// The status line before any event: waiting for a card.
pub fn initial_status(i18n: &I18n) -> (s: UiStatus)
    ensures
        s.kind == StatusKind::Waiting,
        s.text@ == translated(i18n@, "waiting_card"@),
{
    UiStatus { kind: StatusKind::Waiting, text: i18n.t("waiting_card") }
}

/// The status line after an event from the reader; a reader list leaves it as it is.
pub fn status_for_event(i18n: &I18n, event: &NfcEvent) -> (s: Option<UiStatus>)
    ensures
        match event {
            NfcEvent::Readers(_) => s is None,
            NfcEvent::CardPresent => s matches Some(st) && st.kind == StatusKind::Detected
                && st.text@ == translated(i18n@, "card_detected"@),
            NfcEvent::CardRemoved => s matches Some(st) && st.kind == StatusKind::Waiting
                && st.text@ == translated(i18n@, "waiting_card"@),
            NfcEvent::Text(text) => s matches Some(st) && st.kind == StatusKind::Detected
                && st.text@ == translated(i18n@, "read_text"@) + ": "@ + text@,
            NfcEvent::Error(msg) => s matches Some(st) && st.kind == StatusKind::Error
                && st.text@ == translated(i18n@, "error"@) + ": "@ + msg@,
        },
{
    match event {
        NfcEvent::Readers(_) => None,
        NfcEvent::CardPresent => Some(
            UiStatus { kind: StatusKind::Detected, text: i18n.t("card_detected") },
        ),
        NfcEvent::CardRemoved => Some(
            UiStatus { kind: StatusKind::Waiting, text: i18n.t("waiting_card") },
        ),
        NfcEvent::Text(text) => {
            let mut line = i18n.t("read_text");
            line.append(": ");
            line.append(text.as_str());
            Some(UiStatus { kind: StatusKind::Detected, text: line })
        },
        NfcEvent::Error(msg) => {
            let mut line = i18n.t("error");
            line.append(": ");
            line.append(msg.as_str());
            Some(UiStatus { kind: StatusKind::Error, text: line })
        },
    }
}

/// The pause/resume button: polling flips, and the reader thread is told. Resuming
/// selects the chosen reader again (or just resumes when none is chosen); pausing
/// stops polling.
pub fn toggle_polling(enabled: bool, selected_reader: &Option<String>) -> (r: (bool, Command))
    ensures
        r.0 == !enabled,
        match r.1 {
            Command::SetReader(name) => !enabled && (selected_reader matches Some(sel) && name@
                == sel@),
            Command::Resume => !enabled && selected_reader is None,
            Command::Pause => enabled,
            Command::SetCooldown(_) => false,
            Command::Shutdown => false,
        },
{
    if enabled {
        (false, Command::Pause)
    } else {
        match selected_reader {
            Some(reader) => (true, Command::SetReader(reader.clone())),
            None => (true, Command::Resume),
        }
    }
}

} // verus!
