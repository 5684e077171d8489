use nfc_wedge::log_buffer::{append_field, LogBuffer, LogBufferLayer, LogEntry, MAX_LOGS};
use nfc_wedge::nfc::pcsc::list_readers;
use nfc_wedge::nfc::tag::TagError;
use nfc_wedge::nfc::{
    accept_card, after_connect_error, after_read, readers_event, tag_error_message, Command,
    ConnectStep, NfcEvent, Poller, ReadStep,
};
use nfc_wedge::single_shot::CooldownGuard;
use std::time::Duration;

#[test]
fn repaint_for_all_but_reader_lists() {
    assert!(!NfcEvent::Readers(vec![]).needs_repaint());
    assert!(NfcEvent::CardPresent.needs_repaint());
    assert!(NfcEvent::CardRemoved.needs_repaint());
    assert!(NfcEvent::Text("x".into()).needs_repaint());
    assert!(NfcEvent::Error("x".into()).needs_repaint());
}

#[test]
fn poller_announces_and_reads_once_per_card() {
    let mut p = Poller::new();
    assert!(p.selected_reader().is_none());
    assert!(p.apply_command(&mut CooldownGuard::from_millis(0), Command::SetReader("R1".into())));
    assert_eq!(p.selected_reader().as_deref(), Some("R1"));
    let s = p.on_card_present();
    assert!(s.announce && s.read);
    let s = p.on_card_present();
    assert!(!s.announce && !s.read);
    assert!(p.removal_suspected());
    assert!(matches!(p.on_card_removed(), NfcEvent::CardRemoved));
    assert!(!p.removal_suspected());
    let s = p.on_card_present();
    assert!(s.announce && s.read);
}

#[test]
fn poller_commands() {
    let mut p = Poller::new();
    assert!(p.apply_command(&mut CooldownGuard::from_millis(0), Command::SetReader("R".into())));
    assert!(p.apply_command(&mut CooldownGuard::from_millis(0), Command::Resume));
    assert_eq!(p.selected_reader().as_deref(), Some("R"));
    assert!(p.apply_command(&mut CooldownGuard::from_millis(0), Command::Pause));
    assert!(p.selected_reader().is_none());
    assert!(!p.apply_command(&mut CooldownGuard::from_millis(0), Command::Shutdown));
}

#[test]
fn poll_error_reports_reader_and_drops_it() {
    let mut p = Poller::new();
    p.apply_command(&mut CooldownGuard::from_millis(0), Command::SetReader("ACR".into()));
    match p.on_poll_error("unplugged") {
        NfcEvent::Error(m) => assert_eq!(m, "ACR: unplugged"),
        _ => panic!("expected an error event"),
    }
    assert!(p.selected_reader().is_none());
}

#[test]
fn readers_enumerated_every_twentieth_tick() {
    let mut p = Poller::new();
    let mut when = vec![];
    for i in 1..=45 {
        if p.tick() {
            when.push(i);
        }
    }
    assert_eq!(when, vec![20, 40]);
}

#[test]
fn readers_event_only_when_some() {
    assert!(readers_event(vec![]).is_none());
    match readers_event(vec!["a".into()]) {
        Some(NfcEvent::Readers(l)) => assert_eq!(l, vec!["a".to_string()]),
        _ => panic!("expected readers"),
    }
}

#[test]
fn connect_retries() {
    assert!(matches!(after_connect_error(1, true, "x"), ConnectStep::Retry));
    assert!(matches!(after_connect_error(4, true, "x"), ConnectStep::Retry));
    match after_connect_error(5, true, "x") {
        ConnectStep::Fail(e) => assert_eq!(e, "card not ready after retries"),
        _ => panic!(),
    }
    match after_connect_error(1, false, "sharing violation") {
        ConnectStep::Fail(e) => assert_eq!(e, "connect error: sharing violation"),
        _ => panic!(),
    }
}

#[test]
fn accept_card_uses_guard() {
    let mut g = CooldownGuard::new(Duration::from_secs(60));
    assert!(accept_card(&mut g, &[]));
    assert!(accept_card(&mut g, &[]));
    assert!(accept_card(&mut g, &[1, 2]));
    assert!(!accept_card(&mut g, &[1, 2]));
}

#[test]
fn read_results() {
    match after_read(1, Ok(b"hi\0".to_vec())) {
        ReadStep::Report(NfcEvent::Text(t)) => assert_eq!(t, "hi"),
        _ => panic!("expected text"),
    }
    assert!(matches!(after_read(2, Err("bad".into())), ReadStep::Retry));
    assert!(matches!(after_read(4, Err("bad".into())), ReadStep::Retry));
    match after_read(5, Err("bad".into())) {
        ReadStep::Report(NfcEvent::Error(m)) => assert_eq!(m, "bad"),
        _ => panic!("expected error"),
    }
}

#[test]
fn command_batches_stop_at_shutdown() {
    let mut p = Poller::new();
    assert!(p.apply_commands(&mut CooldownGuard::from_millis(0), vec![Command::SetReader("A".into()), Command::Pause, Command::Resume]));
    assert!(p.selected_reader().is_none());
    let mut p = Poller::new();
    assert!(!p.apply_commands(&mut CooldownGuard::from_millis(0), vec![
        Command::SetReader("A".into()),
        Command::Shutdown,
        Command::SetReader("B".into()),
    ]));
    assert_eq!(p.selected_reader().as_deref(), Some("A"));
    assert!(Poller::new().apply_commands(&mut CooldownGuard::from_millis(0), vec![]));
}

#[test]
fn tag_error_messages() {
    assert_eq!(tag_error_message(TagError::NoData), "no data retrieved from Type 2 tag");
    assert_eq!(tag_error_message(TagError::Tlv("TLV too short")), "TLV parse failed: TLV too short");
}

#[test]
fn reader_names() {
    let names = list_readers(&[b"ACS ACR1552U 00 00".to_vec(), vec![0xFF, 0xFE]]);
    assert_eq!(names, vec!["ACS ACR1552U 00 00".to_string(), "???".to_string()]);
}

fn entry(i: usize) -> LogEntry {
    LogEntry { timestamp: "00:00:00".into(), level: "INFO".into(), message: i.to_string() }
}

#[test]
fn log_buffer_keeps_newest_entries() {
    let mut b = LogBuffer::new();
    assert!(b.get_all().is_empty());
    for i in 0..(MAX_LOGS + 3) {
        b.push(entry(i));
    }
    let all = b.get_all();
    assert_eq!(all.len(), MAX_LOGS);
    assert_eq!(all[0].message, "3");
    assert_eq!(all[MAX_LOGS - 1].message, (MAX_LOGS + 2).to_string());
}

#[test]
fn log_layer_records() {
    let mut layer = LogBufferLayer::new(LogBuffer::new());
    layer.record("12:00:00".into(), "WARN".into(), "careful".into());
    let all = layer.buffer().get_all();
    assert_eq!(all.len(), 1);
    assert_eq!(all[0].level, "WARN");
    assert_eq!(all[0].message, "careful");
}

#[test]
fn log_fields_are_joined() {
    let mut m = String::new();
    append_field(&mut m, "message", "card read");
    assert_eq!(m, "card read");
    append_field(&mut m, "bytes", "16");
    assert_eq!(m, "card read bytes=16");
}

#[test]
fn set_reader_reads_the_same_card_again() {
    let mut p = Poller::new();
    p.apply_command(&mut CooldownGuard::from_millis(0), Command::SetReader("R".into()));
    assert!(p.on_card_present().read);
    p.apply_command(&mut CooldownGuard::from_millis(0), Command::SetReader("R".into()));
    let s = p.on_card_present();
    assert!(s.announce && s.read);
}

#[test]
fn set_cooldown_command_reaches_the_guard() {
    let mut p = Poller::new();
    let mut g = CooldownGuard::from_millis(10_000);
    assert!(g.should_process_at(b"a", 0));
    assert!(!g.should_process_at(b"a", 1_000_000));
    assert!(p.apply_command(&mut g, Command::SetCooldown(1)));
    assert!(p.selected_reader().is_none());
    assert!(g.should_process_at(b"a", 1_000_000));
    assert!(!g.should_process_at(b"a", 1_500_000));
}

#[test]
fn set_cooldown_after_shutdown_is_not_applied() {
    let mut p = Poller::new();
    let mut g = CooldownGuard::from_millis(10_000);
    assert!(g.should_process_at(b"a", 0));
    assert!(!p.apply_commands(&mut g, vec![Command::Shutdown, Command::SetCooldown(0)]));
    assert!(!g.should_process_at(b"a", 1_000_000));
    let mut g = CooldownGuard::from_millis(10_000);
    assert!(g.should_process_at(b"a", 0));
    assert!(p.apply_commands(&mut g, vec![Command::SetCooldown(0), Command::Resume]));
    assert!(g.should_process_at(b"a", 1));
}
