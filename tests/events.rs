use rcon_cli::{Emit, EventDump, ItemKind, Severity};

#[test]
fn diagnostic_shown_when_asked() {
    let mut d = EventDump::new(true);
    let e = d.on_item(ItemKind::Diagnostic, 10);
    assert_eq!(e, Some(Emit { stamp: 10, severity: Severity::Info }));
}

#[test]
fn diagnostic_dropped_before_stamping() {
    let mut d = EventDump::new(false);
    assert_eq!(d.on_item(ItemKind::Diagnostic, 10), None);
    assert_eq!(d.last_stamp, None);
    assert_eq!(d.on_item_now(ItemKind::Diagnostic), None);
    assert_eq!(d.last_stamp, None);
}

#[test]
fn other_items_always_pass() {
    let mut d = EventDump::new(false);
    assert_eq!(d.on_item(ItemKind::Event, 1).map(|e| e.severity), Some(Severity::Info));
    assert_eq!(d.on_item(ItemKind::Unrecognized, 2).map(|e| e.severity), Some(Severity::Debug));
    assert_eq!(d.on_item(ItemKind::Failure, 3).map(|e| e.severity), Some(Severity::Error));
}

#[test]
fn stamps_never_go_back() {
    let mut d = EventDump::new(false);
    assert_eq!(d.on_item(ItemKind::Event, 100).unwrap().stamp, 100);
    assert_eq!(d.on_item(ItemKind::Event, 90).unwrap().stamp, 100);
    assert_eq!(d.on_item(ItemKind::Failure, 100).unwrap().stamp, 100);
    assert_eq!(d.on_item(ItemKind::Event, 120).unwrap().stamp, 120);
    assert_eq!(d.last_stamp, Some(120));
}

#[test]
fn stamps_from_clock_are_current_and_ordered() {
    let mut d = EventDump::new(true);
    let a = d.on_item_now(ItemKind::Event).unwrap().stamp;
    let b = d.on_item_now(ItemKind::Diagnostic).unwrap().stamp;
    assert!(a > 1_600_000_000_000_000);
    assert!(a <= b);
}

#[test]
fn accepts_follows_the_flag() {
    assert!(!EventDump::new(false).accepts(ItemKind::Diagnostic));
    assert!(EventDump::new(true).accepts(ItemKind::Diagnostic));
    assert!(EventDump::new(false).accepts(ItemKind::Unrecognized));
}
