use tur::downloads::events::EventKind;
use tur::downloads::events::EventOrder;
use tur::downloads::events::Phase;

#[test]
fn queued_comes_before_progress() {
    let mut order = EventOrder::new();
    assert_eq!(order.phase, Phase::Silent);
    assert!(!order.pass(EventKind::Progress));
    assert!(!order.pass(EventKind::Complete));
    assert_eq!(order.phase, Phase::Silent);
    assert!(order.pass(EventKind::Queued));
    assert_eq!(order.phase, Phase::Announced);
    assert!(order.pass(EventKind::Progress));
    assert!(order.pass(EventKind::Progress));
    assert_eq!(order.phase, Phase::Announced);
}

#[test]
fn complete_is_the_last_event() {
    let mut order = EventOrder::new();
    assert!(order.pass(EventKind::Queued));
    assert!(order.pass(EventKind::Progress));
    assert!(order.pass(EventKind::Complete));
    assert_eq!(order.phase, Phase::Closed);
    for kind in [
        EventKind::Queued,
        EventKind::Progress,
        EventKind::Complete,
        EventKind::Paused,
        EventKind::Cancelled,
    ] {
        assert!(!order.pass(kind));
        assert_eq!(order.phase, Phase::Closed);
    }
}

#[test]
fn pause_and_resume() {
    let mut order = EventOrder::new();
    assert!(order.pass(EventKind::Paused));
    assert!(order.pass(EventKind::Cancelled));
    assert_eq!(order.phase, Phase::Silent);
    assert!(order.pass(EventKind::Queued));
    assert!(order.pass(EventKind::Progress));
    assert!(order.pass(EventKind::Paused));
    assert!(order.pass(EventKind::Queued));
    assert!(order.pass(EventKind::Progress));
    assert!(order.pass(EventKind::Complete));
    assert!(!order.pass(EventKind::Paused));
}
