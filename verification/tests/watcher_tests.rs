use homepage_backend::watcher::{
    CLEAR_DELAY_TICKS, CertWatcher, EventChannel, ProducerAction, WatchEvent, WatchEventKind,
    WatcherPhase, consumer_step, producer_step,
};

fn ev(kind: WatchEventKind) -> WatchEvent {
    WatchEvent { path: "/vault/secrets/tls.crt".to_string(), kind }
}

#[test]
fn modify_and_create_are_triggers_and_nothing_else_is() {
    assert!(WatchEventKind::Modify.is_trigger());
    assert!(WatchEventKind::Create.is_trigger());
    assert!(!WatchEventKind::Remove.is_trigger());
    assert!(!WatchEventKind::Access.is_trigger());
    assert!(!WatchEventKind::Other.is_trigger());
}

#[test]
fn trigger_event_sets_the_signal_at_once() {
    let mut w = CertWatcher::new();
    w.start(true);
    assert!(!w.signal_pending());
    w.on_event(&ev(WatchEventKind::Modify));
    assert!(w.signal_pending());

    let mut w2 = CertWatcher::new();
    w2.start(true);
    w2.on_event(&ev(WatchEventKind::Create));
    assert!(w2.signal_pending());
}

#[test]
fn other_event_kinds_leave_the_signal_alone() {
    let mut w = CertWatcher::new();
    w.start(true);
    w.on_event(&ev(WatchEventKind::Remove));
    w.on_event(&ev(WatchEventKind::Access));
    w.on_event(&ev(WatchEventKind::Other));
    assert!(!w.signal_pending());
    assert_eq!(w.phase, WatcherPhase::Watching);
}

#[test]
fn signal_clears_exactly_once_after_the_fixed_delay() {
    let mut w = CertWatcher::new();
    w.start(true);
    w.on_event(&ev(WatchEventKind::Modify));
    for _ in 0..CLEAR_DELAY_TICKS - 1 {
        w.on_tick();
        assert!(w.signal_pending());
    }
    w.on_tick();
    assert!(!w.signal_pending());
    assert_eq!(w.phase, WatcherPhase::SignalClearing);
    for _ in 0..10 {
        w.on_tick();
        assert!(!w.signal_pending());
    }
    assert_eq!(w.phase, WatcherPhase::Watching);
}

#[test]
fn rapid_events_coalesce_into_one_clear() {
    let mut w = CertWatcher::new();
    w.start(true);
    w.on_event(&ev(WatchEventKind::Modify));
    w.on_tick();
    w.on_event(&ev(WatchEventKind::Create));
    for _ in 0..CLEAR_DELAY_TICKS - 1 {
        w.on_tick();
        assert!(w.signal_pending(), "countdown restarted by the second event");
    }
    w.on_tick();
    assert!(!w.signal_pending());
}

#[test]
fn disabled_mtls_keeps_the_watcher_idle_and_the_signal_false() {
    let mut w = CertWatcher::new();
    w.start(false);
    assert_eq!(w.phase, WatcherPhase::Idle);
    w.on_event(&ev(WatchEventKind::Modify));
    w.on_tick();
    w.on_event(&ev(WatchEventKind::Create));
    for _ in 0..10 {
        w.on_tick();
    }
    assert!(!w.signal_pending());
    assert_eq!(w.phase, WatcherPhase::Idle);
}

#[test]
fn producer_forwards_triggers_and_ignores_the_rest() {
    let mut chan = EventChannel::new(2);
    assert_eq!(
        producer_step(&mut chan, ev(WatchEventKind::Remove)),
        ProducerAction::Ignored
    );
    assert_eq!(
        producer_step(&mut chan, ev(WatchEventKind::Modify)),
        ProducerAction::Forwarded
    );
    assert_eq!(
        producer_step(&mut chan, ev(WatchEventKind::Create)),
        ProducerAction::Forwarded
    );
    assert_eq!(chan.queue.len(), 2);
}

#[test]
fn full_channel_drops_the_event_instead_of_blocking() {
    let mut chan = EventChannel::new(1);
    assert_eq!(
        producer_step(&mut chan, ev(WatchEventKind::Modify)),
        ProducerAction::Forwarded
    );
    assert_eq!(
        producer_step(&mut chan, ev(WatchEventKind::Modify)),
        ProducerAction::Dropped
    );
    assert_eq!(chan.queue.len(), 1);
}

#[test]
fn receive_is_first_in_first_out() {
    let mut chan = EventChannel::new(4);
    let mut first = ev(WatchEventKind::Modify);
    first.path = "/vault/secrets/tls.crt".to_string();
    let mut second = ev(WatchEventKind::Create);
    second.path = "/vault/secrets/tls.key".to_string();
    chan.try_send(first);
    chan.try_send(second);
    assert_eq!(chan.recv().unwrap().path, "/vault/secrets/tls.crt");
    assert_eq!(chan.recv().unwrap().path, "/vault/secrets/tls.key");
    assert!(chan.recv().is_none());
}

#[test]
fn consumer_step_feeds_the_machine_from_the_channel() {
    let mut w = CertWatcher::new();
    w.start(true);
    let mut chan = EventChannel::new(4);
    assert!(!consumer_step(&mut w, &mut chan));
    producer_step(&mut chan, ev(WatchEventKind::Modify));
    assert!(consumer_step(&mut w, &mut chan));
    assert!(w.signal_pending());
}
