use wallet_adapter::registry::fingerprint;
use wallet_adapter::{
    EventBus, HostField, HostValue, RecvOutcome, SendOutcome, WalletAccount, WalletError,
    WalletEvent,
};

fn numbered(number: u8) -> WalletEvent {
    WalletEvent::BackgroundTaskError(WalletError::InternalError(number.to_string()))
}

fn account() -> WalletAccount {
    let key = [5u8; 32];
    let item = HostValue::Object(vec![
        HostField { key: "publicKey".to_string(), value: HostValue::Bytes(key.to_vec()), listed: true },
        HostField { key: "address".to_string(), value: HostValue::Text(bs58::encode(key).into_string()), listed: true },
        HostField { key: "chains".to_string(), value: HostValue::Array(vec![]), listed: true },
        HostField { key: "features".to_string(), value: HostValue::Array(vec![]), listed: true },
    ]);
    WalletAccount::parse(&item, "solana:").unwrap()
}

#[test]
fn a_full_bus_makes_the_producer_wait() {
    let mut bus = EventBus::new(2).unwrap();
    assert_eq!(bus.send(numbered(1)), SendOutcome::Sent);
    assert_eq!(bus.send(numbered(2)), SendOutcome::Sent);
    assert!(bus.is_full());
    let third = match bus.send(numbered(3)) {
        SendOutcome::Full(event) => event,
        other => panic!("the third event was not held back: {:?}", other),
    };
    assert_eq!(third, numbered(3));
    assert_eq!(bus.len(), 2);
    assert_eq!(bus.recv(), RecvOutcome::Event(numbered(1)));
    assert_eq!(bus.send(third), SendOutcome::Sent);
    assert_eq!(bus.recv(), RecvOutcome::Event(numbered(2)));
    assert_eq!(bus.recv(), RecvOutcome::Event(numbered(3)));
    assert_eq!(bus.recv(), RecvOutcome::Empty);
}

#[test]
fn events_come_out_in_the_order_sent() {
    let mut bus = EventBus::new(16).unwrap();
    assert_eq!(bus.capacity(), 16);
    assert!(bus.is_empty());
    for number in 0..16 {
        assert_eq!(bus.send(numbered(number)), SendOutcome::Sent);
    }
    assert_eq!(bus.len(), 16);
    for number in 0..16 {
        assert_eq!(bus.recv(), RecvOutcome::Event(numbered(number)));
    }
    assert!(bus.is_empty());
    assert!(!bus.is_full());
}

#[test]
fn an_empty_bus_makes_the_consumer_wait() {
    let mut bus = EventBus::new(1).unwrap();
    assert_eq!(bus.recv(), RecvOutcome::Empty);
    assert_eq!(bus.send(WalletEvent::Disconnected), SendOutcome::Sent);
    assert_eq!(bus.send(WalletEvent::Skip), SendOutcome::Full(WalletEvent::Skip));
    assert_eq!(bus.recv(), RecvOutcome::Event(WalletEvent::Disconnected));
    assert_eq!(bus.recv(), RecvOutcome::Empty);
}

#[test]
fn a_closed_bus_takes_nothing_and_drops_nothing() {
    let mut bus = EventBus::new(2).unwrap();
    assert_eq!(bus.send(numbered(1)), SendOutcome::Sent);
    assert!(!bus.is_closed());
    assert!(bus.close());
    assert!(bus.is_closed());
    assert!(!bus.close());
    assert_eq!(bus.send(numbered(2)), SendOutcome::Closed(numbered(2)));
    assert_eq!(bus.len(), 1);
    assert_eq!(bus.recv(), RecvOutcome::Event(numbered(1)));
    assert_eq!(bus.recv(), RecvOutcome::Closed);
    assert_eq!(bus.recv(), RecvOutcome::Closed);
    assert_eq!(bus.send(numbered(3)), SendOutcome::Closed(numbered(3)));
}

#[test]
fn a_closed_full_bus_says_closed() {
    let mut bus = EventBus::new(1).unwrap();
    assert_eq!(bus.send(numbered(1)), SendOutcome::Sent);
    bus.close();
    assert_eq!(bus.send(numbered(2)), SendOutcome::Closed(numbered(2)));
}

#[test]
fn the_ends_of_a_bus_carry_what_was_on_it() {
    let mut bus = EventBus::new(3).unwrap();
    assert_eq!(bus.send(numbered(1)), SendOutcome::Sent);
    assert_eq!(bus.send(numbered(2)), SendOutcome::Sent);
    let (sender, receiver) = bus.into_parts();
    assert_eq!(sender.capacity(), Some(3));
    assert_eq!(receiver.len(), 2);
    assert!(!receiver.is_closed());
    assert!(sender.try_send(numbered(3)).is_ok());
    assert!(sender.try_send(numbered(4)).is_err());
    assert_eq!(receiver.try_recv(), Ok(numbered(1)));
    assert_eq!(receiver.try_recv(), Ok(numbered(2)));
    assert_eq!(receiver.try_recv(), Ok(numbered(3)));
    assert!(receiver.try_recv().is_err());
}

#[test]
fn a_bus_needs_room_for_one_event() {
    assert_eq!(
        EventBus::new(0).unwrap_err(),
        WalletError::InternalError("an event bus needs a capacity of at least one".to_string())
    );
}

#[test]
fn events_have_their_text() {
    assert_eq!(WalletEvent::Connected(account()).to_text(), "Connected");
    assert_eq!(WalletEvent::Reconnected(account()).to_text(), "Reconnected");
    assert_eq!(WalletEvent::Disconnected.to_text(), "Disconnected");
    assert_eq!(WalletEvent::AccountChanged(account()).to_text(), "Account Changed");
    assert_eq!(WalletEvent::Skip.to_text(), "Skipped");
    assert_eq!(
        WalletEvent::BackgroundTaskError(WalletError::InvalidSignature).to_text(),
        "Task error: InvalidSignature"
    );
    assert_eq!(
        WalletEvent::BackgroundTaskError(WalletError::InternalError("boom".to_string())).to_text(),
        "Task error: InternalError(\"boom\")"
    );
}

#[test]
fn failed_tasks_are_shown_as_debug_shows_their_error() {
    for error in [
        WalletError::ValueNotFound,
        WalletError::TypeMismatch("string".to_string(), "object".to_string()),
        WalletError::Expected32ByteLength,
        WalletError::Expected64ByteLength,
        WalletError::InvalidEd25519PublicKeyBytes,
        WalletError::InvalidSignature,
        WalletError::InvalidBase58Address,
        WalletError::UnsupportedChain("ethereum:1".to_string()),
        WalletError::InternalError("a \"quoted\" line\nand a tab\t, a \\ and an ü".to_string()),
        WalletError::InternalError(String::new()),
    ] {
        assert_eq!(error.debug_text(), format!("{:?}", error));
        assert_eq!(
            WalletEvent::BackgroundTaskError(error.clone()).to_text(),
            format!("Task error: {:?}", error)
        );
    }
}

#[test]
fn events_keep_their_order_and_their_text() {
    let mut bus = EventBus::new(2).unwrap();
    let failed = WalletEvent::BackgroundTaskError(WalletError::InvalidSignature);
    assert_eq!(bus.send(WalletEvent::Skip), SendOutcome::Sent);
    assert_eq!(bus.send(WalletEvent::Disconnected), SendOutcome::Sent);
    let held = match bus.send(failed.clone()) {
        SendOutcome::Full(event) => event,
        other => panic!("the third event was not held back: {:?}", other),
    };
    let mut texts = Vec::new();
    let mut received = Vec::new();
    let mut held = Some(held);
    loop {
        match bus.recv() {
            RecvOutcome::Event(event) => {
                texts.push(event.to_text());
                received.push(event);
                if let Some(event) = held.take() {
                    assert_eq!(bus.send(event), SendOutcome::Sent);
                }
            }
            RecvOutcome::Empty => break,
            RecvOutcome::Closed => panic!("the bus was not closed"),
        }
    }
    assert_eq!(received, vec![WalletEvent::Skip, WalletEvent::Disconnected, failed]);
    assert_eq!(texts, vec!["Skipped", "Disconnected", "Task error: InvalidSignature"]);
}

#[test]
fn the_default_event_is_skip() {
    assert_eq!(WalletEvent::default(), WalletEvent::Skip);
    assert!(WalletEvent::default().is_skip());
    assert!(!WalletEvent::Disconnected.is_skip());
}

#[test]
fn events_of_other_wallets_become_skip() {
    let selected = fingerprint("alpha");
    let other = fingerprint("beta");
    assert_eq!(
        WalletEvent::Connected(account()).from_source(Some(&selected), &selected),
        WalletEvent::Connected(account())
    );
    assert_eq!(
        WalletEvent::Connected(account()).from_source(Some(&selected), &other),
        WalletEvent::Skip
    );
    assert_eq!(WalletEvent::Disconnected.from_source(None, &selected), WalletEvent::Skip);
}

#[test]
fn copies_of_events_are_equal() {
    for event in [
        WalletEvent::Connected(account()),
        WalletEvent::Reconnected(account()),
        WalletEvent::Disconnected,
        WalletEvent::AccountChanged(account()),
        numbered(4),
        WalletEvent::Skip,
    ] {
        assert_eq!(event.duplicate(), event);
        assert_eq!(event.clone(), event);
    }
    assert_eq!(account().clone(), account());
    assert!(WalletEvent::Disconnected < WalletEvent::Skip);
}
