use tilepad_plugin_sdk::{EventPredicate, ServerPluginMessage, Subscriber, Subscriptions, Uid,
    Value};
use tokio::sync::oneshot;
use tokio::sync::oneshot::error::TryRecvError;

fn chars(s: &str) -> Vec<char> {
    s.chars().collect()
}

fn uid(s: &str) -> Uid {
    Uid::parse(chars(s)).expect("well-formed id")
}

const TILE_A: &str = "aaaaaaaa-0000-0000-0000-000000000001";
const TILE_B: &str = "bbbbbbbb-0000-0000-0000-000000000002";

fn properties_event(n: i64) -> ServerPluginMessage {
    ServerPluginMessage::Properties { properties: Value::Num(n) }
}

fn tile_properties_event(id: &str, n: i64) -> ServerPluginMessage {
    ServerPluginMessage::TileProperties { tile_id: uid(id), properties: Value::Num(n) }
}

#[test]
fn earliest_matching_waiter_wins() {
    let mut registry = Subscriptions::new();
    let (tx1, mut rx1) = oneshot::channel();
    let (tx2, mut rx2) = oneshot::channel();
    registry.add(Subscriber::new(EventPredicate::IsProperties, tx1));
    registry.add(Subscriber::new(EventPredicate::IsProperties, tx2));
    assert_eq!(registry.pending(), 2);

    let consumed = registry.apply(properties_event(1));
    assert!(consumed.is_none());
    assert_eq!(registry.pending(), 1);

    // only the earliest-registered waiter was fulfilled
    match rx1.try_recv().expect("first waiter fulfilled") {
        ServerPluginMessage::Properties { properties } => assert_eq!(properties, Value::Num(1)),
        other => panic!("wrong event: {other:?}"),
    }
    assert!(matches!(rx2.try_recv(), Err(TryRecvError::Empty)));
}

#[test]
fn unmatched_event_is_handed_back() {
    let mut registry = Subscriptions::new();
    let (tx, mut rx) = oneshot::channel();
    registry.add(Subscriber::new(EventPredicate::IsTileProperties(uid(TILE_A)), tx));

    let event = properties_event(9);
    let back = registry.apply(event);
    assert_eq!(back, Some(properties_event(9)));
    assert_eq!(registry.pending(), 1);
    assert!(matches!(rx.try_recv(), Err(TryRecvError::Empty)));
}

#[test]
fn overlapping_tile_waiters_resolve_by_tile() {
    // two pending calls for tiles A and B; replies arrive B first, then
    // A; each resolves to the matching tile's properties.
    let mut registry = Subscriptions::new();
    let (tx_a, mut rx_a) = oneshot::channel();
    let (tx_b, mut rx_b) = oneshot::channel();
    registry.add(Subscriber::new(EventPredicate::IsTileProperties(uid(TILE_A)), tx_a));
    registry.add(Subscriber::new(EventPredicate::IsTileProperties(uid(TILE_B)), tx_b));

    assert!(registry.apply(tile_properties_event(TILE_B, 22)).is_none());
    assert!(registry.apply(tile_properties_event(TILE_A, 11)).is_none());
    assert_eq!(registry.pending(), 0);

    match rx_a.try_recv().expect("waiter for tile A fulfilled") {
        ServerPluginMessage::TileProperties { tile_id, properties } => {
            assert_eq!(tile_id, uid(TILE_A));
            assert_eq!(properties, Value::Num(11));
        },
        other => panic!("wrong event: {other:?}"),
    }
    match rx_b.try_recv().expect("waiter for tile B fulfilled") {
        ServerPluginMessage::TileProperties { tile_id, properties } => {
            assert_eq!(tile_id, uid(TILE_B));
            assert_eq!(properties, Value::Num(22));
        },
        other => panic!("wrong event: {other:?}"),
    }
}

#[test]
fn teardown_fulfills_no_waiter_and_is_idempotent() {
    let mut registry = Subscriptions::new();
    let (tx1, mut rx1) = oneshot::channel();
    let (tx2, mut rx2) = oneshot::channel();
    registry.add(Subscriber::new(EventPredicate::IsProperties, tx1));
    registry.add(Subscriber::new(EventPredicate::IsTileProperties(uid(TILE_A)), tx2));

    registry.clear();
    assert_eq!(registry.pending(), 0);
    // the pending calls observe the session-closed outcome, never a value
    assert!(matches!(rx1.try_recv(), Err(TryRecvError::Closed)));
    assert!(matches!(rx2.try_recv(), Err(TryRecvError::Closed)));

    // tearing down again is harmless
    registry.clear();
    assert_eq!(registry.pending(), 0);

    // and later offers fulfill nothing
    assert_eq!(registry.apply(properties_event(5)), Some(properties_event(5)));
}

#[test]
fn remove_is_idempotent() {
    let mut registry = Subscriptions::new();
    let (tx1, _rx1) = oneshot::channel();
    let (tx2, mut rx2) = oneshot::channel();
    let id1 = registry.add(Subscriber::new(EventPredicate::IsProperties, tx1));
    let _id2 = registry.add(Subscriber::new(EventPredicate::IsProperties, tx2));
    assert_eq!(registry.pending(), 2);

    registry.remove(id1);
    assert_eq!(registry.pending(), 1);
    registry.remove(id1);
    assert_eq!(registry.pending(), 1);

    // the surviving waiter still works
    assert!(registry.apply(properties_event(3)).is_none());
    assert!(rx2.try_recv().is_ok());
}

#[test]
fn fresh_registry_accepts_waiters() {
    let mut registry = Subscriptions::new();
    assert!(registry.can_register());
    let (tx, _rx) = oneshot::channel();
    registry.add(Subscriber::new(EventPredicate::IsProperties, tx));
    assert!(registry.can_register());
}
