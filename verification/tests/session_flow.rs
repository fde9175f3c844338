use tilepad_plugin_sdk::dispatch::{dispatch_end, dispatch_frame, DispatchOutcome};
use tilepad_plugin_sdk::pump::{Frame, Pump, PumpAction, PumpInput, PumpStatus, TransportError};
use tilepad_plugin_sdk::session::{extract_properties, extract_tile_properties};
use tilepad_plugin_sdk::{ClientPluginMessage, EventPredicate, PluginSessionHandle,
    ServerPluginMessage, SessionError, Subscriber, Subscriptions, Uid, Value};
use tokio::sync::{mpsc, oneshot};
use tokio::sync::oneshot::error::TryRecvError;

fn chars(s: &str) -> Vec<char> {
    s.chars().collect()
}

fn uid(s: &str) -> Uid {
    Uid::parse(chars(s)).expect("well-formed id")
}

const TILE_A: &str = "aaaaaaaa-0000-0000-0000-000000000001";
const TILE_B: &str = "bbbbbbbb-0000-0000-0000-000000000002";

#[test]
fn send_reaches_queue_in_order_across_clones() {
    let (tx, mut rx) = mpsc::unbounded_channel();
    let handle = PluginSessionHandle::new(tx);
    let other = handle.clone();

    handle.open_url("https://one.example".to_string()).expect("queued");
    other.open_url("https://two.example".to_string()).expect("queued");
    handle.request_properties().expect("queued");

    assert_eq!(rx.try_recv().unwrap(), r#"{"type":"OpenUrl","url":"https://one.example"}"#);
    assert_eq!(rx.try_recv().unwrap(), r#"{"type":"OpenUrl","url":"https://two.example"}"#);
    assert_eq!(rx.try_recv().unwrap(), r#"{"type":"GetProperties"}"#);
    assert!(rx.try_recv().is_err());
}

#[test]
fn send_after_pump_gone_returns_closed() {
    let (tx, rx) = mpsc::unbounded_channel::<String>();
    let handle = PluginSessionHandle::new(tx);
    drop(rx);
    // the pump is gone: the call fails at once instead of blocking
    assert_eq!(
        handle.register("demo".to_string()),
        Err(SessionError::Closed)
    );
    assert_eq!(handle.set_properties(Value::Null), Err(SessionError::Closed));
}

#[test]
fn begin_call_registers_before_sending() {
    let (tx, mut rx) = mpsc::unbounded_channel();
    let handle = PluginSessionHandle::new(tx);
    let mut registry = Subscriptions::new();
    let (slot, _reply) = oneshot::channel();

    handle
        .begin_call(
            &mut registry,
            EventPredicate::IsTileProperties(uid(TILE_A)),
            slot,
            &ClientPluginMessage::GetTileProperties { tile_id: uid(TILE_A) },
        )
        .expect("call begins");
    assert_eq!(registry.pending(), 1);
    assert_eq!(
        rx.try_recv().unwrap(),
        format!("{{\"type\":\"GetTileProperties\",\"tile_id\":\"{TILE_A}\"}}")
    );
}

#[test]
fn begin_call_on_closed_pump_withdraws_waiter() {
    let (tx, rx) = mpsc::unbounded_channel::<String>();
    let handle = PluginSessionHandle::new(tx);
    drop(rx);
    let mut registry = Subscriptions::new();
    let (slot, _reply) = oneshot::channel();

    let r = handle.begin_call(
        &mut registry,
        EventPredicate::IsProperties,
        slot,
        &ClientPluginMessage::GetProperties,
    );
    assert_eq!(r, Err(SessionError::Closed));
    assert_eq!(registry.pending(), 0);
}

#[test]
fn extract_checks_reply_shape() {
    assert_eq!(
        extract_properties(ServerPluginMessage::Properties { properties: Value::Num(4) }),
        Ok(Value::Num(4))
    );
    assert_eq!(
        extract_properties(ServerPluginMessage::Registered { plugin_id: "p".to_string() }),
        Err(SessionError::UnexpectedMessage)
    );
    let a = uid(TILE_A);
    assert_eq!(
        extract_tile_properties(
            ServerPluginMessage::TileProperties { tile_id: uid(TILE_A), properties: Value::Null },
            &a
        ),
        Ok(Value::Null)
    );
    assert_eq!(
        extract_tile_properties(
            ServerPluginMessage::TileProperties { tile_id: uid(TILE_B), properties: Value::Null },
            &a
        ),
        Err(SessionError::UnexpectedMessage)
    );
}

#[test]
fn pump_writes_in_acceptance_order() {
    let mut pump = Pump::new();
    let a1 = pump.step(PumpInput::OutboundItem("first".to_string()));
    let a2 = pump.step(PumpInput::OutboundItem("second".to_string()));
    assert_eq!(a1, PumpAction::Write("first".to_string()));
    assert_eq!(a2, PumpAction::Write("second".to_string()));
    let a3 = pump.step(PumpInput::OutboundClosed);
    assert_eq!(a3, PumpAction::FlushAndClose);
    assert_eq!(pump.status(), PumpStatus::Done);
    // after an orderly end every input is ignored
    assert_eq!(
        pump.step(PumpInput::OutboundItem("late".to_string())),
        PumpAction::Ignore
    );
}

#[test]
fn pump_surfaces_text_and_answers_ping() {
    let mut pump = Pump::new();
    assert_eq!(
        pump.step(PumpInput::FrameRead(Frame::Text("{}".to_string()))),
        PumpAction::Surface("{}".to_string())
    );
    assert_eq!(
        pump.step(PumpInput::FrameRead(Frame::Ping(vec![1, 2]))),
        PumpAction::AnswerPong(vec![1, 2])
    );
    assert_eq!(pump.step(PumpInput::FrameRead(Frame::Pong(vec![]))), PumpAction::Ignore);
    assert_eq!(pump.status(), PumpStatus::Running);
}

#[test]
fn binary_frame_is_fatal_and_cascades_to_closed_calls() {
    // the pump receives a binary frame: a terminal protocol error
    let mut pump = Pump::new();
    let act = pump.step(PumpInput::FrameRead(Frame::Binary(vec![0xde, 0xad])));
    assert_eq!(act, PumpAction::CloseInbound);
    assert_eq!(pump.status(), PumpStatus::Failed(TransportError::UnsupportedFrame));

    // the dispatch loop sees the closed inbound queue and tears down;
    // the in-flight call resolves with the session-closed outcome
    let mut registry = Subscriptions::new();
    let (slot, mut reply) = oneshot::channel();
    registry.add(Subscriber::new(EventPredicate::IsProperties, slot));
    dispatch_end(&mut registry);
    assert!(matches!(reply.try_recv(), Err(TryRecvError::Closed)));
}

#[test]
fn io_failure_is_fatal() {
    let mut pump = Pump::new();
    assert_eq!(pump.step(PumpInput::IoFailed), PumpAction::CloseInbound);
    assert_eq!(pump.status(), PumpStatus::Failed(TransportError::Io));
}

#[test]
fn undecodable_frame_is_dropped_and_flow_continues() {
    let mut registry = Subscriptions::new();
    let (slot, mut reply) = oneshot::channel();
    registry.add(Subscriber::new(EventPredicate::IsProperties, slot));

    // a frame that fails to decode is dropped; the registry is untouched
    let r = dispatch_frame(&mut registry, &chars("this is not a frame"));
    assert_eq!(r, DispatchOutcome::Dropped);
    assert_eq!(registry.pending(), 1);

    // a later valid frame is still processed and fulfills the waiter
    let r = dispatch_frame(&mut registry, &chars(r#"{"type":"Properties","properties":{}}"#));
    assert_eq!(r, DispatchOutcome::Consumed);
    assert_eq!(registry.pending(), 0);
    match reply.try_recv().expect("waiter fulfilled") {
        ServerPluginMessage::Properties { properties } => {
            assert_eq!(properties, Value::Obj(vec![]));
        },
        other => panic!("wrong event: {other:?}"),
    }
}

#[test]
fn unmatched_event_is_forwarded() {
    let mut registry = Subscriptions::new();
    let r = dispatch_frame(
        &mut registry,
        &chars(r#"{"type":"Registered","plugin_id":"demo"}"#),
    );
    assert_eq!(
        r,
        DispatchOutcome::Forward(ServerPluginMessage::Registered {
            plugin_id: "demo".to_string()
        })
    );
}

#[test]
fn concurrent_tile_calls_resolve_regardless_of_arrival_order() {
    // the full call pattern for two tiles, replies arriving B then A
    let rt = tokio::runtime::Builder::new_current_thread().build().expect("runtime");
    rt.block_on(async {
        let (tx, mut cmd_rx) = mpsc::unbounded_channel();
        let handle = PluginSessionHandle::new(tx);
        let mut registry = Subscriptions::new();

        let (slot_a, reply_a) = oneshot::channel();
        let (slot_b, reply_b) = oneshot::channel();
        handle
            .begin_call(
                &mut registry,
                EventPredicate::IsTileProperties(uid(TILE_A)),
                slot_a,
                &ClientPluginMessage::GetTileProperties { tile_id: uid(TILE_A) },
            )
            .expect("call A begins");
        handle
            .begin_call(
                &mut registry,
                EventPredicate::IsTileProperties(uid(TILE_B)),
                slot_b,
                &ClientPluginMessage::GetTileProperties { tile_id: uid(TILE_B) },
            )
            .expect("call B begins");
        assert!(cmd_rx.try_recv().is_ok());
        assert!(cmd_rx.try_recv().is_ok());

        // replies arrive in the opposite order
        let fb = format!(
            "{{\"type\":\"TileProperties\",\"tile_id\":\"{TILE_B}\",\"properties\":{{\"n\":2}}}}"
        );
        let fa = format!(
            "{{\"type\":\"TileProperties\",\"tile_id\":\"{TILE_A}\",\"properties\":{{\"n\":1}}}}"
        );
        assert_eq!(dispatch_frame(&mut registry, &chars(&fb)), DispatchOutcome::Consumed);
        assert_eq!(dispatch_frame(&mut registry, &chars(&fa)), DispatchOutcome::Consumed);

        let ida = uid(TILE_A);
        let idb = uid(TILE_B);
        let got_a = extract_tile_properties(reply_a.await.expect("reply A"), &ida).expect("shape");
        let got_b = extract_tile_properties(reply_b.await.expect("reply B"), &idb).expect("shape");
        assert_eq!(got_a, Value::Obj(vec![(chars("n"), Value::Num(1))]));
        assert_eq!(got_b, Value::Obj(vec![(chars("n"), Value::Num(2))]));
    });
}
