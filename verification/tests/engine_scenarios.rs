use cq_engine::engine::{Action, Completion, Engine, Fault, REGISTRATION_ID};
use cq_engine::response::{response, RESPONSE_LEN};
use cq_engine::table::ConnEntry;
use cq_engine::tag::{encode, OpKind};

fn completion(kind: OpKind, id: u32, result: i32, buffer_id: Option<u16>) -> Completion {
    Completion { tag: encode(kind, id), result, buffer_id }
}

#[test]
fn startup_actions() {
    let (engine, actions) = Engine::new(64, 128);
    assert_eq!(actions.len(), 65);
    assert_eq!(actions[0], Action::RegisterBuffers { count: 128 });
    assert_eq!(actions[1], Action::SubmitAccept { slot: 0 });
    assert_eq!(actions[64], Action::SubmitAccept { slot: 63 });
    assert_eq!(engine.accepts_outstanding(), 64);
    assert_eq!(engine.available_buffers(), 128);
    assert_eq!(engine.live_connections(), 0);
}

#[test]
fn fixed_response_bytes() {
    let expected: &[u8] = b"HTTP/1.1 200 OK\r\nContent-Length: 12\r\n\r\nHello world\n";
    assert_eq!(response(), expected.to_vec());
    assert_eq!(RESPONSE_LEN, expected.len());
}

// Scenario: a client connects and sends four bytes; the engine orders the
// exact fixed response sent, keeps the connection open, and serves a second
// request identically.
#[test]
fn ping_gets_fixed_response_twice() {
    let (mut engine, _) = Engine::new(64, 128);
    let accepted = engine.dispatch(completion(OpKind::Accept, 5, 9, None)).unwrap();
    assert_eq!(
        accepted,
        vec![
            Action::SubmitReceive { token: 0, fd: 9 },
            Action::SubmitAccept { slot: 5 },
        ]
    );
    // first request: 4 bytes arrive in buffer 7
    let served = engine.dispatch(completion(OpKind::Receive, 0, 4, Some(7))).unwrap();
    assert_eq!(
        served,
        vec![
            Action::ReturnBuffer { bid: 7 },
            Action::SubmitSend { token: 0, fd: 9 },
            Action::SubmitReceive { token: 0, fd: 9 },
        ]
    );
    // the send completes whole
    let after_send = engine
        .dispatch(completion(OpKind::Send, 0, RESPONSE_LEN as i32, None))
        .unwrap();
    assert_eq!(after_send, Vec::new());
    // the connection stayed open and a second request is served identically
    assert_eq!(engine.live_connections(), 1);
    let served_again = engine.dispatch(completion(OpKind::Receive, 0, 4, Some(12))).unwrap();
    assert_eq!(
        served_again,
        vec![
            Action::ReturnBuffer { bid: 12 },
            Action::SubmitSend { token: 0, fd: 9 },
            Action::SubmitReceive { token: 0, fd: 9 },
        ]
    );
    assert_eq!(engine.available_buffers(), 128);
}

// Scenario: a client connects and closes without sending; the connection is
// removed, nothing is sent, and the pool's available count is unchanged.
#[test]
fn immediate_close_sends_nothing() {
    let (mut engine, _) = Engine::new(64, 128);
    engine.dispatch(completion(OpKind::Accept, 0, 9, None)).unwrap();
    let before = engine.available_buffers();
    let actions = engine.dispatch(completion(OpKind::Receive, 0, 0, None)).unwrap();
    assert_eq!(actions, vec![Action::CloseSocket { token: 0, fd: 9 }]);
    assert!(!actions.iter().any(|a| matches!(a, Action::SubmitSend { .. })));
    assert_eq!(engine.live_connections(), 0);
    assert_eq!(engine.available_buffers(), before);
}

#[test]
fn close_with_delivered_buffer_returns_it() {
    let (mut engine, _) = Engine::new(64, 128);
    engine.dispatch(completion(OpKind::Accept, 0, 9, None)).unwrap();
    let before = engine.available_buffers();
    let actions = engine.dispatch(completion(OpKind::Receive, 0, -104, Some(3))).unwrap();
    assert_eq!(
        actions,
        vec![Action::ReturnBuffer { bid: 3 }, Action::CloseSocket { token: 0, fd: 9 }]
    );
    assert_eq!(engine.live_connections(), 0);
    assert_eq!(engine.available_buffers(), before);
}

// Scenario: with every accept slot busy, each accept completion re-arms its
// slot at once, so the count of outstanding accepts never drops and a later
// connection attempt is accepted by the re-armed slot.
#[test]
fn accepts_outstanding_stays_constant() {
    let (mut engine, actions) = Engine::new(3, 8);
    assert_eq!(actions.len(), 4);
    assert_eq!(engine.accepts_outstanding(), 3);
    for slot in 0..3u32 {
        let fd = 10 + slot as i32;
        let acts = engine.dispatch(completion(OpKind::Accept, slot, fd, None)).unwrap();
        assert_eq!(acts[1], Action::SubmitAccept { slot });
        assert_eq!(engine.accepts_outstanding(), 3);
    }
    assert_eq!(engine.live_connections(), 3);
    // the re-armed slot 0 picks up one more queued connection attempt
    let acts = engine.dispatch(completion(OpKind::Accept, 0, 20, None)).unwrap();
    assert_eq!(acts[0], Action::SubmitReceive { token: 3, fd: 20 });
    assert_eq!(engine.accepts_outstanding(), 3);
    assert_eq!(engine.live_connections(), 4);
}

#[test]
fn failed_accept_rearms_same_slot() {
    let (mut engine, _) = Engine::new(2, 8);
    let actions = engine.dispatch(completion(OpKind::Accept, 1, -11, None)).unwrap();
    assert_eq!(actions, vec![Action::SubmitAccept { slot: 1 }]);
    assert_eq!(engine.accepts_outstanding(), 2);
    assert_eq!(engine.live_connections(), 0);
}

// Scenario: a send either writes the whole fixed response or is an
// internal-consistency violation.
#[test]
fn short_send_is_fatal() {
    let (mut engine, _) = Engine::new(2, 8);
    engine.dispatch(completion(OpKind::Accept, 0, 9, None)).unwrap();
    engine.dispatch(completion(OpKind::Receive, 0, 4, Some(0))).unwrap();
    assert_eq!(
        engine.dispatch(completion(OpKind::Send, 0, 10, None)),
        Err(Fault::ShortSend)
    );
    assert_eq!(
        engine.dispatch(completion(OpKind::Send, 0, 0, None)),
        Err(Fault::ShortSend)
    );
    let whole = engine.dispatch(completion(OpKind::Send, 0, RESPONSE_LEN as i32, None));
    assert_eq!(whole, Ok(Vec::new()));
}

#[test]
fn failed_send_leaves_teardown_to_receive() {
    let (mut engine, _) = Engine::new(2, 8);
    engine.dispatch(completion(OpKind::Accept, 0, 9, None)).unwrap();
    engine.dispatch(completion(OpKind::Receive, 0, 4, Some(0))).unwrap();
    // the peer vanished: the send fails, but the connection is torn down by
    // its own receive completing with an error
    assert_eq!(engine.dispatch(completion(OpKind::Send, 0, -32, None)), Ok(Vec::new()));
    assert_eq!(engine.live_connections(), 1);
    let acts = engine.dispatch(completion(OpKind::Receive, 0, -104, Some(1))).unwrap();
    assert_eq!(acts[1], Action::CloseSocket { token: 0, fd: 9 });
    assert_eq!(engine.live_connections(), 0);
}

// A reused token starts from a fresh entry: nothing of the previous
// connection survives.
#[test]
fn reused_token_is_fresh() {
    let (mut engine, _) = Engine::new(2, 8);
    engine.dispatch(completion(OpKind::Accept, 0, 9, None)).unwrap();
    // leave a send outstanding on token 0, then the peer closes
    engine.dispatch(completion(OpKind::Receive, 0, 4, Some(2))).unwrap();
    assert_eq!(
        engine.connection(0),
        Some(ConnEntry { fd: 9, recv_pending: 1, send_pending: 1 })
    );
    engine.dispatch(completion(OpKind::Receive, 0, 0, None)).unwrap();
    assert_eq!(engine.connection(0), None);
    // the next accept reuses token 0 with a clean entry
    let acts = engine.dispatch(completion(OpKind::Accept, 1, 33, None)).unwrap();
    assert_eq!(acts[0], Action::SubmitReceive { token: 0, fd: 33 });
    assert_eq!(
        engine.connection(0),
        Some(ConnEntry { fd: 33, recv_pending: 1, send_pending: 0 })
    );
}

// At most one receive stays outstanding for a live connection, however many
// requests it serves.
#[test]
fn one_receive_outstanding_per_connection() {
    let (mut engine, _) = Engine::new(2, 8);
    engine.dispatch(completion(OpKind::Accept, 0, 9, None)).unwrap();
    for i in 0..5u16 {
        engine.dispatch(completion(OpKind::Receive, 0, 4, Some(i))).unwrap();
        assert_eq!(engine.connection(0).unwrap().recv_pending, 1);
    }
}

#[test]
fn return_buffer_completion_is_bookkeeping() {
    let (mut engine, _) = Engine::new(2, 8);
    let before = engine.available_buffers();
    let acts = engine.dispatch(completion(OpKind::ReturnBuffer, 0, 0, None)).unwrap();
    assert_eq!(acts, Vec::new());
    assert_eq!(engine.available_buffers(), before);
}

#[test]
fn confirmed_registration_is_accepted() {
    let (mut engine, _) = Engine::new(2, 8);
    let acts = engine
        .dispatch(completion(OpKind::ReturnBuffer, REGISTRATION_ID, 0, None))
        .unwrap();
    assert_eq!(acts, Vec::new());
}

// A rejected buffer-pool registration is a fatal setup error, never run
// past: its completion faults instead of passing for bookkeeping.
#[test]
fn rejected_registration_is_fatal() {
    let (mut engine, _) = Engine::new(2, 8);
    assert_eq!(
        engine.dispatch(completion(OpKind::ReturnBuffer, REGISTRATION_ID, -22, None)),
        Err(Fault::RegistrationFailed)
    );
    // the fault leaves the engine as it was
    assert_eq!(engine.live_connections(), 0);
    assert_eq!(engine.available_buffers(), 8);
    assert_eq!(engine.accepts_outstanding(), 2);
}

#[test]
fn faults_on_corrupt_completions() {
    let (mut engine, _) = Engine::new(2, 8);
    // a tag whose kind code belongs to no operation
    assert_eq!(
        engine.dispatch(Completion { tag: u64::MAX, result: 0, buffer_id: None }),
        Err(Fault::BadTag)
    );
    // an accept for a slot handle that was never issued
    assert_eq!(
        engine.dispatch(completion(OpKind::Accept, 99, 9, None)),
        Err(Fault::UnknownAcceptSlot)
    );
    // a receive and a send for a token with no live connection
    assert_eq!(
        engine.dispatch(completion(OpKind::Receive, 4, 1, Some(0))),
        Err(Fault::UnknownToken)
    );
    assert_eq!(
        engine.dispatch(completion(OpKind::Send, 4, 51, None)),
        Err(Fault::UnknownToken)
    );
    engine.dispatch(completion(OpKind::Accept, 0, 9, None)).unwrap();
    // data delivered without a buffer
    assert_eq!(
        engine.dispatch(completion(OpKind::Receive, 0, 4, None)),
        Err(Fault::MissingBuffer)
    );
    // a delivered buffer id outside the pool
    assert_eq!(
        engine.dispatch(completion(OpKind::Receive, 0, 4, Some(200))),
        Err(Fault::BufferOutOfRange)
    );
    // a send completion when no send is outstanding
    assert_eq!(
        engine.dispatch(completion(OpKind::Send, 0, 51, None)),
        Err(Fault::SendNotPending)
    );
    // a fault leaves the engine as it was
    assert_eq!(engine.live_connections(), 1);
    assert_eq!(engine.available_buffers(), 8);
    assert_eq!(engine.accepts_outstanding(), 2);
}
