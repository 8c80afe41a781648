//! Handshake, transport, message pipeline, server state, shutdown timing
//! and backpressure, exercised end to end in memory.

use distant::channel::BoundedQueue;
use distant::handshake::{
    build_confirmation, check_confirmation, confirmation_round_trip, establish_transport,
    generate_key, generate_salt,
};
use distant::codec::Codec;
use distant::message::{decode_envelope, encode_envelope, DeserializeError, Request, Response};
use distant::server::{request_loop_step, response_loop_step, ReadEvent, RequestStep, SendStep, StopReason};
use distant::shutdown::ShutdownCoordinator;
use distant::state::ServerState;

fn key_a() -> Vec<u8> {
    (1u8..33).collect()
}

fn key_b() -> Vec<u8> {
    (201u8..233).collect()
}

fn salt(fill: u8) -> Vec<u8> {
    vec![fill; 16]
}

#[test]
fn envelope_round_trip() {
    let payload = vec![b"first entry".to_vec(), Vec::new(), b"third".to_vec()];
    let frame = encode_envelope(42, &payload);
    let (id, entries) = decode_envelope(&frame).expect("own encoding must decode");
    assert_eq!(id, 42);
    assert_eq!(entries, payload);
}

#[test]
fn envelope_rejects_malformed() {
    // Too short for a header.
    assert_eq!(decode_envelope(&vec![0u8; 11]), Err(DeserializeError::Malformed));
    // A zero entry count: a request carries at least one entry.
    let mut zero_count = vec![0u8; 12];
    zero_count[7] = 9;
    assert_eq!(decode_envelope(&zero_count), Err(DeserializeError::Malformed));
    // Truncated: the announced entry overruns the frame.
    let frame = encode_envelope(7, &vec![b"payload".to_vec()]);
    let cut = frame[..frame.len() - 1].to_vec();
    assert_eq!(decode_envelope(&cut), Err(DeserializeError::Malformed));
    // Trailing garbage after the last entry.
    let mut long = frame.clone();
    long.push(0);
    assert_eq!(decode_envelope(&long), Err(DeserializeError::Malformed));
}

#[test]
fn request_frame_round_trip() {
    let req = Request { id: 9, payload: vec![b"run".to_vec(), b"ls".to_vec()] };
    let frame = req.to_frame();
    let back = Request::from_frame(&frame).expect("must decode");
    assert_eq!(back.id, 9);
    assert_eq!(back.payload, req.payload);
    assert_eq!(back.payload_count(), 2);
}

#[test]
fn handshake_same_key_succeeds() {
    assert!(confirmation_round_trip(&key_a(), &salt(1), &salt(2)));
    // The same, spelled out: the client's confirmation verifies at the server.
    let client_write = Codec::new(key_a(), salt(1));
    let server_read = Codec::new(key_a(), salt(1));
    let ct = build_confirmation(&client_write, &salt(1), &salt(2));
    assert!(check_confirmation(&server_read, &salt(1), &salt(2), &ct));
}

#[test]
fn handshake_mismatched_keys_fails() {
    // Client holds one key, server another: neither side's confirmation
    // verifies, and no frame is ever exchanged past the handshake.
    let client_write = Codec::new(key_a(), salt(1));
    let server_read = Codec::new(key_b(), salt(1));
    let ct = build_confirmation(&client_write, &salt(1), &salt(2));
    assert!(!check_confirmation(&server_read, &salt(1), &salt(2), &ct));
    // And in the other direction too.
    let server_write = Codec::new(key_b(), salt(2));
    let client_read = Codec::new(key_a(), salt(2));
    let ct2 = build_confirmation(&server_write, &salt(2), &salt(1));
    assert!(!check_confirmation(&client_read, &salt(2), &salt(1), &ct2));
}

#[test]
fn handshake_tampered_confirmation_fails() {
    let client_write = Codec::new(key_a(), salt(1));
    let server_read = Codec::new(key_a(), salt(1));
    let mut ct = build_confirmation(&client_write, &salt(1), &salt(2));
    ct[0] ^= 0x80;
    assert!(!check_confirmation(&server_read, &salt(1), &salt(2), &ct));
}

#[test]
fn generated_material_has_fixed_lengths() {
    assert_eq!(generate_salt().len(), 16);
    assert_eq!(generate_key().len(), 32);
    assert_ne!(generate_salt(), generate_salt());
}

/// One full exchange in memory: client sends a request, the server
/// dispatches it, a stub handler answers, the response loop seals the
/// answer, the client reads it back; the close cleans the client up once.
#[test]
fn end_to_end_request_response() {
    let key = generate_key();
    let client_salt = salt(3);
    let server_salt = salt(4);

    let (mut client_tx, mut client_rx) =
        establish_transport(Some(key.clone()), client_salt.clone(), server_salt.clone());
    let (mut server_tx, mut server_rx) =
        establish_transport(Some(key), server_salt, client_salt);
    assert!(client_tx.is_encrypted() && server_rx.is_encrypted());

    // Client sends one single-payload request.
    let req = Request { id: 77, payload: vec![b"list processes".to_vec()] };
    let wire_frame = client_tx.prepare_send(&req.to_frame()).expect("fits a frame");

    // Server reads it: strip the length prefix, run one request-loop turn.
    let payload = wire_frame[4..].to_vec();
    let mut state = ServerState::empty();
    let client_id = 1u64;
    let step = request_loop_step(&mut server_rx, ReadEvent::Payload(payload));
    let got = match step {
        RequestStep::Dispatch(r) => r,
        RequestStep::Stop(reason) => panic!("unexpected stop: {:?}", reason),
    };
    assert_eq!(got.id, 77);
    assert_eq!(got.payload, req.payload);

    // Stub handler: touches the client's state, produces exactly one response.
    let procs = state.get_or_create(client_id);
    assert!(procs.is_empty());
    let resp = Response { id: got.id, payload: vec![b"pid 4242".to_vec()] };
    let mut queue: BoundedQueue<Response> = BoundedQueue::new(4);
    queue.try_push(resp).expect("queue has room");

    // Response loop drains the queue and seals the answer.
    let item = queue.pop_front();
    let send = response_loop_step(&mut server_tx, item);
    let out_frame = match send {
        SendStep::Write(f) => f,
        SendStep::Finished => panic!("queue held one response"),
    };
    match response_loop_step(&mut server_tx, queue.pop_front()) {
        SendStep::Finished => {},
        SendStep::Write(_) => panic!("the queue is already empty"),
    }

    // Client reads exactly one response whose content matches the handler's.
    let out_payload = out_frame[4..].to_vec();
    let plain = client_rx.accept_payload(&out_payload).expect("same key");
    let back = Response::from_frame(&plain).expect("well-formed response");
    assert_eq!(back.id, 77);
    assert_eq!(back.payload, vec![b"pid 4242".to_vec()]);

    // The client closes; the request loop stops and cleanup runs once.
    let step = request_loop_step(&mut server_rx, ReadEvent::CleanEof);
    match step {
        RequestStep::Stop(reason) => assert_eq!(reason, StopReason::CleanClose),
        RequestStep::Dispatch(_) => panic!("eof cannot dispatch"),
    }
    state.cleanup_client(client_id);
    assert!(!state.contains_client(client_id));
}

#[test]
fn request_loop_stops_on_bad_frame() {
    let key = generate_key();
    let (_tx, mut rx) = establish_transport(Some(key), salt(5), salt(6));
    let step = request_loop_step(&mut rx, ReadEvent::Payload(vec![0u8; 40]));
    match step {
        RequestStep::Stop(reason) => assert_eq!(reason, StopReason::Decrypt),
        RequestStep::Dispatch(_) => panic!("garbage cannot dispatch"),
    }
    let step = request_loop_step(&mut rx, ReadEvent::ReadError);
    match step {
        RequestStep::Stop(reason) => assert_eq!(reason, StopReason::Io),
        RequestStep::Dispatch(_) => panic!("an error cannot dispatch"),
    }
}

#[test]
fn request_loop_stops_on_protocol_mismatch() {
    let key = generate_key();
    let (mut tx, mut rx) = establish_transport(Some(key), salt(7), salt(7));
    // A frame that decrypts but holds no well-formed envelope.
    let wire_frame = tx.prepare_send(&b"not an envelope".to_vec()).expect("small");
    let step = request_loop_step(&mut rx, ReadEvent::Payload(wire_frame[4..].to_vec()));
    match step {
        RequestStep::Stop(reason) => assert_eq!(reason, StopReason::Protocol),
        RequestStep::Dispatch(_) => panic!("junk cannot dispatch"),
    }
}

#[test]
fn passthrough_mode_is_explicit() {
    let (mut tx, mut rx) = establish_transport(None, salt(8), salt(9));
    assert!(!tx.is_encrypted());
    assert!(!rx.is_encrypted());
    let msg = b"in the clear".to_vec();
    let framed = tx.prepare_send(&msg).expect("small");
    assert_eq!(&framed[4..], msg.as_slice());
    let back = rx.accept_payload(&framed[4..].to_vec()).expect("passthrough");
    assert_eq!(back, msg);
}

#[test]
fn state_cleanup_leaves_nothing_stale() {
    let mut state = ServerState::empty();
    let id = 7u64;
    state.get_or_create(id);
    state.add_process(id, 100);
    state.add_process(id, 200);
    let freed = state.cleanup_client(id);
    assert_eq!(freed, vec![100, 200]);
    assert!(!state.contains_client(id));
    // A reconnect under the same identity starts fresh.
    let procs = state.get_or_create(id);
    assert!(procs.is_empty());
}

#[test]
fn state_keeps_clients_isolated() {
    let mut state = ServerState::empty();
    state.add_process(1, 11);
    state.add_process(2, 22);
    let freed = state.cleanup_client(1);
    assert_eq!(freed, vec![11]);
    assert!(state.contains_client(2));
    let freed2 = state.cleanup_client(2);
    assert_eq!(freed2, vec![22]);
}

#[test]
fn cleanup_of_unknown_client_is_empty() {
    let mut state = ServerState::empty();
    assert!(state.cleanup_client(99).is_empty());
}

#[test]
fn shutdown_fires_after_idle_duration_only() {
    let mut c = ShutdownCoordinator::new(Some(100), 0);
    // One connection arrives, then leaves at tick 50.
    c.increment();
    assert!(!c.should_shutdown(1000));
    c.decrement(50);
    // Not a tick earlier than disconnect + duration.
    assert!(!c.should_shutdown(149));
    assert!(c.should_shutdown(150));
    assert!(c.should_shutdown(151));
}

#[test]
fn shutdown_cancelled_by_reconnect() {
    let mut c = ShutdownCoordinator::new(Some(100), 0);
    c.increment();
    c.decrement(50);
    // A new connection before the duration elapses resets the timer.
    c.increment();
    assert!(!c.should_shutdown(10_000));
    c.decrement(10_000);
    assert!(!c.should_shutdown(10_099));
    assert!(c.should_shutdown(10_100));
}

#[test]
fn shutdown_never_fires_without_duration() {
    let c = ShutdownCoordinator::new(None, 0);
    assert!(!c.should_shutdown(u64::MAX));
}

#[test]
fn queue_backpressure_no_loss_no_reorder() {
    let mut q: BoundedQueue<u32> = BoundedQueue::new(2);
    assert_eq!(q.capacity(), 2);
    q.try_push(1).expect("room");
    q.try_push(2).expect("room");
    // The third push is refused and the item handed back: the producer
    // suspends, nothing is dropped.
    assert_eq!(q.try_push(3), Err(3));
    assert_eq!(q.len(), 2);
    // Draining frees capacity; order is first-in, first-out throughout.
    assert_eq!(q.pop_front(), Some(1));
    q.try_push(3).expect("capacity freed");
    assert_eq!(q.pop_front(), Some(2));
    assert_eq!(q.pop_front(), Some(3));
    assert_eq!(q.pop_front(), None);
}
