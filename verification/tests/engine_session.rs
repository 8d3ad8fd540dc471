use cql_ws::engine::{Engine, SessionState};
use cql_ws::envelope::{encode_envelope, Envelope, Opcode};
use cql_ws::pump::Frame;
use cql_ws::rows::Value;
use cql_ws::SessionError;

fn reply(opcode: Opcode, body: Vec<u8>) -> Frame {
    Frame::Binary(encode_envelope(&Envelope { version: 0x84, stream: 0, opcode, body }))
}

fn push_u16(out: &mut Vec<u8>, x: u16) {
    out.push((x >> 8) as u8);
    out.push(x as u8);
}

fn push_u32(out: &mut Vec<u8>, x: u32) {
    out.push((x >> 24) as u8);
    out.push((x >> 16) as u8);
    out.push((x >> 8) as u8);
    out.push(x as u8);
}

fn push_string(out: &mut Vec<u8>, s: &str) {
    push_u16(out, s.len() as u16);
    out.extend_from_slice(s.as_bytes());
}

/// A two-column (int, text) rows result body with the given rows.
fn int_text_rows_body(rows: &[(i32, &str)]) -> Vec<u8> {
    let mut b = Vec::new();
    push_u32(&mut b, 2); // kind: rows
    push_u32(&mut b, 1); // flags: global table spec
    push_u32(&mut b, 2); // two columns
    push_string(&mut b, "ks");
    push_string(&mut b, "t");
    push_string(&mut b, "n");
    push_u16(&mut b, 0x09); // int
    push_string(&mut b, "s");
    push_u16(&mut b, 0x0D); // varchar
    push_u32(&mut b, rows.len() as u32);
    for (n, s) in rows {
        push_u32(&mut b, 4);
        b.extend_from_slice(&n.to_be_bytes());
        push_u32(&mut b, s.len() as u32);
        b.extend_from_slice(s.as_bytes());
    }
    b
}

#[test]
fn handshake_ready_reaches_ready_in_one_round_trip() {
    let mut engine = Engine::new();
    assert_eq!(engine.state, SessionState::Connecting);
    engine.tunnel_established();
    assert_eq!(engine.state, SessionState::Handshaking);
    let startup = engine.handshake_request();
    assert_eq!(startup[4], 0x01); // a startup envelope
    assert_eq!(engine.state, SessionState::Handshaking); // one frame, no state change
    engine.handshake_reply(reply(Opcode::Ready, vec![])).unwrap();
    assert_eq!(engine.state, SessionState::Ready);
}

#[test]
fn handshake_authenticate_is_unsupported() {
    let mut engine = Engine::new();
    engine.tunnel_established();
    let _ = engine.handshake_request();
    let r = engine.handshake_reply(reply(Opcode::Authenticate, vec![]));
    assert_eq!(r, Err(SessionError::Unsupported));
    assert_eq!(engine.state, SessionState::Closed);
}

#[test]
fn handshake_other_reply_is_violation() {
    let mut engine = Engine::new();
    engine.tunnel_established();
    let _ = engine.handshake_request();
    let r = engine.handshake_reply(reply(Opcode::ErrorMsg, vec![]));
    assert_eq!(r, Err(SessionError::ProtocolViolation));
    assert_eq!(engine.state, SessionState::Closed);
}

#[test]
fn handshake_non_binary_reply_is_violation() {
    let mut engine = Engine::new();
    engine.tunnel_established();
    let _ = engine.handshake_request();
    let r = engine.handshake_reply(Frame::Other);
    assert_eq!(r, Err(SessionError::ProtocolViolation));
    assert_eq!(engine.state, SessionState::Closed);
}

#[test]
fn one_outbound_frame_then_one_inbound_per_query() {
    let mut engine = Engine::new();
    engine.tunnel_established();
    let _ = engine.handshake_request();
    engine.handshake_reply(reply(Opcode::Ready, vec![])).unwrap();

    // One outbound frame is produced, and the engine leaves Ready, so no
    // second request can start before the single reply is consumed.
    let frame = engine.query_request("SELECT n, s FROM ks.t");
    assert_eq!(frame[4], 0x07); // a query envelope
    assert_eq!(engine.state, SessionState::AwaitingResult);

    let table = engine
        .query_reply(reply(Opcode::ResultMsg, int_text_rows_body(&[(5, "v")])))
        .unwrap();
    assert_eq!(engine.state, SessionState::Ready);
    assert_eq!(table, vec![vec![Value::Int(5), Value::Text(b"v".to_vec())]]);
}

#[test]
fn end_to_end_three_rows_two_columns() {
    // connect (plain) -> ready -> SELECT * FROM t -> three rows back.
    let mut engine = Engine::new();
    engine.tunnel_established();
    let _ = engine.handshake_request();
    engine.handshake_reply(reply(Opcode::Ready, vec![])).unwrap();

    let _ = engine.query_request("SELECT * FROM t");
    let fixture = int_text_rows_body(&[(1, "one"), (2, "two"), (3, "three")]);
    let table = engine.query_reply(reply(Opcode::ResultMsg, fixture)).unwrap();
    assert_eq!(
        table,
        vec![
            vec![Value::Int(1), Value::Text(b"one".to_vec())],
            vec![Value::Int(2), Value::Text(b"two".to_vec())],
            vec![Value::Int(3), Value::Text(b"three".to_vec())],
        ]
    );
    assert_eq!(engine.state, SessionState::Ready);
}

#[test]
fn query_reply_with_other_opcode_is_violation() {
    let mut engine = Engine::new();
    engine.tunnel_established();
    let _ = engine.handshake_request();
    engine.handshake_reply(reply(Opcode::Ready, vec![])).unwrap();
    let _ = engine.query_request("SELECT * FROM t");
    let r = engine.query_reply(reply(Opcode::Ready, vec![]));
    assert_eq!(r, Err(SessionError::ProtocolViolation));
    assert_eq!(engine.state, SessionState::Closed);
}
