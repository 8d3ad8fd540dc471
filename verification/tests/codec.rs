use cassandra_protocol::compression::Compression;
use cassandra_protocol::frame::{Envelope as CpEnvelope, Flags, Version};
use cassandra_protocol::query::query_params::QueryParams;
use cassandra_protocol::query::Query;
use cql_ws::envelope::{encode_envelope, parse_envelope, Envelope, Opcode};
use cql_ws::SessionError;

fn env(version: u8, stream: u16, opcode: Opcode, body: Vec<u8>) -> Envelope {
    Envelope { version, stream, opcode, body }
}

#[test]
fn envelope_round_trip_with_body() {
    let e = env(0x84, 7, Opcode::ResultMsg, vec![1, 2, 3, 4, 5]);
    let bytes = encode_envelope(&e);
    let back = parse_envelope(&bytes).unwrap();
    assert_eq!(back, e);
}

#[test]
fn envelope_round_trip_empty_body() {
    let e = env(0x04, 0, Opcode::Startup, vec![]);
    let bytes = encode_envelope(&e);
    assert_eq!(bytes.len(), 9);
    let back = parse_envelope(&bytes).unwrap();
    assert_eq!(back, e);
}

#[test]
fn envelope_header_layout() {
    let e = env(0x04, 0x0102, Opcode::Query, vec![0xAA, 0xBB]);
    let bytes = encode_envelope(&e);
    assert_eq!(bytes, vec![0x04, 0x00, 0x01, 0x02, 0x07, 0x00, 0x00, 0x00, 0x02, 0xAA, 0xBB]);
}

#[test]
fn parse_rejects_short_input() {
    assert_eq!(parse_envelope(&[0x04, 0, 0, 0]), Err(SessionError::ProtocolViolation));
}

#[test]
fn parse_rejects_unknown_version() {
    let mut bytes = encode_envelope(&env(0x04, 0, Opcode::Ready, vec![]));
    bytes[0] = 0x05;
    assert_eq!(parse_envelope(&bytes), Err(SessionError::ProtocolViolation));
}

#[test]
fn parse_rejects_nonzero_flags() {
    let mut bytes = encode_envelope(&env(0x84, 0, Opcode::Ready, vec![]));
    bytes[1] = 0x01;
    assert_eq!(parse_envelope(&bytes), Err(SessionError::ProtocolViolation));
}

#[test]
fn parse_rejects_unknown_opcode() {
    let mut bytes = encode_envelope(&env(0x84, 0, Opcode::Ready, vec![]));
    bytes[4] = 0x42;
    assert_eq!(parse_envelope(&bytes), Err(SessionError::ProtocolViolation));
}

#[test]
fn parse_rejects_length_mismatch() {
    let mut bytes = encode_envelope(&env(0x84, 0, Opcode::Ready, vec![1, 2, 3]));
    bytes.push(0xFF);
    assert_eq!(parse_envelope(&bytes), Err(SessionError::ProtocolViolation));
}

// --- Fidelity against the wire protocol codec collaborator. ---

#[test]
fn startup_frame_matches_collaborator() {

    let theirs = CpEnvelope::new_req_startup(None, Version::V4)
        .encode_with(Compression::None)
        .unwrap();
    let engine = cql_ws::engine::Engine::new();
    let mut engine = engine;
    engine.tunnel_established();
    let ours = engine.handshake_request();
    assert_eq!(ours, theirs);
}

#[test]
fn query_frame_matches_collaborator() {

    let theirs = CpEnvelope::new_query(
        Query { query: "SELECT * FROM t".into(), params: QueryParams::default() },
        Flags::empty(),
        Version::V4,
    )
    .encode_with(Compression::None)
    .unwrap();

    let mut engine = cql_ws::engine::Engine::new();
    engine.tunnel_established();
    let ready = encode_envelope(&env(0x84, 0, Opcode::Ready, vec![]));
    let _ = engine.handshake_request();
    engine
        .handshake_reply(cql_ws::pump::Frame::Binary(ready))
        .unwrap();
    let ours = engine.query_request("SELECT * FROM t");
    assert_eq!(ours, theirs);
}

#[test]
fn parse_accepts_collaborator_encoding() {

    let bytes = CpEnvelope::new_req_startup(None, Version::V4)
        .encode_with(Compression::None)
        .unwrap();
    let parsed = parse_envelope(&bytes).unwrap();
    assert_eq!(parsed.version, 0x04);
    assert_eq!(parsed.stream, 0);
    assert_eq!(parsed.opcode, Opcode::Startup);
    assert_eq!(parsed.body.len(), 22);
}
