//! The session protocol engine: the handshake/query state machine. It turns
//! protocol decisions into values — the frames to send and the state after
//! each reply — while the queues and the socket live outside the library.
//!
//! States move `Connecting -> Handshaking -> Ready`, then per query
//! `Ready -> AwaitingResult -> Ready`, and to `Closed` on any fatal reply.
//! Only one request is ever outstanding: a query may be sent only from
//! `Ready`, and sending it leaves the engine in `AwaitingResult` until the
//! single reply is consumed.

use vstd::prelude::*;
use vstd::string::StringSliceAdditionalSpecFns;

use crate::envelope::{
    encode_envelope, encoded, parse_envelope, parse_envelope_spec, Envelope, EnvelopeModel, Opcode,
    REQUEST_VERSION,
};
use crate::pump::{Frame, FrameModel};
use crate::rows::{rows_table, rows_table_spec, Value, ValueModel};
use crate::wire::{push_u32_be, u32_be};
use crate::SessionError;

verus! {

/// The states of a session.
#[derive(Clone, Copy, Debug, PartialEq, Eq, Structural)]
pub enum SessionState {
    Connecting,
    Handshaking,
    Ready,
    AwaitingResult,
    Closed,
}

/// A query may be sent only while the session is ready.
pub open spec fn query_send_allowed(s: SessionState) -> bool {
    s == SessionState::Ready
}

/// A query reply may be consumed only while one request is outstanding.
pub open spec fn reply_consume_allowed(s: SessionState) -> bool {
    s == SessionState::AwaitingResult
}

/// The body of the startup envelope: a string map with the single entry
/// CQL_VERSION -> 3.0.0.
pub open spec fn startup_body() -> Seq<u8> {
    seq![
        0x00u8, 0x01,  // one entry
        0x00, 0x0B, 0x43, 0x51, 0x4C, 0x5F, 0x56, 0x45, 0x52, 0x53, 0x49, 0x4F, 0x4E,
        0x00, 0x05, 0x33, 0x2E, 0x30, 0x2E, 0x30,
    ]
}

/// The startup envelope of the handshake.
pub open spec fn startup_envelope() -> EnvelopeModel {
    EnvelopeModel {
        version: REQUEST_VERSION,
        stream: 0,
        opcode: Opcode::Startup,
        body: startup_body(),
    }
}

/// The body of a query envelope with default parameters: the query text as
/// a four-byte-length-prefixed string, consistency ONE, and an empty flags
/// byte.
pub open spec fn query_body(q: Seq<u8>) -> Seq<u8> {
    u32_be(q.len() as u32) + q + seq![0x00u8, 0x01, 0x00]
}

/// The query envelope for a query text.
pub open spec fn query_envelope(q: Seq<u8>) -> EnvelopeModel {
    EnvelopeModel {
        version: REQUEST_VERSION,
        stream: 0,
        opcode: Opcode::Query,
        body: query_body(q),
    }
}

/// What a handshake reply means: a ready envelope completes the handshake,
/// an authentication challenge is recognized but unsupported, and anything
/// else — a non-binary frame, an unreadable envelope, another opcode — is a
/// protocol violation.
pub open spec fn handshake_outcome(f: FrameModel) -> Result<(), SessionError> {
    match f {
        FrameModel::Binary(b) => match parse_envelope_spec(b) {
            Some(env) => if env.opcode == Opcode::Ready {
                Ok(())
            } else if env.opcode == Opcode::Authenticate {
                Err(SessionError::Unsupported)
            } else {
                Err(SessionError::ProtocolViolation)
            },
            None => Err(SessionError::ProtocolViolation),
        },
        _ => Err(SessionError::ProtocolViolation),
    }
}

/// The state after a handshake reply.
pub open spec fn handshake_next(f: FrameModel) -> SessionState {
    if handshake_outcome(f) is Ok {
        SessionState::Ready
    } else {
        SessionState::Closed
    }
}

/// What a query reply holds: the typed table of a rows result envelope;
/// anything else is a protocol violation, except recognized-but-unmodelled
/// result content, which is unsupported.
pub open spec fn query_reply_table(f: FrameModel) -> Result<Seq<Seq<ValueModel>>, SessionError> {
    match f {
        FrameModel::Binary(b) => match parse_envelope_spec(b) {
            Some(env) => if env.opcode == Opcode::ResultMsg {
                rows_table_spec(env.body)
            } else {
                Err(SessionError::ProtocolViolation)
            },
            None => Err(SessionError::ProtocolViolation),
        },
        _ => Err(SessionError::ProtocolViolation),
    }
}

/// The state after a query reply.
pub open spec fn query_reply_next(f: FrameModel) -> SessionState {
    if query_reply_table(f) is Ok {
        SessionState::Ready
    } else {
        SessionState::Closed
    }
}

/// The session protocol engine. The ghost counters record how many frames
/// it has produced for the outbound queue and consumed from the inbound
/// queue: each operation's contract pins both, so the one-frame-out,
/// one-frame-in shape of the handshake and of every query is part of the
/// interface.
pub struct Engine {
    pub state: SessionState,
    /// How many frames the engine has produced for the outbound queue.
    pub sent_frames: Ghost<nat>,
    /// How many inbound frames the engine has consumed.
    pub recv_frames: Ghost<nat>,
}

impl Engine {
    /// A new engine, about to connect.
    pub fn new() -> (e: Engine)
        ensures
            e.state == SessionState::Connecting,
            e.sent_frames@ == 0,
            e.recv_frames@ == 0,
    {
        Engine { state: SessionState::Connecting, sent_frames: Ghost(0), recv_frames: Ghost(0) }
    }

    /// The tunnel is up; the handshake may begin.
    pub fn tunnel_established(&mut self)
        requires
            old(self).state == SessionState::Connecting,
        ensures
            final(self).state == SessionState::Handshaking,
            final(self).sent_frames == old(self).sent_frames,
            final(self).recv_frames == old(self).recv_frames,
    {
        self.state = SessionState::Handshaking;
    }

    /// The single startup frame of the handshake. Requesting it does not
    /// change the state: the engine stays in Handshaking until the reply.
    pub fn handshake_request(&mut self) -> (frame: Vec<u8>)
        requires
            old(self).state == SessionState::Handshaking,
        ensures
            final(self).state == old(self).state,
            final(self).sent_frames@ == old(self).sent_frames@ + 1,
            final(self).recv_frames == old(self).recv_frames,
            frame@ == encoded(startup_envelope()),
    {
        proof {
            self.sent_frames@ = self.sent_frames@ + 1;
        }
        let mut body: Vec<u8> = Vec::new();
        body.push(0x00);
        body.push(0x01);
        body.push(0x00);
        body.push(0x0B);
        body.push(0x43);
        body.push(0x51);
        body.push(0x4C);
        body.push(0x5F);
        body.push(0x56);
        body.push(0x45);
        body.push(0x52);
        body.push(0x53);
        body.push(0x49);
        body.push(0x4F);
        body.push(0x4E);
        body.push(0x00);
        body.push(0x05);
        body.push(0x33);
        body.push(0x2E);
        body.push(0x30);
        body.push(0x2E);
        body.push(0x30);
        assert(body@ =~= startup_body());
        let env = Envelope {
            version: REQUEST_VERSION,
            stream: 0,
            opcode: Opcode::Startup,
            body,
        };
        assert(env@ =~= startup_envelope());
        encode_envelope(&env)
    }

    /// Consumes the one handshake reply and moves to Ready exactly when it
    /// is a ready envelope.
    pub fn handshake_reply(&mut self, frame: Frame) -> (r: Result<(), SessionError>)
        requires
            old(self).state == SessionState::Handshaking,
        ensures
            final(self).state == handshake_next(frame@),
            final(self).sent_frames == old(self).sent_frames,
            final(self).recv_frames@ == old(self).recv_frames@ + 1,
            r == handshake_outcome(frame@),
    {
        proof {
            self.recv_frames@ = self.recv_frames@ + 1;
        }
        let r: Result<(), SessionError> = match &frame {
            Frame::Binary(b) => match parse_envelope(b.as_slice()) {
                Ok(env) => match env.opcode {
                    Opcode::Ready => Ok(()),
                    Opcode::Authenticate => Err(SessionError::Unsupported),
                    _ => Err(SessionError::ProtocolViolation),
                },
                Err(e) => Err(e),
            },
            _ => Err(SessionError::ProtocolViolation),
        };
        match &r {
            Ok(_) => {
                self.state = SessionState::Ready;
            },
            Err(_) => {
                self.state = SessionState::Closed;
            },
        }
        r
    }

    /// Encodes one query with default parameters as the single outbound
    /// frame of a request, and leaves the engine awaiting the single reply.
    /// The length bound is the four-byte length field's machine limit.
    pub fn query_request(&mut self, query: &str) -> (frame: Vec<u8>)
        requires
            query_send_allowed(old(self).state),
            query.spec_bytes().len() <= 0x7FFFFFFF,
        ensures
            final(self).state == SessionState::AwaitingResult,
            final(self).sent_frames@ == old(self).sent_frames@ + 1,
            final(self).recv_frames == old(self).recv_frames,
            frame@ == encoded(query_envelope(query.spec_bytes())),
    {
        proof {
            self.sent_frames@ = self.sent_frames@ + 1;
        }
        let qb: &[u8] = query.as_bytes();
        let mut body: Vec<u8> = Vec::new();
        push_u32_be(&mut body, qb.len() as u32);
        let mut i: usize = 0;
        while i < qb.len()
            invariant
                i <= qb@.len(),
                qb@ == query.spec_bytes(),
                qb@.len() <= 0x7FFFFFFF,
                body@ == u32_be(qb@.len() as u32) + qb@.subrange(0, i as int),
            decreases qb@.len() - i,
        {
            body.push(qb[i]);
            assert(body@ =~= u32_be(qb@.len() as u32) + qb@.subrange(0, i + 1 as int));
            i = i + 1;
        }
        body.push(0x00);
        body.push(0x01);
        body.push(0x00);
        assert(qb@.subrange(0, qb@.len() as int) =~= qb@);
        assert(body@ =~= query_body(query.spec_bytes()));
        let env = Envelope {
            version: REQUEST_VERSION,
            stream: 0,
            opcode: Opcode::Query,
            body,
        };
        assert(env@ =~= query_envelope(query.spec_bytes()));
        self.state = SessionState::AwaitingResult;
        encode_envelope(&env)
    }

    /// Consumes the one reply to an outstanding query: the typed table of a
    /// rows result, decoded with the column order and types of the reply's
    /// own metadata. On success the engine is Ready for the next query.
    pub fn query_reply(&mut self, frame: Frame) -> (r: Result<Vec<Vec<Value>>, SessionError>)
        requires
            reply_consume_allowed(old(self).state),
        ensures
            final(self).state == query_reply_next(frame@),
            final(self).sent_frames == old(self).sent_frames,
            final(self).recv_frames@ == old(self).recv_frames@ + 1,
            match r {
                Ok(table) => query_reply_table(frame@) == Ok::<Seq<Seq<ValueModel>>, SessionError>(
                    table.deep_view(),
                ),
                Err(e) => query_reply_table(frame@) == Err::<Seq<Seq<ValueModel>>, SessionError>(
                    e,
                ),
            },
    {
        proof {
            self.recv_frames@ = self.recv_frames@ + 1;
        }
        let r: Result<Vec<Vec<Value>>, SessionError> = match &frame {
            Frame::Binary(b) => match parse_envelope(b.as_slice()) {
                Ok(env) => match env.opcode {
                    Opcode::ResultMsg => rows_table(env.body.as_slice()),
                    _ => Err(SessionError::ProtocolViolation),
                },
                Err(e) => Err(e),
            },
            _ => Err(SessionError::ProtocolViolation),
        };
        match &r {
            Ok(_) => {
                self.state = SessionState::Ready;
            },
            Err(_) => {
                self.state = SessionState::Closed;
            },
        }
        r
    }
}

// ---------------------------------------------------------------------------
// Laws.
// ---------------------------------------------------------------------------

/// A successful connect reaches Ready after exactly one handshake round
/// trip: requesting the startup frame leaves the state unchanged, and the
/// one reply moves the engine to Ready exactly when it is a ready envelope —
/// no other reply reaches Ready.
pub proof fn lemma_connect_reaches_ready(f: FrameModel)
    ensures
        handshake_outcome(f) is Ok ==> handshake_next(f) == SessionState::Ready,
        handshake_next(f) == SessionState::Ready ==> (f matches FrameModel::Binary(b)
            && parse_envelope_spec(b) is Some && parse_envelope_spec(b).unwrap().opcode
            == Opcode::Ready),
{
}

/// Exactly one request is in flight per query: a query may be sent only in
/// Ready; the engine then awaits the result, where no second query may be
/// sent; and consuming the single reply is the only way back to Ready.
pub proof fn lemma_one_request_in_flight()
    ensures
        forall|s: SessionState| query_send_allowed(s) <==> s == SessionState::Ready,
        !query_send_allowed(SessionState::AwaitingResult),
        forall|s: SessionState| reply_consume_allowed(s) <==> s == SessionState::AwaitingResult,
        forall|f: FrameModel| #[trigger] query_reply_next(f) == SessionState::Ready ==>
            query_reply_table(f) is Ok,
        forall|f: FrameModel| query_reply_table(f) is Ok ==> #[trigger] query_reply_next(f)
            == SessionState::Ready,
{
}

/// Encoding a query envelope and decoding the bytes produced reconstructs
/// that envelope.
pub proof fn lemma_query_envelope_round_trip(q: Seq<u8>)
    requires
        q.len() <= 0x7FFFFFFF,
    ensures
        parse_envelope_spec(encoded(query_envelope(q))) == Some(query_envelope(q)),
{
    crate::envelope::lemma_envelope_round_trip(query_envelope(q));
}

} // verus!
