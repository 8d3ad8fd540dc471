//! The protocol envelope: opcode, version, stream id and body, and its
//! byte-level encoding. The header is nine bytes — version, flags, a
//! big-endian stream id, the opcode and a big-endian body length — followed
//! by the body. This client never sets header flags, so a nonzero flags byte
//! is rejected on receipt.

use vstd::prelude::*;

use crate::wire::{be16, be32, push_u16_be, push_u32_be, read_u16_be, read_u32_be, u16_be, u32_be};
use crate::SessionError;

verus! {

/// Version byte of a request envelope.
pub const REQUEST_VERSION: u8 = 0x04;

/// Version byte of a response envelope.
pub const RESPONSE_VERSION: u8 = 0x84;

/// The envelope opcodes of the wire protocol.
#[derive(Clone, Copy, Debug, PartialEq, Eq, Structural)]
pub enum Opcode {
    ErrorMsg,
    Startup,
    Ready,
    Authenticate,
    Options,
    Supported,
    Query,
    ResultMsg,
    Prepare,
    Execute,
    Register,
    Event,
    Batch,
    AuthChallenge,
    AuthResponse,
    AuthSuccess,
}

/// The byte that stands for an opcode on the wire.
pub open spec fn opcode_byte(op: Opcode) -> u8 {
    match op {
        Opcode::ErrorMsg => 0x00,
        Opcode::Startup => 0x01,
        Opcode::Ready => 0x02,
        Opcode::Authenticate => 0x03,
        Opcode::Options => 0x05,
        Opcode::Supported => 0x06,
        Opcode::Query => 0x07,
        Opcode::ResultMsg => 0x08,
        Opcode::Prepare => 0x09,
        Opcode::Execute => 0x0A,
        Opcode::Register => 0x0B,
        Opcode::Event => 0x0C,
        Opcode::Batch => 0x0D,
        Opcode::AuthChallenge => 0x0E,
        Opcode::AuthResponse => 0x0F,
        Opcode::AuthSuccess => 0x10,
    }
}

/// The opcode a wire byte stands for, if any.
pub open spec fn opcode_of_byte(b: u8) -> Option<Opcode> {
    if b == 0x00 {
        Some(Opcode::ErrorMsg)
    } else if b == 0x01 {
        Some(Opcode::Startup)
    } else if b == 0x02 {
        Some(Opcode::Ready)
    } else if b == 0x03 {
        Some(Opcode::Authenticate)
    } else if b == 0x05 {
        Some(Opcode::Options)
    } else if b == 0x06 {
        Some(Opcode::Supported)
    } else if b == 0x07 {
        Some(Opcode::Query)
    } else if b == 0x08 {
        Some(Opcode::ResultMsg)
    } else if b == 0x09 {
        Some(Opcode::Prepare)
    } else if b == 0x0A {
        Some(Opcode::Execute)
    } else if b == 0x0B {
        Some(Opcode::Register)
    } else if b == 0x0C {
        Some(Opcode::Event)
    } else if b == 0x0D {
        Some(Opcode::Batch)
    } else if b == 0x0E {
        Some(Opcode::AuthChallenge)
    } else if b == 0x0F {
        Some(Opcode::AuthResponse)
    } else if b == 0x10 {
        Some(Opcode::AuthSuccess)
    } else {
        None
    }
}

/// The two opcode maps invert each other.
pub proof fn lemma_opcode_byte_inverse(op: Opcode)
    ensures
        opcode_of_byte(opcode_byte(op)) == Some(op),
{
}

/// Exec mirror of `opcode_byte`.
pub fn opcode_to_byte(op: Opcode) -> (b: u8)
    ensures
        b == opcode_byte(op),
{
    match op {
        Opcode::ErrorMsg => 0x00,
        Opcode::Startup => 0x01,
        Opcode::Ready => 0x02,
        Opcode::Authenticate => 0x03,
        Opcode::Options => 0x05,
        Opcode::Supported => 0x06,
        Opcode::Query => 0x07,
        Opcode::ResultMsg => 0x08,
        Opcode::Prepare => 0x09,
        Opcode::Execute => 0x0A,
        Opcode::Register => 0x0B,
        Opcode::Event => 0x0C,
        Opcode::Batch => 0x0D,
        Opcode::AuthChallenge => 0x0E,
        Opcode::AuthResponse => 0x0F,
        Opcode::AuthSuccess => 0x10,
    }
}

/// Exec mirror of `opcode_of_byte`.
pub fn byte_to_opcode(b: u8) -> (op: Option<Opcode>)
    ensures
        op == opcode_of_byte(b),
{
    if b == 0x00 {
        Some(Opcode::ErrorMsg)
    } else if b == 0x01 {
        Some(Opcode::Startup)
    } else if b == 0x02 {
        Some(Opcode::Ready)
    } else if b == 0x03 {
        Some(Opcode::Authenticate)
    } else if b == 0x05 {
        Some(Opcode::Options)
    } else if b == 0x06 {
        Some(Opcode::Supported)
    } else if b == 0x07 {
        Some(Opcode::Query)
    } else if b == 0x08 {
        Some(Opcode::ResultMsg)
    } else if b == 0x09 {
        Some(Opcode::Prepare)
    } else if b == 0x0A {
        Some(Opcode::Execute)
    } else if b == 0x0B {
        Some(Opcode::Register)
    } else if b == 0x0C {
        Some(Opcode::Event)
    } else if b == 0x0D {
        Some(Opcode::Batch)
    } else if b == 0x0E {
        Some(Opcode::AuthChallenge)
    } else if b == 0x0F {
        Some(Opcode::AuthResponse)
    } else if b == 0x10 {
        Some(Opcode::AuthSuccess)
    } else {
        None
    }
}

/// One unit of the wire protocol.
#[derive(Clone, Debug, PartialEq, Eq)]
pub struct Envelope {
    pub version: u8,
    pub stream: u16,
    pub opcode: Opcode,
    pub body: Vec<u8>,
}

/// Mathematical model of an envelope.
#[verifier::ext_equal]
pub ghost struct EnvelopeModel {
    pub version: u8,
    pub stream: u16,
    pub opcode: Opcode,
    pub body: Seq<u8>,
}

impl View for Envelope {
    type V = EnvelopeModel;

    open spec fn view(&self) -> EnvelopeModel {
        EnvelopeModel { version: self.version, stream: self.stream, opcode: self.opcode, body: self.body@ }
    }
}

/// An envelope that can stand on the wire: a known version byte and a body
/// whose length fits the four-byte length field.
pub open spec fn envelope_wf(e: EnvelopeModel) -> bool {
    &&& (e.version == REQUEST_VERSION || e.version == RESPONSE_VERSION)
    &&& e.body.len() <= 0xFFFFFFFF
}

/// The bytes of an envelope: the nine-byte header, then the body.
pub open spec fn encoded(e: EnvelopeModel) -> Seq<u8> {
    seq![e.version, 0u8] + u16_be(e.stream) + seq![opcode_byte(e.opcode)] + u32_be(
        e.body.len() as u32,
    ) + e.body
}

/// What a byte string holds when read as a single envelope. Exactly one
/// envelope must fill the string; a nonzero flags byte, an unknown version
/// or opcode byte, or a length field that does not match are all rejected.
pub open spec fn parse_envelope_spec(d: Seq<u8>) -> Option<EnvelopeModel> {
    if d.len() < 9 {
        None
    } else if !(d[0] == REQUEST_VERSION || d[0] == RESPONSE_VERSION) {
        None
    } else if d[1] != 0x00 {
        None
    } else if opcode_of_byte(d[4]) is None {
        None
    } else if be32(d[5], d[6], d[7], d[8]) + 9 != d.len() {
        None
    } else {
        Some(
            EnvelopeModel {
                version: d[0],
                stream: be16(d[2], d[3]) as u16,
                opcode: opcode_of_byte(d[4]).unwrap(),
                body: d.subrange(9, d.len() as int),
            },
        )
    }
}

/// Encodes an envelope to wire bytes.
pub fn encode_envelope(e: &Envelope) -> (out: Vec<u8>)
    requires
        envelope_wf(e@),
    ensures
        out@ == encoded(e@),
{
    let mut out: Vec<u8> = Vec::new();
    out.push(e.version);
    out.push(0x00);
    push_u16_be(&mut out, e.stream);
    out.push(opcode_to_byte(e.opcode));
    push_u32_be(&mut out, e.body.len() as u32);
    let mut i: usize = 0;
    while i < e.body.len()
        invariant
            i <= e.body.len(),
            envelope_wf(e@),
            out@ =~= seq![e.version, 0u8] + u16_be(e.stream) + seq![opcode_byte(e.opcode)] + u32_be(
                e.body.len() as u32,
            ) + e.body@.subrange(0, i as int),
        decreases e.body.len() - i,
    {
        out.push(e.body[i]);
        i = i + 1;
    }
    assert(e.body@.subrange(0, e.body@.len() as int) =~= e.body@);
    assert(out@ =~= encoded(e@));
    out
}

/// Reads a byte string as a single envelope; anything else is a protocol
/// violation.
pub fn parse_envelope(d: &[u8]) -> (r: Result<Envelope, SessionError>)
    ensures
        match r {
            Ok(env) => parse_envelope_spec(d@) == Some(env@),
            Err(e) => parse_envelope_spec(d@) is None && e == SessionError::ProtocolViolation,
        },
{
    if d.len() < 9 {
        return Err(SessionError::ProtocolViolation);
    }
    let version: u8 = d[0];
    if !(version == REQUEST_VERSION || version == RESPONSE_VERSION) {
        return Err(SessionError::ProtocolViolation);
    }
    if d[1] != 0x00 {
        return Err(SessionError::ProtocolViolation);
    }
    let opcode: Opcode = match byte_to_opcode(d[4]) {
        Some(op) => op,
        None => {
            return Err(SessionError::ProtocolViolation);
        },
    };
    let len: u32 = read_u32_be(d, 5);
    if !(len as usize == d.len() - 9) {
        return Err(SessionError::ProtocolViolation);
    }
    let stream: u16 = read_u16_be(d, 2);
    let mut body: Vec<u8> = Vec::new();
    let mut i: usize = 9;
    while i < d.len()
        invariant
            9 <= i <= d@.len(),
            body@ =~= d@.subrange(9, i as int),
        decreases d@.len() - i,
    {
        body.push(d[i]);
        i = i + 1;
    }
    let env = Envelope { version, stream, opcode, body };
    assert(env@ =~= parse_envelope_spec(d@).unwrap());
    Ok(env)
}

/// A wire byte that stands for an opcode is what that opcode encodes to.
pub proof fn lemma_opcode_of_byte_inverse(b: u8)
    requires
        opcode_of_byte(b) is Some,
    ensures
        opcode_byte(opcode_of_byte(b).unwrap()) == b,
{
}

/// The other direction of the round trip: a byte string that parses as an
/// envelope is exactly that envelope's encoding, so the encoding is the one
/// byte form of every well-formed envelope.
pub proof fn lemma_encode_after_parse(d: Seq<u8>, e: EnvelopeModel)
    requires
        parse_envelope_spec(d) == Some(e),
    ensures
        envelope_wf(e),
        encoded(e) == d,
{
    crate::wire::lemma_be16_bytes(d[2], d[3]);
    crate::wire::lemma_be32_bytes(d[5], d[6], d[7], d[8]);
    lemma_opcode_of_byte_inverse(d[4]);
    assert(e.body.len() == d.len() - 9);
    assert(encoded(e) =~= d);
}

/// Decoding the bytes an envelope encodes to reconstructs that envelope.
pub proof fn lemma_envelope_round_trip(e: EnvelopeModel)
    requires
        envelope_wf(e),
    ensures
        parse_envelope_spec(encoded(e)) == Some(e),
{
    let d = encoded(e);
    assert(d.len() == 9 + e.body.len());
    assert(d[0] == e.version);
    assert(d[1] == 0u8);
    assert(d[2] == u16_be(e.stream)[0] && d[3] == u16_be(e.stream)[1]);
    assert(d[4] == opcode_byte(e.opcode));
    assert(d[5] == u32_be(e.body.len() as u32)[0]);
    assert(d[6] == u32_be(e.body.len() as u32)[1]);
    assert(d[7] == u32_be(e.body.len() as u32)[2]);
    assert(d[8] == u32_be(e.body.len() as u32)[3]);
    crate::wire::lemma_u16_be_value(e.stream);
    crate::wire::lemma_u32_be_value(e.body.len() as u32);
    lemma_opcode_byte_inverse(e.opcode);
    assert(d.subrange(9, d.len() as int) =~= e.body);
    assert(parse_envelope_spec(d).unwrap() =~= e);
}

} // verus!
