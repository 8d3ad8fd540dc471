//! Connection setup helpers: the host part of the request address, the
//! upgrade request headers, and the PEM trust roots. The socket, the TLS
//! context and the upgrade itself live outside the library; what is decided
//! here — which host, which headers, which roots — is verified.

use vstd::prelude::*;

use crate::SessionError;

verus! {

/// The authority component of a request address, as UTF-8 bytes; None when
/// the text does not parse as a URI or has no authority.
pub uninterp spec fn authority_of(uri: Seq<char>) -> Option<Seq<u8>>;

/// Relies on http's Uri parser for the authority component of an address;
/// the result is a function of the text alone.
#[verifier::external_body]
fn uri_authority(uri: &str) -> (r: Option<Vec<u8>>)
    ensures
        match r {
            Some(a) => authority_of(uri@) == Some(a@),
            None => authority_of(uri@) is None,
        },
{
    match uri.parse::<http::Uri>() {
        Ok(u) => u.authority().map(|a| a.as_str().as_bytes().to_vec()),
        Err(_) => None,
    }
}

/// Whether an authority carries a user-info part before an '@'.
pub open spec fn has_at(a: Seq<u8>) -> bool {
    exists|i: int| 0 <= i < a.len() && a[i] == 0x40
}

/// The position of the first '@' of an authority.
pub open spec fn first_at(a: Seq<u8>) -> int
    decreases a.len(),
{
    if a.len() == 0 {
        0
    } else if a[0] == 0x40 {
        0
    } else {
        1 + first_at(a.drop_first())
    }
}

/// The host part of an authority: everything after the first '@', or the
/// whole authority when there is none.
pub open spec fn host_of(a: Seq<u8>) -> Seq<u8> {
    if has_at(a) {
        a.subrange(first_at(a) + 1, a.len() as int)
    } else {
        a
    }
}

proof fn lemma_first_at(a: Seq<u8>, i: int)
    requires
        0 <= i < a.len(),
        a[i] == 0x40,
        forall|k: int| 0 <= k < i ==> a[k] != 0x40,
    ensures
        has_at(a),
        first_at(a) == i,
    decreases i,
{
    assert(has_at(a));
    if a[0] == 0x40 {
        assert(i == 0);
    } else {
        let t = a.drop_first();
        assert(t[i - 1] == a[i]);
        assert(forall|k: int| 0 <= k < i - 1 ==> t[k] == a[k + 1] && a[k + 1] != 0x40);
        lemma_first_at(t, i - 1);
    }
}

/// Extracts the host bytes of an authority; an empty host is a setup
/// failure.
pub fn host_of_authority(authority: &[u8]) -> (r: Result<Vec<u8>, SessionError>)
    ensures
        match r {
            Ok(h) => h@ == host_of(authority@) && h@.len() > 0,
            Err(e) => e == SessionError::SetupFailure && host_of(authority@).len() == 0,
        },
{
    let n = authority.len();
    let mut idx: usize = 0;
    let mut found: bool = false;
    while idx < n && !found
        invariant
            n == authority@.len(),
            idx <= n,
            !found ==> forall|k: int| 0 <= k < idx ==> authority@[k] != 0x40,
            found ==> idx < n && authority@[idx as int] == 0x40 && (forall|k: int|
                0 <= k < idx ==> authority@[k] != 0x40),
        decreases n - idx + (if found { 0int } else { 1int }),
    {
        if authority[idx] == 0x40 {
            found = true;
        } else {
            idx = idx + 1;
        }
    }
    let host: Vec<u8> = if found {
        proof {
            lemma_first_at(authority@, idx as int);
        }
        crate::rows::copy_range(authority, idx + 1, n)
    } else {
        assert(!has_at(authority@));
        let h = crate::rows::copy_range(authority, 0, n);
        assert(h@ =~= authority@);
        h
    };
    if host.len() == 0 {
        Err(SessionError::SetupFailure)
    } else {
        Ok(host)
    }
}

/// The host part of a request address: the authority of the URI with any
/// user info removed. Setup fails when the address does not parse, has no
/// authority, or has an empty host.
pub fn ws_host(uri: &str) -> (r: Result<Vec<u8>, SessionError>)
    ensures
        match r {
            Ok(h) => authority_of(uri@) matches Some(a) && h@ == host_of(a) && h@.len() > 0,
            Err(e) => e == SessionError::SetupFailure && (authority_of(uri@) is None
                || (authority_of(uri@) matches Some(a) && host_of(a).len() == 0)),
        },
{
    match uri_authority(uri) {
        Some(a) => host_of_authority(a.as_slice()),
        None => Err(SessionError::SetupFailure),
    }
}

/// Relies on tungstenite's generate_key: a fresh random Sec-WebSocket-Key,
/// the base64 text of 16 random bytes, always 24 characters.
#[verifier::external_body]
fn fresh_ws_key() -> (k: String)
    ensures
        k@.len() == 24,
{
    tokio_tungstenite::tungstenite::handshake::client::generate_key()
}

/// The header list of the tunnel upgrade request: Host, the upgrade
/// headers, a fresh random key, and optionally the sub-protocol header that
/// advertises the carried protocol.
pub fn upgrade_headers(host: &str, with_subprotocol: bool) -> (h: Vec<(String, String)>)
    ensures
        h@.len() == (if with_subprotocol { 6int } else { 5int }),
        h@[0].0@ == "Host"@ && h@[0].1@ == host@,
        h@[1].0@ == "Connection"@ && h@[1].1@ == "Upgrade"@,
        h@[2].0@ == "Upgrade"@ && h@[2].1@ == "websocket"@,
        h@[3].0@ == "Sec-WebSocket-Version"@ && h@[3].1@ == "13"@,
        h@[4].0@ == "Sec-WebSocket-Key"@ && h@[4].1@.len() == 24,
        with_subprotocol ==> h@[5].0@ == "Sec-WebSocket-Protocol"@ && h@[5].1@ == "cql"@,
{
    let mut h: Vec<(String, String)> = Vec::new();
    h.push(("Host".to_owned(), host.to_owned()));
    h.push(("Connection".to_owned(), "Upgrade".to_owned()));
    h.push(("Upgrade".to_owned(), "websocket".to_owned()));
    h.push(("Sec-WebSocket-Version".to_owned(), "13".to_owned()));
    h.push(("Sec-WebSocket-Key".to_owned(), fresh_ws_key()));
    if with_subprotocol {
        h.push(("Sec-WebSocket-Protocol".to_owned(), "cql".to_owned()));
    }
    h
}

/// The DER bytes of each certificate section of a PEM text, in order; None
/// when the text is malformed.
pub uninterp spec fn pem_certs_of(pem: Seq<u8>) -> Option<Seq<Seq<u8>>>;

/// Relies on rustls-pemfile's certs: every CERTIFICATE section of a PEM
/// text as DER bytes, in order of appearance; the result is a function of
/// the bytes alone.
#[verifier::external_body]
fn pem_certificates(pem: &[u8]) -> (r: Option<Vec<Vec<u8>>>)
    ensures
        match r {
            Some(cs) => pem_certs_of(pem@) == Some(cs.deep_view()),
            None => pem_certs_of(pem@) is None,
        },
{
    let mut rd = pem;
    match rustls_pemfile::certs(&mut rd) {
        Ok(cs) => Some(cs),
        Err(_) => None,
    }
}

/// Decodes the trust roots for a TLS connection from PEM text; unparsable
/// text is a setup failure, surfaced before any connection is attempted.
pub fn decode_trust_roots(pem: &[u8]) -> (r: Result<Vec<Vec<u8>>, SessionError>)
    ensures
        match r {
            Ok(cs) => pem_certs_of(pem@) == Some(cs.deep_view()),
            Err(e) => e == SessionError::SetupFailure && pem_certs_of(pem@) is None,
        },
{
    match pem_certificates(pem) {
        Some(cs) => Ok(cs),
        None => Err(SessionError::SetupFailure),
    }
}

} // verus!
