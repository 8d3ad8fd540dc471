use cql_ws::pump::{
    reader_step, writer_close_result, writer_send_result, writer_step, Frame, SendOutcome,
    WriterDirective,
};
use cql_ws::trust::{apply_relaxed_hostname_policy, ChainVerdict};
use cql_ws::SessionError;

// --- Reader loop. ---

#[test]
fn reader_forwards_binary_frames_unchanged() {
    let r = reader_step(Frame::Binary(vec![9, 8, 7]));
    assert_eq!(r, Ok(Some(vec![9, 8, 7])));
}

#[test]
fn reader_stops_on_close_without_forwarding() {
    assert_eq!(reader_step(Frame::Close), Ok(None));
}

#[test]
fn reader_treats_other_frames_as_fatal() {
    assert_eq!(reader_step(Frame::Other), Err(SessionError::ProtocolViolation));
}

// --- Writer loop. ---

#[test]
fn writer_forwards_while_items_arrive() {
    let item = Some(Frame::Binary(vec![1]));
    assert_eq!(writer_step(&item), WriterDirective::SendItem);
}

#[test]
fn writer_closes_when_producer_side_ends() {
    assert_eq!(writer_step(&None), WriterDirective::SendCloseAndStop);
}

#[test]
fn close_after_peer_close_is_no_error() {
    assert_eq!(writer_close_result(&SendOutcome::PeerAlreadyClosed), Ok(()));
    assert_eq!(writer_close_result(&SendOutcome::Delivered), Ok(()));
}

#[test]
fn close_transport_failure_is_fatal() {
    assert_eq!(
        writer_close_result(&SendOutcome::TransportFailed),
        Err(SessionError::ProtocolViolation)
    );
}

#[test]
fn ordinary_send_failures_are_fatal() {
    assert_eq!(writer_send_result(&SendOutcome::Delivered), Ok(()));
    assert_eq!(
        writer_send_result(&SendOutcome::PeerAlreadyClosed),
        Err(SessionError::ProtocolViolation)
    );
    assert_eq!(
        writer_send_result(&SendOutcome::TransportFailed),
        Err(SessionError::ProtocolViolation)
    );
}

// --- Trust policy. ---

#[test]
fn valid_chain_with_mismatched_name_is_accepted() {
    assert!(apply_relaxed_hostname_policy(&ChainVerdict::NameMismatch));
    assert!(apply_relaxed_hostname_policy(&ChainVerdict::Valid));
}

#[test]
fn invalid_chain_is_rejected_regardless_of_name() {
    assert!(!apply_relaxed_hostname_policy(&ChainVerdict::UntrustedIssuer));
    assert!(!apply_relaxed_hostname_policy(&ChainVerdict::OtherInvalid));
}

#[test]
fn expired_certificate_is_rejected_even_with_matching_name() {
    assert!(!apply_relaxed_hostname_policy(&ChainVerdict::Expired));
}
