//! The transport pump decisions: what the reader loop does with each
//! incoming transport frame, and what the writer loop does with each queue
//! item and with the outcome of its final close.
//!
//! The loops themselves are scheduling and socket work and live outside the
//! library; every decision they take is a function here.

use vstd::prelude::*;

use crate::SessionError;

verus! {

/// One transport frame as the tunnel delivers it: a binary payload, a close,
/// or any other frame kind (text, ping and the like).
#[derive(Clone, Debug, PartialEq, Eq)]
pub enum Frame {
    Binary(Vec<u8>),
    Close,
    Other,
}

/// Mathematical model of a transport frame.
#[verifier::ext_equal]
pub ghost enum FrameModel {
    Binary(Seq<u8>),
    Close,
    Other,
}

impl View for Frame {
    type V = FrameModel;

    open spec fn view(&self) -> FrameModel {
        match self {
            Frame::Binary(b) => FrameModel::Binary(b@),
            Frame::Close => FrameModel::Close,
            Frame::Other => FrameModel::Other,
        }
    }
}

impl DeepView for Frame {
    type V = FrameModel;

    open spec fn deep_view(&self) -> FrameModel {
        self.view()
    }
}

/// What the reader loop does with one incoming frame: a binary frame is
/// forwarded inward unchanged, a close frame ends the loop cleanly and
/// forwards nothing, and any other frame kind is a fatal protocol violation.
pub fn reader_step(frame: Frame) -> (r: Result<Option<Vec<u8>>, SessionError>)
    ensures
        frame@ matches FrameModel::Binary(b) ==> (r matches Ok(p) && p matches Some(v) && v@
            == b),
        frame@ == FrameModel::Close ==> r == Ok::<Option<Vec<u8>>, SessionError>(None),
        frame@ == FrameModel::Other ==> r == Err::<Option<Vec<u8>>, SessionError>(
            SessionError::ProtocolViolation,
        ),
{
    match frame {
        Frame::Binary(b) => Ok(Some(b)),
        Frame::Close => Ok(None),
        Frame::Other => Err(SessionError::ProtocolViolation),
    }
}

/// What the writer loop does next.
#[derive(Clone, Copy, Debug, PartialEq, Eq, Structural)]
pub enum WriterDirective {
    /// Send the dequeued frame and keep running.
    SendItem,
    /// The producer side is closed: send a close frame and stop.
    SendCloseAndStop,
}

/// What the writer loop does with one take from the outbound queue: an item
/// is sent on; the end of the queue (no producer will ever send again) turns
/// into a close frame and clean termination.
pub fn writer_step(item: &Option<Frame>) -> (d: WriterDirective)
    ensures
        d == WriterDirective::SendItem <==> item is Some,
{
    match item {
        Some(_) => WriterDirective::SendItem,
        None => WriterDirective::SendCloseAndStop,
    }
}

/// How a transport send ended.
#[derive(Clone, Copy, Debug, PartialEq, Eq, Structural)]
pub enum SendOutcome {
    /// The frame went out.
    Delivered,
    /// The peer had already closed the tunnel, so nothing could go out.
    PeerAlreadyClosed,
    /// The transport failed for any other reason.
    TransportFailed,
}

/// Classifies the outcome of sending an ordinary outbound frame: anything
/// but delivery is fatal.
pub fn writer_send_result(o: &SendOutcome) -> (r: Result<(), SessionError>)
    ensures
        r is Ok <==> *o == SendOutcome::Delivered,
        r is Err ==> r == Err::<(), SessionError>(SessionError::ProtocolViolation),
{
    match o {
        SendOutcome::Delivered => Ok(()),
        SendOutcome::PeerAlreadyClosed => Err(SessionError::ProtocolViolation),
        SendOutcome::TransportFailed => Err(SessionError::ProtocolViolation),
    }
}

/// Classifies the outcome of the writer's final close frame: a close that
/// fails only because the peer already closed is the expected race and no
/// error; any other failure is fatal.
pub fn writer_close_result(o: &SendOutcome) -> (r: Result<(), SessionError>)
    ensures
        r is Ok <==> (*o == SendOutcome::Delivered || *o == SendOutcome::PeerAlreadyClosed),
        r is Err ==> r == Err::<(), SessionError>(SessionError::ProtocolViolation),
{
    match o {
        SendOutcome::Delivered => Ok(()),
        SendOutcome::PeerAlreadyClosed => Ok(()),
        SendOutcome::TransportFailed => Err(SessionError::ProtocolViolation),
    }
}

} // verus!
