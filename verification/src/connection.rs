//! The decisions of the loop that serves one connection: what to do with
//! the bytes received so far, and how to go on after a response was
//! written.

use crate::http::{MimeType, StatusCode};
use crate::request::{outcome, parsed, Error, Request, RequestView};
use crate::response::{plain, Response, ResponseView};
use vstd::prelude::*;
use vstd::slice::slice_to_vec;
use vstd::string::StringExecFns;
use vstd::utf8::encode_utf8;

verus! {

/// What to do with the bytes received so far.
pub enum Step {
    /// Read on. Before that, reserve room for this many bytes more than the
    /// buffer has free.
    Wait { reserve: usize },
    /// The buffer holds a request: route it and write the response.
    Dispatch(Request),
    /// The buffer cannot become a request: write this response.
    Reject(Response),
}

/// How to go on after a response, or the attempt to write one.
#[derive(PartialEq, Eq, Debug, Clone, Copy, Structural)]
pub enum Next {
    /// Keep the buffer and read on.
    ReadOn,
    /// Clear the buffer and read on: the next request starts.
    ClearAndReadOn,
    /// Flush, shut the stream down and end.
    Close,
}

/// The room to reserve while the body of a request arrives: what the
/// missing bytes need beyond the free room of the buffer.
pub open spec fn room_for(error: Error, free: usize) -> usize {
    match error {
        Error::WaitingOnBody(Some(missing)) => if free < missing {
            (missing - free) as usize
        } else {
            0
        },
        _ => 0,
    }
}

/// The response that refuses a buffer: status 400 and a line of plain text
/// that names the error.
pub open spec fn refusal(error: Error) -> ResponseView {
    plain(
        StatusCode::BadRequest,
        encode_utf8("400 bad request: "@ + error.text()),
        MimeType::PlainText,
    )
}

/// What to do after a read, given what parsing the buffer gave: a request
/// is dispatched; an error that more bytes may mend waits; any other error
/// is refused.
pub open spec fn step_for(parse: Result<RequestView, Error>, free: usize, step: Step) -> bool {
    match parse {
        Ok(request) => step matches Step::Dispatch(found) && found@ == request,
        Err(error) => if error.wants_more() {
            step matches Step::Wait { reserve } && reserve == room_for(error, free)
        } else {
            step matches Step::Reject(response) && response@ == refusal(error)
        },
    }
}

/// The response that refuses a buffer for an error.
pub fn bad_request(error: Error) -> (response: Response)
    ensures
        response@ == refusal(error),
{
    let mut text = String::from_str("400 bad request: ");
    text.append(error.message());
    Response::error(StatusCode::BadRequest, slice_to_vec(text.as_str().as_bytes()))
}

/// The room to reserve before the next read.
pub fn reserve_for(error: Error, free: usize) -> (reserve: usize)
    ensures
        reserve == room_for(error, free),
{
    match error {
        Error::WaitingOnBody(Some(missing)) => if free < missing {
            missing - free
        } else {
            0
        },
        _ => 0,
    }
}

/// Decides what to do given the result of parsing the buffer and the free
/// room of the buffer.
pub fn decide(parse: Result<Request, Error>, free: usize) -> (step: Step)
    ensures
        step_for(outcome(parse), free, step),
{
    match parse {
        Ok(request) => Step::Dispatch(request),
        Err(error) => if error.is_retryable() {
            Step::Wait { reserve: reserve_for(error, free) }
        } else {
            Step::Reject(bad_request(error))
        },
    }
}

/// Decides what to do with the bytes received so far for the current
/// request; `free` is the room that the buffer has left.
pub fn on_bytes(buffer: &[u8], free: usize) -> (step: Step)
    ensures
        step_for(parsed(buffer@), free, step),
{
    decide(Request::parse(buffer), free)
}

/// Whether the peer has closed the connection: a read of no bytes says so.
pub fn peer_closed(count: usize) -> (closed: bool)
    ensures
        closed == (count == 0),
{
    count == 0
}

/// How to go on after the response to a request: where it was written, the
/// connection stays open for the next request if the request asked for
/// that, and is closed if not; where writing failed, the buffer is kept.
pub fn after_response(keep_alive: bool, written: bool) -> (next: Next)
    ensures
        next == if !written {
            Next::ReadOn
        } else if keep_alive {
            Next::ClearAndReadOn
        } else {
            Next::Close
        },
{
    if !written {
        Next::ReadOn
    } else if keep_alive {
        Next::ClearAndReadOn
    } else {
        Next::Close
    }
}

/// How to go on after the refusal of a buffer: where it was written, the
/// buffer is cleared, for its bytes cannot become a request; where writing
/// failed, the buffer is kept.
pub fn after_refusal(written: bool) -> (next: Next)
    ensures
        next == if written {
            Next::ClearAndReadOn
        } else {
            Next::ReadOn
        },
{
    if written {
        Next::ClearAndReadOn
    } else {
        Next::ReadOn
    }
}

/// A buffer that holds a request is dispatched, and no other is: nothing is
/// written for a buffer that may still become a request.
pub proof fn lemma_only_requests_are_dispatched(buffer: Seq<u8>, free: usize, step: Step)
    requires
        step_for(parsed(buffer), free, step),
    ensures
        step is Dispatch <==> parsed(buffer) is Ok,
        step is Wait <==> (parsed(buffer) matches Err(error) && error.wants_more()),
{
}

/// The bytes received so far for the current request of a connection. They
/// are kept in a `Vec`, which can be asked for room without ending the
/// process where there is none: a request may declare any length.
#[derive(Debug)]
pub struct ReceiveBuffer {
    bytes: Vec<u8>,
}

impl View for ReceiveBuffer {
    type V = Seq<u8>;

    closed spec fn view(&self) -> Seq<u8> {
        self.bytes@
    }
}

impl ReceiveBuffer {
    /// An empty buffer, with room for a first read.
    pub fn new() -> (buffer: ReceiveBuffer)
        ensures
            buffer@ == Seq::<u8>::empty(),
    {
        ReceiveBuffer { bytes: Vec::with_capacity(1024) }
    }

    /// The bytes received so far.
    pub fn bytes(&self) -> (bytes: &[u8])
        ensures
            bytes@ == self@,
    {
        self.bytes.as_slice()
    }

    /// Takes in the bytes of one read and decides what to do with all that
    /// was received so far. While a body of known length arrives, room for
    /// what is missing of it is reserved, if there is that much room to be
    /// had.
    pub fn receive(&mut self, chunk: &[u8]) -> (step: Step)
        ensures
            final(self)@ == old(self)@ + chunk@,
            step_for(
                parsed(final(self)@),
                0,
                step,
            ),
    {
        self.bytes.extend_from_slice(chunk);
        assert(self.bytes@ =~= old(self).bytes@ + chunk@);
        let step = on_bytes(self.bytes.as_slice(), 0);
        match &step {
            Step::Wait { reserve } => {
                let _ = self.bytes.try_reserve(*reserve);
            },
            _ => {},
        }
        step
    }

    /// Goes on after a response: the buffer is cleared where the next
    /// request starts, and kept where the same bytes are read on from.
    pub fn advance(&mut self, next: Next)
        ensures
            final(self)@ == match next {
                Next::ReadOn => old(self)@,
                Next::ClearAndReadOn => Seq::empty(),
                Next::Close => old(self)@,
            },
    {
        match next {
            Next::ClearAndReadOn => self.bytes.clear(),
            _ => {},
        }
    }
}

} // verus!
