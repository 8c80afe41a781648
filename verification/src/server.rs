//! Per-connection decision logic of the two loops.
//!
//! The request loop reads frames, decrypts and decodes them, and dispatches
//! requests to the handler layer; the response loop drains the bounded queue
//! and seals answers. The reads, writes and waits themselves are suspension
//! points outside the library; these step functions take what came in and
//! say, exactly, what to do next. Whatever ends a request loop — clean
//! close, transport failure, bad frame, handler failure — the caller must
//! then clean up the client's server state exactly once.

use crate::codec::{open_of, spec_nonce_of, TAG_LEN};
use crate::message::{entries_view, spec_msg_decode, spec_msg_encode, Request, Response};
use crate::transport::{TransportReadHalf, TransportWriteHalf};
use vstd::prelude::*;

verus! {

/// What the raw stream produced for the request loop.
pub enum ReadEvent {
    /// One whole frame payload, length prefix already stripped.
    Payload(Vec<u8>),
    /// The peer closed the stream cleanly.
    CleanEof,
    /// The read failed at the network level.
    ReadError,
}

/// Why a request loop ends. Every reason leads to the same cleanup; none
/// takes the server down.
#[derive(Clone, Copy, Debug, PartialEq, Eq, Structural)]
pub enum StopReason {
    /// The peer closed cleanly.
    CleanClose,
    /// A network-level read failure; not retried.
    Io,
    /// The frame did not decrypt; fatal, never retried on the same bytes.
    Decrypt,
    /// The frame decrypted but held no well-formed request: the peer speaks
    /// another protocol.
    Protocol,
}

/// The request loop's next move.
pub enum RequestStep {
    /// Hand this request to the handler layer.
    Dispatch(Request),
    /// End the loop and clean up the client's state.
    Stop(StopReason),
}

/// What one received payload opens to on this read half, if anything.
pub open spec fn spec_read_outcome(rx: TransportReadHalf, p: Seq<u8>) -> Option<Seq<u8>> {
    match rx.codec {
        Some(c) => if p.len() >= TAG_LEN {
            open_of(c.key@, spec_nonce_of(c.nonce_prefix@, rx.seq), p)
        } else {
            None
        },
        None => Some(p),
    }
}

/// One turn of the request loop: from what the stream produced to what to do
/// next. A clean end of stream and a read error stop the loop with the
/// counter untouched; a payload is opened as the next expected frame and
/// decoded, moving the counter forward exactly when it opens.
pub fn request_loop_step(rx: &mut TransportReadHalf, ev: ReadEvent) -> (r: RequestStep)
    requires
        old(rx).wf(),
        old(rx).seq < u64::MAX,
    ensures
        final (rx).wf(),
        final (rx).codec == old(rx).codec,
        ev is CleanEof ==> r == RequestStep::Stop(StopReason::CleanClose) && *final (rx) == *old(
            rx,
        ),
        ev is ReadError ==> r == RequestStep::Stop(StopReason::Io) && *final (rx) == *old(rx),
        ev matches ReadEvent::Payload(p) ==> {
            let outcome = spec_read_outcome(*old(rx), p@);
            &&& outcome is None ==> r == RequestStep::Stop(StopReason::Decrypt) && *final (rx)
                == *old(rx)
            &&& outcome is Some ==> {
                let pt = outcome->0;
                &&& final (rx).seq == old(rx).seq + 1
                &&& spec_msg_decode(pt) is None ==> r == RequestStep::Stop(StopReason::Protocol)
                &&& spec_msg_decode(pt) is Some ==> {
                    let want = spec_msg_decode(pt)->0;
                    &&& r is Dispatch
                    &&& r->Dispatch_0.id == want.0
                    &&& entries_view(r->Dispatch_0.payload@) == want.1
                }
            }
        },
{
    match ev {
        ReadEvent::CleanEof => RequestStep::Stop(StopReason::CleanClose),
        ReadEvent::ReadError => RequestStep::Stop(StopReason::Io),
        ReadEvent::Payload(p) => {
            let plain = match rx.accept_payload(&p) {
                Ok(pt) => pt,
                Err(_) => {
                    return RequestStep::Stop(StopReason::Decrypt);
                },
            };
            match Request::from_frame(&plain) {
                Ok(req) => RequestStep::Dispatch(req),
                Err(_) => RequestStep::Stop(StopReason::Protocol),
            }
        },
    }
}

/// The response loop's next move.
pub enum SendStep {
    /// Write this whole wire frame; a partial write abandons the transport.
    Write(Vec<u8>),
    /// The queue is closed: the request loop and all handlers are done, so
    /// the loop ends.
    Finished,
}

/// One turn of the response loop: from the next queued response — or the
/// queue's closing — to what to write. Responses go out in queue order,
/// each sealed as the next frame of the write direction.
pub fn response_loop_step(tx: &mut TransportWriteHalf, item: Option<Response>) -> (r: SendStep)
    requires
        old(tx).wf(),
        old(tx).seq < u64::MAX,
        item matches Some(resp) ==> resp.wf(),
    ensures
        final (tx).wf(),
        final (tx).codec == old(tx).codec,
        item is None ==> r is Finished && *final (tx) == *old(tx),
        item matches Some(resp) ==> {
            let env = spec_msg_encode(resp.id, entries_view(resp.payload@));
            &&& r is Write
            &&& final (tx).seq == old(tx).seq + 1
            &&& {
                let payload = r->Write_0@.skip(4);
                &&& r->Write_0@ =~= crate::wire::spec_frame(payload)
                &&& match old(tx).codec {
                    Some(c) => payload.len() == env.len() + TAG_LEN && open_of(
                        c.key@,
                        spec_nonce_of(c.nonce_prefix@, old(tx).seq),
                        payload,
                    ) == Some(env),
                    None => payload =~= env,
                }
            }
        },
{
    match item {
        None => SendStep::Finished,
        Some(resp) => {
            let env = resp.to_frame();
            match tx.prepare_send(&env) {
                Ok(framed) => SendStep::Write(framed),
                Err(_) => {
                    proof {
                        assert(false);
                    }
                    SendStep::Finished
                },
            }
        },
    }
}

} // verus!
