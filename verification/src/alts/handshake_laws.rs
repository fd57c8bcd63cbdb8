//! What holds of whole handshakes.

use crate::alts::handshaker::outcome_of;
use crate::alts::handshaker::peer_step;
use crate::alts::handshaker::reports_error;
use crate::alts::handshaker::service_step;
use crate::alts::handshaker::unconsumed;
use crate::alts::handshaker::HandshakeError;
use crate::alts::handshaker::HandshakerResp;
use crate::alts::handshaker::IdentityOneof;
use crate::alts::handshaker::OutcomeView;
use crate::alts::handshaker::ServiceEvent;
use vstd::prelude::*;

verus! {

/// How far a handshake has come.
pub enum HandshakeEnd {
    /// It goes on.
    Pending,
    /// It has failed.
    Failed(HandshakeError),
    /// It is complete.
    Done(OutcomeView),
}

/// What a run of a handshake comes to.
pub struct HandshakeRun {
    /// The bytes that were written to the peer, in order.
    pub written: Seq<u8>,
    /// The chunks of the peer that were handed to the service, in order.
    pub handed: Seq<Seq<u8>>,
    /// How far the handshake has come.
    pub end: HandshakeEnd,
}

/// A run of a handshake: what comes from the service is decided on in turn, and
/// after each response without a result the next chunk of the peer is handed
/// on. `in_bytes` is what was handed to the service last.
pub open spec fn handshake_run(
    in_bytes: Seq<u8>,
    events: Seq<ServiceEvent>,
    chunks: Seq<Seq<u8>>,
) -> HandshakeRun
    decreases events.len(),
{
    if events.len() == 0 {
        HandshakeRun { written: seq![], handed: seq![], end: HandshakeEnd::Pending }
    } else {
        match service_step(in_bytes, events[0]) {
            Err(e) => HandshakeRun {
                written: seq![],
                handed: seq![],
                end: HandshakeEnd::Failed(e),
            },
            Ok(step) => {
                let frames = match step.out_frames {
                    Some(frames) => frames,
                    None => seq![],
                };
                match step.result {
                    Some(outcome) => HandshakeRun {
                        written: frames,
                        handed: seq![],
                        end: HandshakeEnd::Done(outcome),
                    },
                    None => if chunks.len() == 0 {
                        HandshakeRun {
                            written: frames,
                            handed: seq![],
                            end: HandshakeEnd::Pending,
                        }
                    } else {
                        match peer_step(chunks[0]) {
                            Err(e) => HandshakeRun {
                                written: frames,
                                handed: seq![],
                                end: HandshakeEnd::Failed(e),
                            },
                            Ok(chunk) => {
                                let rest = handshake_run(
                                    chunk,
                                    events.drop_first(),
                                    chunks.drop_first(),
                                );
                                HandshakeRun {
                                    written: frames + rest.written,
                                    handed: seq![chunk] + rest.handed,
                                    end: rest.end,
                                }
                            },
                        }
                    },
                }
            },
        }
    }
}

/// The bytes for the peer in a series of responses, in order.
pub open spec fn all_frames(resps: Seq<HandshakerResp>) -> Seq<u8>
    decreases resps.len(),
{
    if resps.len() == 0 {
        seq![]
    } else {
        resps[0].out_frames@ + all_frames(resps.drop_first())
    }
}

/// The events of a series of responses.
pub open spec fn responses(resps: Seq<HandshakerResp>) -> Seq<ServiceEvent> {
    resps.map_values(|resp: HandshakerResp| ServiceEvent::Response(resp))
}

/// The responses and chunks of a complete handshake: no response reports an
/// error, the last one and only the last one has a result, and for each of the
/// others there is a chunk, which is not empty.
pub open spec fn is_exchange(resps: Seq<HandshakerResp>, chunks: Seq<Seq<u8>>) -> bool {
    &&& resps.len() > 0
    &&& chunks.len() == resps.len() - 1
    &&& resps.last().result is Some
    &&& forall|i: int| 0 <= i < resps.len() ==> !reports_error(#[trigger] resps[i])
    &&& forall|i: int| 0 <= i < resps.len() - 1 ==> (#[trigger] resps[i]).result is None
    &&& forall|i: int| 0 <= i < chunks.len() ==> (#[trigger] chunks[i]).len() > 0
}

/// The chunk that was handed on last, or what was handed on before.
pub open spec fn last_handed(in_bytes: Seq<u8>, chunks: Seq<Seq<u8>>) -> Seq<u8> {
    if chunks.len() == 0 {
        in_bytes
    } else {
        chunks.last()
    }
}

/// A handshake over a complete exchange, whatever would come behind it, writes
/// the frames of all responses to the peer in order, those of the last one
/// included; hands on one chunk for each response without a result, unaltered
/// and in order; and has the outcome of the response with one.
pub proof fn exchange_completes(
    in_bytes: Seq<u8>,
    resps: Seq<HandshakerResp>,
    chunks: Seq<Seq<u8>>,
    later_events: Seq<ServiceEvent>,
    later_chunks: Seq<Seq<u8>>,
)
    requires
        is_exchange(resps, chunks),
    ensures
        ({
            let run = handshake_run(
                in_bytes,
                responses(resps) + later_events,
                chunks + later_chunks,
            );
            &&& run.written == all_frames(resps)
            &&& run.handed == chunks
            &&& run.end == HandshakeEnd::Done(
                outcome_of(
                    resps.last().result->0,
                    last_handed(in_bytes, chunks),
                    resps.last().bytes_consumed as nat,
                ),
            )
        }),
    decreases resps.len(),
{
    let events = responses(resps) + later_events;
    let all_chunks = chunks + later_chunks;
    let run = handshake_run(in_bytes, events, all_chunks);
    let first = resps[0];
    let rest = resps.drop_first();
    assert(events[0] == ServiceEvent::Response(first));
    assert(!reports_error(first));
    let step = service_step(in_bytes, events[0])->Ok_0;
    let frames = match step.out_frames {
        Some(frames) => frames,
        None => seq![],
    };
    assert(frames =~= first.out_frames@);
    if resps.len() == 1 {
        assert(all_frames(rest) =~= seq![]);
        assert(run.written =~= all_frames(resps));
        assert(run.handed =~= chunks);
    } else {
        let rest_chunks = chunks.drop_first();
        assert(first.result is None);
        assert(all_chunks[0] == chunks[0]);
        assert(rest.last() == resps.last());
        assert forall|i: int| 0 <= i < rest.len() implies !reports_error(#[trigger] rest[i]) by {
            assert(rest[i] == resps[i + 1]);
        }
        assert forall|i: int| 0 <= i < rest.len() - 1 implies (#[trigger] rest[i]).result is None
            by {
            assert(rest[i] == resps[i + 1]);
        }
        assert forall|i: int| 0 <= i < rest_chunks.len() implies (#[trigger] rest_chunks[i]).len()
            > 0 by {
            assert(rest_chunks[i] == chunks[i + 1]);
        }
        exchange_completes(chunks[0], rest, rest_chunks, later_events, later_chunks);
        assert(events.drop_first() =~= responses(rest) + later_events);
        assert(all_chunks.drop_first() =~= rest_chunks + later_chunks);
        assert(run.handed =~= chunks);
    }
}

/// A handshake that is complete has been over a complete exchange: the events
/// and chunks begin with one, so the frames written, the chunks handed on and
/// the outcome are those of the exchange.
pub proof fn completed_by_exchange(
    in_bytes: Seq<u8>,
    events: Seq<ServiceEvent>,
    chunks: Seq<Seq<u8>>,
) -> (resps: Seq<HandshakerResp>)
    requires
        handshake_run(in_bytes, events, chunks).end is Done,
    ensures
        ({
            let run = handshake_run(in_bytes, events, chunks);
            &&& is_exchange(resps, run.handed)
            &&& responses(resps).is_prefix_of(events)
            &&& run.handed.is_prefix_of(chunks)
            &&& run.written == all_frames(resps)
            &&& run.end == HandshakeEnd::Done(
                outcome_of(
                    resps.last().result->0,
                    last_handed(in_bytes, run.handed),
                    resps.last().bytes_consumed as nat,
                ),
            )
        }),
    decreases events.len(),
{
    let run = handshake_run(in_bytes, events, chunks);
    let first = events[0]->Response_0;
    let step = service_step(in_bytes, events[0])->Ok_0;
    let frames = match step.out_frames {
        Some(frames) => frames,
        None => seq![],
    };
    assert(frames =~= first.out_frames@);
    if first.result is Some {
        let resps = seq![first];
        assert(all_frames(resps.drop_first()) =~= seq![]);
        assert(run.written =~= all_frames(resps));
        assert(responses(resps) =~= events.take(1));
        resps
    } else {
        let later = handshake_run(chunks[0], events.drop_first(), chunks.drop_first());
        let rest = completed_by_exchange(chunks[0], events.drop_first(), chunks.drop_first());
        let resps = seq![first] + rest;
        assert(resps.drop_first() =~= rest);
        assert(resps.last() == rest.last());
        assert(run.handed =~= seq![chunks[0]] + later.handed);
        assert(responses(resps) =~= seq![events[0]] + responses(rest));
        assert(responses(resps) =~= events.take(resps.len() as int));
        assert(run.handed =~= chunks.take(run.handed.len() as int));
        assert forall|i: int| 0 <= i < resps.len() implies !reports_error(#[trigger] resps[i]) by {
            if i > 0 {
                assert(resps[i] == rest[i - 1]);
            }
        }
        assert forall|i: int| 0 <= i < resps.len() - 1 implies (#[trigger] resps[i]).result is None
            by {
            if i > 0 {
                assert(resps[i] == rest[i - 1]);
            }
        }
        assert forall|i: int| 0 <= i < run.handed.len() implies (#[trigger] run.handed[i]).len()
            > 0 by {
            if i > 0 {
                assert(run.handed[i] == later.handed[i - 1]);
            }
        }
        resps
    }
}

/// The bytes for the peer in a series of responses are those of each response,
/// one behind the other.
pub proof fn all_frames_are_joined(resps: Seq<HandshakerResp>)
    ensures
        all_frames(resps) == resps.map_values(|resp: HandshakerResp| resp.out_frames@).flatten(),
    decreases resps.len(),
{
    let parts = resps.map_values(|resp: HandshakerResp| resp.out_frames@);
    if resps.len() > 0 {
        let rest = resps.drop_first();
        all_frames_are_joined(rest);
        assert(parts.drop_first() =~= rest.map_values(|resp: HandshakerResp| resp.out_frames@));
        assert(parts.first() == resps[0].out_frames@);
    }
}

/// What the service says in a response is what comes of it: a status other than
/// zero is the error, with its code and details; bytes for the peer go to the
/// peer as they are; and a result gives its key material, record protocol and
/// frame size as they are, the name of the peer, and the bytes handed over last
/// without those that the service consumed.
pub proof fn response_is_followed(in_bytes: Seq<u8>, resp: HandshakerResp)
    ensures
        ({
            let step = service_step(in_bytes, ServiceEvent::Response(resp));
            if resp.status is Some && resp.status->0.code != 0 {
                &&& step matches Err(HandshakeError::HandshakerError(code, details))
                &&& code == resp.status->0.code
                &&& details == resp.status->0.details
            } else {
                &&& step is Ok
                &&& step->Ok_0.out_frames is Some <==> resp.out_frames@.len() > 0
                &&& step->Ok_0.out_frames matches Some(frames) ==> frames == resp.out_frames@
                &&& step->Ok_0.result is Some <==> resp.result is Some
                &&& step->Ok_0.result matches Some(outcome) ==> {
                    let result = resp.result->0;
                    &&& outcome.key_data == result.key_data@
                    &&& outcome.record_protocol == result.record_protocol@
                    &&& outcome.max_frame_size == result.max_frame_size
                    &&& resp.bytes_consumed <= in_bytes.len() ==> outcome.unconsumed_bytes
                        == in_bytes.skip(resp.bytes_consumed as int)
                    &&& resp.bytes_consumed > in_bytes.len() ==> outcome.unconsumed_bytes.len()
                        == 0
                }
            }
        }),
{
    if resp.bytes_consumed <= in_bytes.len() {
        assert(unconsumed(in_bytes, resp.bytes_consumed as nat) =~= in_bytes.skip(
            resp.bytes_consumed as int,
        ));
    }
}

/// A stream of responses that ends or fails ends the handshake, as does a peer
/// that gives no bytes; what it gives is handed on as it is.
pub proof fn other_events_are_followed(in_bytes: Seq<u8>, text: String, chunk: Seq<u8>)
    ensures
        service_step(in_bytes, ServiceEvent::Ended) matches Err(HandshakeError::UnexpectedEnd),
        service_step(in_bytes, ServiceEvent::Failed(text)) matches Err(HandshakeError::Rpc(t)) && t
            == text,
        chunk.len() == 0 ==> peer_step(chunk) matches Err(HandshakeError::UnexpectedEnd),
        chunk.len() > 0 ==> peer_step(chunk) == Ok::<_, HandshakeError>(chunk),
{
}

/// The peer is named by its service account or its host, whichever the result
/// gives, and is not named otherwise.
pub proof fn peer_is_named_as_given(in_bytes: Seq<u8>, resp: HandshakerResp)
    requires
        resp.status is None || resp.status->0.code == 0,
        resp.result is Some,
    ensures
        ({
            let name = service_step(
                in_bytes,
                ServiceEvent::Response(resp),
            )->Ok_0.result->0.peer_identity;
            match resp.result->0.peer_identity {
                None => name is None,
                Some(identity) => match identity.identity_oneof {
                    None => name is None,
                    Some(IdentityOneof::ServiceAccount(account)) => name == Some(account@),
                    Some(IdentityOneof::Hostname(host)) => name == Some(host@),
                },
            }
        }),
{
}

/// A handshake over a complete exchange gives what the last response says, byte
/// for byte: the key material, the record protocol, the frame size, and the
/// bytes of the last chunk behind those that the service consumed. The peer has
/// been sent the frames of all responses, one behind the other.
pub proof fn exchange_gives_result(
    in_bytes: Seq<u8>,
    resps: Seq<HandshakerResp>,
    chunks: Seq<Seq<u8>>,
    later_events: Seq<ServiceEvent>,
    later_chunks: Seq<Seq<u8>>,
)
    requires
        resps.len() > 0,
        chunks.len() == resps.len() - 1,
        resps.last().result is Some,
        forall|i: int|
            0 <= i < resps.len() ==> ((#[trigger] resps[i]).status is None
                || resps[i].status->0.code == 0),
        forall|i: int| 0 <= i < resps.len() - 1 ==> (#[trigger] resps[i]).result is None,
        forall|i: int| 0 <= i < chunks.len() ==> (#[trigger] chunks[i]).len() > 0,
    ensures
        ({
            let run = handshake_run(
                in_bytes,
                resps.map_values(|resp: HandshakerResp| ServiceEvent::Response(resp))
                    + later_events,
                chunks + later_chunks,
            );
            let last = resps.last();
            let handed_last = if chunks.len() == 0 {
                in_bytes
            } else {
                chunks.last()
            };
            &&& run.written == resps.map_values(
                |resp: HandshakerResp| resp.out_frames@,
            ).flatten()
            &&& run.handed == chunks
            &&& run.end matches HandshakeEnd::Done(outcome)
            &&& outcome.key_data == last.result->0.key_data@
            &&& outcome.record_protocol == last.result->0.record_protocol@
            &&& outcome.max_frame_size == last.result->0.max_frame_size
            &&& last.bytes_consumed <= handed_last.len() ==> outcome.unconsumed_bytes
                == handed_last.skip(last.bytes_consumed as int)
            &&& last.bytes_consumed > handed_last.len() ==> outcome.unconsumed_bytes.len() == 0
        }),
{
    assert(is_exchange(resps, chunks)) by {
        assert forall|i: int| 0 <= i < resps.len() implies !reports_error(#[trigger] resps[i]) by {}
    }
    exchange_completes(in_bytes, resps, chunks, later_events, later_chunks);
    all_frames_are_joined(resps);
    response_is_followed(last_handed(in_bytes, chunks), resps.last());
}

} // verus!
