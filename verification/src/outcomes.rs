//! What each piece of work on a request leads to, whatever else the exchange holds.

use vstd::prelude::*;

use crate::exchange::{
    EventView, ExchangeView, ForwardView, PacketView, Policy, RejectionView, StageView,
};
use crate::interceptor::{Interceptor, InterceptorService};

verus! {

// ---------------------------------------------------------------------------------------
// Failures
// ---------------------------------------------------------------------------------------
/// The exchange is over, and the request was answered with this status and message.
pub open spec fn told(x: ExchangeView, status: u16, message: Seq<char>) -> bool {
    x.stage == (StageView::Rejected { rejection: RejectionView { status, message } })
}

/// Work on a request that fails ends the exchange: the request is answered with the status of
/// that failure, whatever the stage holds and whatever comes in later. A reason that the work
/// gave is handed on as it is.
pub proof fn failed_work_is_refused(x: ExchangeView, answer: EventView, later: Seq<EventView>)
    ensures
        x.stage is Reading ==> (answer matches EventView::Read(Err(reason)) ==> told(
            x.next(answer).run(later),
            400,
            reason,
        )),
        x.stage is Decoding ==> (answer matches EventView::Decoded(Some(packet)) ==> (
        packet.client_pk.len() != 32 ==> told(
            x.next(answer).run(later),
            400,
            "client_pk must be 32 bytes"@,
        ))),
        x.stage is AskingRedis && answer == EventView::RedisReplied(None) ==> told(
            x.next(answer).run(later),
            500,
            "replay store unavailable"@,
        ),
        x.stage is AskingRedis && answer == EventView::RedisReplied(Some(None)) ==> told(
            x.next(answer).run(later),
            401,
            "replay detected"@,
        ),
        x.stage is AskingMemory && answer == EventView::MemoryReplied(false) ==> told(
            x.next(answer).run(later),
            401,
            "replay detected"@,
        ),
        x.stage is Agreeing ==> (answer matches EventView::Agreed(Err(reason)) ==> told(
            x.next(answer).run(later),
            401,
            reason,
        )),
        x.stage is Agreeing ==> (answer matches EventView::Agreed(Ok((secret, server_pk))) ==> (
        secret.len() != 32 ==> told(
            x.next(answer).run(later),
            500,
            "shared secret length invalid"@,
        ))),
        x.stage is Unwrapping ==> (answer matches EventView::Unwrapped(Err(reason)) ==> told(
            x.next(answer).run(later),
            401,
            reason,
        )),
        x.stage is Unwrapping ==> (answer matches EventView::Unwrapped(Ok(enc_key)) ==> (
        enc_key.len() != 32 ==> told(
            x.next(answer).run(later),
            400,
            "enc_key must be 32 bytes"@,
        ))),
        x.stage is Opening ==> (answer matches EventView::Opened(Err(reason)) ==> told(
            x.next(answer).run(later),
            400,
            reason,
        )),
        x.stage is Unpacking && answer == EventView::Unpacked(None) ==> told(
            x.next(answer).run(later),
            400,
            "payload msgpack decode failed"@,
        ),
        x.stage is Inflating && answer == EventView::Inflated(false) ==> told(
            x.next(answer).run(later),
            413,
            "decompressed payload exceeds limit"@,
        ),
        x.stage is Collecting && answer == EventView::Collected(None) ==> told(
            x.next(answer).run(later),
            500,
            "body collect failed"@,
        ),
{
    if x.next(answer).stage is Rejected {
        crate::laws::ended_exchange_stays(x.next(answer), later);
    }
}

/// A request is refused only for one of the failures: no other answer ends an exchange with a
/// refusal.
pub proof fn only_failed_work_is_refused(x: ExchangeView, answer: EventView)
    requires
        x.stage !is Rejected,
        x.next(answer).stage is Rejected,
    ensures
        match (x.stage, answer) {
            (StageView::Reading { raw }, EventView::Read(Ok(Some(chunk)))) => raw.len()
                + chunk.len() > x.policy.max_body_bytes,
            (StageView::Reading { .. }, EventView::Read(Err(_))) => true,
            (StageView::Decoding { .. }, EventView::Decoded(Some(packet))) =>
                packet.client_pk.len() != 32,
            (StageView::AskingRedis { .. }, EventView::RedisReplied(None)) => true,
            (StageView::AskingRedis { .. }, EventView::RedisReplied(Some(None))) => true,
            (StageView::AskingMemory { .. }, EventView::MemoryReplied(new)) => !new,
            (StageView::Agreeing { .. }, EventView::Agreed(Err(_))) => true,
            (StageView::Agreeing { .. }, EventView::Agreed(Ok((secret, _)))) => secret.len() != 32,
            (StageView::Unwrapping { .. }, EventView::Unwrapped(Err(_))) => true,
            (StageView::Unwrapping { .. }, EventView::Unwrapped(Ok(enc_key))) => enc_key.len()
                != 32,
            (StageView::Opening { .. }, EventView::Opened(Err(_))) => true,
            (StageView::Unpacking { .. }, EventView::Unpacked(None)) => true,
            (StageView::Inflating { .. }, EventView::Inflated(fits)) => !fits,
            (StageView::Collecting { .. }, EventView::Collected(None)) => true,
            _ => false,
        },
{
}

// ---------------------------------------------------------------------------------------
// Ways to the inner service
// ---------------------------------------------------------------------------------------
/// Three ways lead to the inner service once the body is being read: an empty body takes the
/// request there as it came in, a body that is no packet takes it there with that very body, and a
/// payload that decompresses within the limit takes it there decrypted, with its session key.
pub proof fn three_ways_lead_to_the_inner_service(x: ExchangeView, answer: EventView)
    requires
        x.stage !is Handling,
        x.next(answer).stage is Handling,
    ensures
        match x.next(answer).stage->forward {
            ForwardView::AsReceived => {
                &&& x.stage matches StageView::Reading { raw }
                &&& raw.len() == 0
                &&& answer == EventView::Read(Ok(None))
                &&& x.next(answer).session_keys == x.session_keys
            },
            ForwardView::Restored { raw } => {
                &&& x.stage == StageView::Decoding { raw }
                &&& answer == EventView::Decoded(None)
                &&& x.next(answer).session_keys == x.session_keys
            },
            ForwardView::Decrypted { body } => {
                &&& x.stage matches StageView::Inflating { enc_key, decrypted, compressed, limit }
                &&& body == decrypted
                &&& answer == EventView::Inflated(true)
                &&& x.next(answer).session_keys == Some(enc_key)
            },
        },
{
}

/// The stage comes after a packet was decoded.
spec fn past_decoding(stage: StageView) -> bool {
    match stage {
        StageView::Reading { .. } => false,
        StageView::Decoding { .. } => false,
        StageView::Handling { forward } => forward is Decrypted,
        _ => true,
    }
}

proof fn lemma_past_decoding(x: ExchangeView, later: Seq<EventView>)
    requires
        past_decoding(x.stage),
    ensures
        past_decoding(x.run(later).stage),
    decreases later.len(),
{
    if later.len() > 0 {
        lemma_past_decoding(x, later.drop_last());
    }
}

/// Once a packet has been decoded, the request reaches the inner service decrypted or not at all:
/// neither the packet itself nor an empty body is ever passed on in its place.
pub proof fn decoded_packet_is_never_passed_on(
    x: ExchangeView,
    packet: PacketView,
    later: Seq<EventView>,
)
    requires
        x.stage is Decoding,
    ensures
        x.next(EventView::Decoded(Some(packet))).run(later).stage matches StageView::Handling {
            forward,
        } ==> forward is Decrypted,
        x.next(EventView::Decoded(Some(packet))).run(later).stage !is Reading,
        x.next(EventView::Decoded(Some(packet))).run(later).stage !is Decoding,
{
    lemma_past_decoding(x.next(EventView::Decoded(Some(packet))), later);
}

/// In every exchange, a request that reaches the inner service as it came in has a body that was
/// not read or that was read to its end and was empty, and one that reaches it with a body put
/// back has the body that was found to be no packet.
pub proof fn passed_on_requests_hold_no_packet(
    policy: Policy,
    method: Seq<char>,
    session_keys: Option<Seq<u8>>,
    events: Seq<EventView>,
)
    ensures
        ({
            let x = ExchangeView::start(policy, method, session_keys);
            match x.run(events).stage {
                StageView::Handling { forward: ForwardView::AsReceived } => {
                    ||| x.stage == (StageView::Handling { forward: ForwardView::AsReceived })
                    ||| x.answered(
                        events,
                        StageView::Reading { raw: Seq::<u8>::empty() },
                        EventView::Read(Ok(None)),
                    )
                },
                StageView::Handling { forward: ForwardView::Restored { raw } } => x.answered(
                    events,
                    StageView::Decoding { raw },
                    EventView::Decoded(None),
                ),
                _ => true,
            }
        }),
    decreases events.len(),
{
    let x = ExchangeView::start(policy, method, session_keys);
    if events.len() > 0 {
        let before = events.drop_last();
        let last = events.last();
        passed_on_requests_hold_no_packet(policy, method, session_keys, before);
        assert(events =~= before.push(last));
        let y = x.run(before);
        if y.stage is Handling {
            match y.stage->forward {
                ForwardView::AsReceived => {
                    if x.stage !is Handling {
                        crate::laws::lemma_answered_push(
                            x,
                            before,
                            last,
                            StageView::Reading { raw: Seq::<u8>::empty() },
                            EventView::Read(Ok(None)),
                        );
                    }
                },
                ForwardView::Restored { raw } => {
                    crate::laws::lemma_answered_push(
                        x,
                        before,
                        last,
                        StageView::Decoding { raw },
                        EventView::Decoded(None),
                    );
                },
                _ => {},
            }
        } else if y.next(last).stage is Handling {
            three_ways_lead_to_the_inner_service(y, last);
            crate::laws::lemma_answered_last(x, before, last);
            if let StageView::Reading { raw } = y.stage {
                assert(raw =~= Seq::<u8>::empty());
            }
        }
    }
}

// ---------------------------------------------------------------------------------------
// Successes
// ---------------------------------------------------------------------------------------
/// A chunk that keeps the body within the limit is appended to what was read, and one that does
/// not is refused, whatever comes in later. A body read to its end goes on to be decoded as it
/// was read, unless it is empty.
pub proof fn chunks_add_up(
    x: ExchangeView,
    raw: Seq<u8>,
    chunk: Seq<u8>,
    later: Seq<EventView>,
)
    requires
        x.stage == (StageView::Reading { raw }),
    ensures
        raw.len() + chunk.len() <= x.policy.max_body_bytes ==> x.next(
            EventView::Read(Ok(Some(chunk))),
        ).stage == (StageView::Reading { raw: raw + chunk }),
        raw.len() + chunk.len() > x.policy.max_body_bytes ==> told(
            x.next(EventView::Read(Ok(Some(chunk)))).run(later),
            413,
            "request body exceeds maximum allowed size"@,
        ),
        raw.len() > 0 ==> x.next(EventView::Read(Ok(None))).stage == (StageView::Decoding { raw }),
        raw.len() == 0 ==> x.next(EventView::Read(Ok(None))).stage == (StageView::Handling {
            forward: ForwardView::AsReceived,
        }),
{
    if raw.len() + chunk.len() > x.policy.max_body_bytes {
        crate::laws::ended_exchange_stays(x.next(EventView::Read(Ok(Some(chunk)))), later);
    }
}

/// Work that succeeds leads to the next piece of work, which gets what the packet holds unaltered,
/// the result of the work before it, and the limit of the policy.
pub proof fn done_work_leads_on(x: ExchangeView, answer: EventView)
    ensures
        match (x.stage, answer) {
            (StageView::Decoding { raw }, EventView::Decoded(None)) => x.next(answer).stage == (
            StageView::Handling { forward: ForwardView::Restored { raw } }),
            (StageView::AskingRedis { packet, .. }, EventView::RedisReplied(Some(Some(_)))) => {
                &&& x.next(answer).stage matches StageView::Agreeing {
                    one_time,
                    key_id,
                    client_pk,
                    kx,
                    data,
                }
                &&& key_id == packet.key_id
                &&& client_pk == packet.client_pk
                &&& kx == packet.kx
                &&& data == packet.data
            },
            (StageView::AskingMemory { packet, .. }, EventView::MemoryReplied(true)) => {
                &&& x.next(answer).stage matches StageView::Agreeing {
                    one_time,
                    key_id,
                    client_pk,
                    kx,
                    data,
                }
                &&& key_id == packet.key_id
                &&& client_pk == packet.client_pk
                &&& kx == packet.kx
                &&& data == packet.data
            },
            (
                StageView::Agreeing { client_pk, kx, data, .. },
                EventView::Agreed(Ok((shared_secret, server_pk))),
            ) => shared_secret.len() == 32 ==> x.next(answer).stage == (StageView::Unwrapping {
                shared_secret,
                client_pk,
                server_pk,
                kx,
                data,
            }),
            (StageView::Unwrapping { data, .. }, EventView::Unwrapped(Ok(enc_key))) =>
                enc_key.len() == 32 ==> x.next(answer).stage == (StageView::Opening {
                    enc_key,
                    data,
                }),
            (StageView::Opening { enc_key, .. }, EventView::Opened(Ok(decrypted))) => x.next(
                answer,
            ).stage == (StageView::Unpacking { enc_key, decrypted }),
            (
                StageView::Unpacking { enc_key, decrypted },
                EventView::Unpacked(Some(compressed)),
            ) => x.next(answer).stage == (StageView::Inflating {
                enc_key,
                decrypted,
                compressed,
                limit: x.policy.max_decompressed_bytes as nat,
            }),
            (StageView::Inflating { decrypted, .. }, EventView::Inflated(true)) => x.next(
                answer,
            ).stage == (StageView::Handling {
                forward: ForwardView::Decrypted { body: decrypted },
            }),
            (StageView::Handling { .. }, EventView::Handled(false)) => x.next(answer).stage
                == StageView::HandlerFailed,
            (StageView::Handling { .. }, EventView::Handled(true)) => x.next(answer).stage == (
            if let Some(keys) = x.session_keys {
                StageView::Collecting { keys }
            } else {
                StageView::Untouched
            }),
            (StageView::Collecting { keys }, EventView::Collected(Some(body))) => x.next(
                answer,
            ).stage == (StageView::Sealing { keys, body }),
            (StageView::Sealing { .. }, EventView::Sealed(Some(sealed))) => x.next(answer).stage
                == (StageView::Replied { body: sealed }),
            (StageView::Sealing { body, .. }, EventView::Sealed(None)) => x.next(answer).stage == (
            StageView::Replied { body }),
            _ => true,
        },
{
}

/// No step changes the settings, and the session keys change in two steps only: a delivered
/// payload brings its own, and the response takes them.
pub proof fn settings_stay_and_keys_follow_the_payload(x: ExchangeView, answer: EventView)
    ensures
        x.next(answer).policy == x.policy,
        x.next(answer).session_keys == match (x.stage, answer) {
            (StageView::Inflating { enc_key, .. }, EventView::Inflated(true)) => Some(enc_key),
            (StageView::Handling { .. }, EventView::Handled(true)) => None,
            _ => x.session_keys,
        },
{
}

/// An exchange begins under the given settings and with the given session keys. It reads the body
/// of a POST, PUT or PATCH request, and with `allow_encrypted_get` that of a GET request; any other
/// request goes to the inner service as it came in.
pub proof fn exchange_begins_as_configured(
    policy: Policy,
    method: Seq<char>,
    session_keys: Option<Seq<u8>>,
)
    ensures
        ({
            let x = ExchangeView::start(policy, method, session_keys);
            &&& x.policy == policy
            &&& x.session_keys == session_keys
            &&& x.stage is Reading <==> (method == "POST"@ || method == "PUT"@ || method
                == "PATCH"@ || (method == "GET"@ && policy.allow_encrypted_get))
            &&& x.stage is Reading ==> x.stage == (StageView::Reading { raw: Seq::<u8>::empty() })
            &&& x.stage !is Reading ==> x.stage == (StageView::Handling {
                forward: ForwardView::AsReceived,
            })
        }),
{
}

// ---------------------------------------------------------------------------------------
// One-time keys
// ---------------------------------------------------------------------------------------
/// A packet asks for a one-time key exactly if the first three characters of its key name are
/// `hs_`, whatever follows them and however long the name is.
pub proof fn one_time_keys_go_by_their_name(packet: PacketView)
    ensures
        crate::exchange::agreement_of(packet)->one_time == (packet.key_id.len() >= 3
            && packet.key_id[0] == 'h' && packet.key_id[1] == 's' && packet.key_id[2] == '_'),
{
    reveal_strlit("hs_");
    let prefix = "hs_"@;
    assert(prefix.len() == 3 && prefix[0] == 'h' && prefix[1] == 's' && prefix[2] == '_');
    let key_id = packet.key_id;
    if key_id.len() >= 3 {
        let head = key_id.take(3);
        if key_id[0] == 'h' && key_id[1] == 's' && key_id[2] == '_' {
            assert(head =~= prefix);
        } else {
            assert(head[0] == key_id[0] && head[1] == key_id[1] && head[2] == key_id[2]);
        }
    }
}

/// Every name made of `hs_` and any text asks for a one-time key, and no other name does.
pub proof fn any_handshake_name_asks_for_a_one_time_key(packet: PacketView, text: Seq<char>)
    ensures
        packet.key_id == "hs_"@ + text ==> crate::exchange::agreement_of(packet)->one_time,
        crate::exchange::agreement_of(packet)->one_time ==> packet.key_id == "hs_"@
            + packet.key_id.skip(3),
{
    one_time_keys_go_by_their_name(packet);
    reveal_strlit("hs_");
    let prefix = "hs_"@;
    assert(prefix.len() == 3 && prefix[0] == 'h' && prefix[1] == 's' && prefix[2] == '_');
    if crate::exchange::agreement_of(packet)->one_time {
        assert(packet.key_id =~= prefix + packet.key_id.skip(3));
    }
}

/// In every exchange, the agreement that is asked for uses a one-time key exactly if the name of
/// the key begins with `hs_`.
pub proof fn agreement_uses_the_key_that_is_named(
    policy: Policy,
    method: Seq<char>,
    session_keys: Option<Seq<u8>>,
    events: Seq<EventView>,
)
    ensures
        ExchangeView::start(policy, method, session_keys).run(events).stage matches
            StageView::Agreeing { one_time, key_id, .. } ==> one_time == (key_id.len() >= 3
            && key_id[0] == 'h' && key_id[1] == 's' && key_id[2] == '_'),
    decreases events.len(),
{
    let x = ExchangeView::start(policy, method, session_keys);
    if events.len() > 0 {
        agreement_uses_the_key_that_is_named(policy, method, session_keys, events.drop_last());
        let before = x.run(events.drop_last());
        match (before.stage, events.last()) {
            (StageView::Decoding { .. }, EventView::Decoded(Some(packet))) => {
                one_time_keys_go_by_their_name(packet);
            },
            (StageView::AskingRedis { packet, .. }, _) => {
                one_time_keys_go_by_their_name(packet);
            },
            (StageView::AskingMemory { packet, .. }, _) => {
                one_time_keys_go_by_their_name(packet);
            },
            _ => {},
        }
    }
}

// ---------------------------------------------------------------------------------------
// Services
// ---------------------------------------------------------------------------------------
/// A service reads and refuses bodies by its own limits, and whether it asks Redis, the memory
/// store or neither about a packet depends on which stores it holds: Redis whenever it has a
/// connection, whatever its memory store, and the memory store only when it has no connection.
pub proof fn service_asks_the_store_that_it_holds<S, M>(
    service: InterceptorService<S, M>,
    method: Seq<char>,
    session_keys: Option<Seq<u8>>,
    events: Seq<EventView>,
    packet: PacketView,
)
    requires
        ExchangeView::start(service.policy(), method, session_keys).run(events).stage is Decoding,
        packet.client_pk.len() == 32,
    ensures
        ({
            let begun = ExchangeView::start(service.policy(), method, session_keys);
            let asked = begun.run(events.push(EventView::Decoded(Some(packet))));
            &&& service.replay_store is Some ==> (asked.stage matches StageView::AskingRedis {
                command,
                packet: asked_about,
            } && asked_about == packet)
            &&& service.replay_store is None && service.memory_replay_store is Some ==> (
            asked.stage matches StageView::AskingMemory { seen_key, packet: asked_about }
                && asked_about == packet)
            &&& service.replay_store is None && service.memory_replay_store is None ==> (
            asked.stage matches StageView::Agreeing { one_time, key_id, client_pk, kx, data }
                && key_id == packet.key_id && client_pk == packet.client_pk && kx == packet.kx
                && data == packet.data)
        }),
{
    let begun = ExchangeView::start(service.policy(), method, session_keys);
    crate::laws::lemma_run_push(begun, events, EventView::Decoded(Some(packet)));
    crate::laws::lemma_run_policy(begun, events);
}

/// In every exchange that a service begins, the memory store is asked only if the service has no
/// Redis connection, Redis only if it has one, and key agreement starts under a store only after
/// that store cleared the key.
pub proof fn service_never_skips_its_store<S, M>(
    service: InterceptorService<S, M>,
    method: Seq<char>,
    session_keys: Option<Seq<u8>>,
    before: Seq<EventView>,
    answer: EventView,
)
    ensures
        ({
            let begun = ExchangeView::start(service.policy(), method, session_keys);
            let x = begun.run(before);
            &&& x.stage is AskingRedis ==> service.replay_store is Some
            &&& x.stage is AskingMemory ==> service.replay_store is None
                && service.memory_replay_store is Some
            &&& x.stage !is Agreeing && x.next(answer).stage is Agreeing ==> {
                if service.replay_store is Some {
                    x.stage is AskingRedis && answer matches EventView::RedisReplied(Some(Some(_)))
                } else if service.memory_replay_store is Some {
                    x.stage is AskingMemory && answer == EventView::MemoryReplied(true)
                } else {
                    x.stage is Decoding
                }
            }
        }),
{
    let begun = ExchangeView::start(service.policy(), method, session_keys);
    crate::laws::redis_takes_precedence(service.policy(), method, session_keys, before);
    crate::laws::lemma_run_policy(begun, before);
}

/// A service made from an interceptor runs the inner service that it was given, and holds the
/// stores and settings of the interceptor, each as it is.
pub proof fn service_is_like_its_interceptor<S, M>(
    service: InterceptorService<S, M>,
    interceptor: Interceptor<M>,
    inner: S,
)
    requires
        service.made_from(interceptor, inner),
    ensures
        *service.service == inner,
        service.key_store == interceptor.key_store,
        service.handshake_store == interceptor.handshake_store,
        service.replay_store == interceptor.replay_store,
        service.memory_replay_store == interceptor.memory_replay_store,
        service.max_body_bytes == interceptor.max_body_bytes,
        service.max_decompressed_bytes == interceptor.max_decompressed_bytes,
        service.allow_encrypted_get == interceptor.allow_encrypted_get,
{
}

/// The limits under which a service works are the ones that it holds.
pub proof fn service_works_under_its_own_limits<S, M>(service: InterceptorService<S, M>)
    ensures
        service.policy().redis_replay <==> service.replay_store is Some,
        service.policy().memory_replay <==> service.memory_replay_store is Some,
        service.policy().max_body_bytes == service.max_body_bytes,
        service.policy().max_decompressed_bytes == service.max_decompressed_bytes,
        service.policy().allow_encrypted_get == service.allow_encrypted_get,
{
}

} // verus!
