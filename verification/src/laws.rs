//! What holds of whole exchanges and of a replay store over time.

use vstd::prelude::*;

use crate::exchange::{
    EventView, ExchangeView, ForwardView, PacketView, Policy, RejectionView, StageView,
};
use crate::interceptor::{Interceptor, InterceptorService};
use crate::replay::SeenKeys;

verus! {

// ---------------------------------------------------------------------------------------
// Runs
// ---------------------------------------------------------------------------------------
impl ExchangeView {
    /// The exchange after a sequence of events.
    pub open spec fn run(self, events: Seq<EventView>) -> ExchangeView
        decreases events.len(),
    {
        if events.len() == 0 {
            self
        } else {
            self.run(events.drop_last()).next(events.last())
        }
    }

    /// In the course of the events, the exchange was at `stage` and got `event` for an answer.
    pub open spec fn answered(
        self,
        events: Seq<EventView>,
        stage: StageView,
        event: EventView,
    ) -> bool {
        exists|n: int|
            0 <= n < events.len() && #[trigger] events[n] == event && self.run(events.take(n)).stage
                == stage
    }
}

impl StageView {
    /// The exchange has ended.
    pub open spec fn is_over(self) -> bool {
        self is Rejected || self is HandlerFailed || self is Untouched || self is Replied
    }
}

pub(crate) proof fn lemma_run_push(x: ExchangeView, events: Seq<EventView>, event: EventView)
    ensures
        x.run(events.push(event)) == x.run(events).next(event),
{
    assert(events.push(event).drop_last() =~= events);
}

pub(crate) proof fn lemma_run_add(x: ExchangeView, first: Seq<EventView>, second: Seq<EventView>)
    ensures
        x.run(first + second) == x.run(first).run(second),
    decreases second.len(),
{
    if second.len() == 0 {
        assert(first + second =~= first);
    } else {
        lemma_run_add(x, first, second.drop_last());
        assert((first + second).drop_last() =~= first + second.drop_last());
    }
}

pub(crate) proof fn lemma_answered_push(
    x: ExchangeView,
    events: Seq<EventView>,
    last: EventView,
    stage: StageView,
    event: EventView,
)
    requires
        x.answered(events, stage, event),
    ensures
        x.answered(events.push(last), stage, event),
{
    let n = choose|n: int|
        0 <= n < events.len() && #[trigger] events[n] == event && x.run(events.take(n)).stage
            == stage;
    assert(events.push(last)[n] == event);
    assert(events.push(last).take(n) =~= events.take(n));
}

pub(crate) proof fn lemma_answered_last(x: ExchangeView, events: Seq<EventView>, last: EventView)
    ensures
        x.answered(events.push(last), x.run(events).stage, last),
{
    let n = events.len() as int;
    assert(events.push(last)[n] == last);
    assert(events.push(last).take(n) =~= events);
}

pub(crate) proof fn lemma_run_policy(x: ExchangeView, events: Seq<EventView>)
    ensures
        x.run(events).policy == x.policy,
    decreases events.len(),
{
    if events.len() > 0 {
        lemma_run_policy(x, events.drop_last());
    }
}

/// An exchange that has ended stays as it ended, whatever comes in afterwards.
pub proof fn ended_exchange_stays(x: ExchangeView, events: Seq<EventView>)
    requires
        x.stage.is_over(),
    ensures
        x.run(events) == x,
    decreases events.len(),
{
    if events.len() > 0 {
        ended_exchange_stays(x, events.drop_last());
    }
}

/// How far an exchange has come.
pub open spec fn progress(stage: StageView) -> nat {
    match stage {
        StageView::Reading { .. } => 0,
        StageView::Decoding { .. } => 1,
        StageView::AskingRedis { .. } => 2,
        StageView::AskingMemory { .. } => 2,
        StageView::Agreeing { .. } => 3,
        StageView::Unwrapping { .. } => 4,
        StageView::Opening { .. } => 5,
        StageView::Unpacking { .. } => 6,
        StageView::Inflating { .. } => 7,
        StageView::Handling { .. } => 8,
        StageView::Collecting { .. } => 9,
        StageView::Sealing { .. } => 10,
        _ => 11,
    }
}

/// The event is an answer to what the stage asks for.
pub open spec fn answers(stage: StageView, event: EventView) -> bool {
    match stage {
        StageView::Reading { .. } => event is Read,
        StageView::Decoding { .. } => event is Decoded,
        StageView::AskingRedis { .. } => event is RedisReplied,
        StageView::AskingMemory { .. } => event is MemoryReplied,
        StageView::Agreeing { .. } => event is Agreed,
        StageView::Unwrapping { .. } => event is Unwrapped,
        StageView::Opening { .. } => event is Opened,
        StageView::Unpacking { .. } => event is Unpacked,
        StageView::Inflating { .. } => event is Inflated,
        StageView::Handling { .. } => event is Handled,
        StageView::Collecting { .. } => event is Collected,
        StageView::Sealing { .. } => event is Sealed,
        _ => false,
    }
}

/// An exchange never stalls and never goes back: every answer but another chunk of the body takes
/// it further, and nothing but an answer changes it.
pub proof fn every_answer_leads_on(x: ExchangeView, event: EventView)
    ensures
        !answers(x.stage, event) ==> x.next(event) == x,
        answers(x.stage, event) ==> {
            ||| progress(x.next(event).stage) > progress(x.stage)
            ||| event matches EventView::Read(Ok(Some(_))) && x.next(event).stage is Reading
        },
{
}

// ---------------------------------------------------------------------------------------
// The request body
// ---------------------------------------------------------------------------------------
/// The events of reading a body in these chunks.
pub open spec fn chunks_arrive(chunks: Seq<Seq<u8>>) -> Seq<EventView> {
    chunks.map_values(|chunk: Seq<u8>| EventView::Read(Ok(Some(chunk))))
}

proof fn lemma_chunks(x: ExchangeView, chunks: Seq<Seq<u8>>)
    requires
        x.stage == (StageView::Reading { raw: Seq::<u8>::empty() }),
    ensures
        x.run(chunks_arrive(chunks)) == if chunks.flatten().len() <= x.policy.max_body_bytes {
            x.at(StageView::Reading { raw: chunks.flatten() })
        } else {
            x.refused(413, "request body exceeds maximum allowed size"@)
        },
    decreases chunks.len(),
{
    if chunks.len() == 0 {
        assert(chunks_arrive(chunks) =~= Seq::<EventView>::empty());
        assert(x.at(x.stage) == x);
    } else {
        let head = chunks.drop_last();
        lemma_chunks(x, head);
        assert(chunks =~= head.push(chunks.last()));
        head.lemma_flatten_push(chunks.last());
        assert(chunks_arrive(chunks).drop_last() =~= chunks_arrive(head));
        assert(chunks_arrive(chunks).last() == EventView::Read(Ok(Some(chunks.last()))));
    }
}

/// A body of no more than `max_body_bytes`, in whatever chunks it comes, is collected whole and
/// goes on to be decoded; an empty one goes to the inner service as it is.
pub proof fn body_within_the_limit_is_collected(
    policy: Policy,
    method: Seq<char>,
    session_keys: Option<Seq<u8>>,
    chunks: Seq<Seq<u8>>,
)
    requires
        crate::exchange::body_is_read(policy, method),
        chunks.flatten().len() <= policy.max_body_bytes,
    ensures
        ExchangeView::start(policy, method, session_keys).run(
            chunks_arrive(chunks).push(EventView::Read(Ok(None))),
        ).stage == if chunks.flatten().len() > 0 {
            StageView::Decoding { raw: chunks.flatten() }
        } else {
            StageView::Handling { forward: ForwardView::AsReceived }
        },
{
    let x = ExchangeView::start(policy, method, session_keys);
    lemma_chunks(x, chunks);
    lemma_run_push(x, chunks_arrive(chunks), EventView::Read(Ok(None)));
}

/// A body of more than `max_body_bytes` is refused with 413, in whatever chunks it comes and
/// whatever happens after it, so nothing of it is ever decoded or decrypted.
pub proof fn oversized_body_is_refused(
    policy: Policy,
    method: Seq<char>,
    session_keys: Option<Seq<u8>>,
    chunks: Seq<Seq<u8>>,
    later: Seq<EventView>,
)
    requires
        crate::exchange::body_is_read(policy, method),
        chunks.flatten().len() > policy.max_body_bytes,
    ensures
        ExchangeView::start(policy, method, session_keys).run(chunks_arrive(chunks) + later).stage
            == (StageView::Rejected {
            rejection: RejectionView {
                status: 413,
                message: "request body exceeds maximum allowed size"@,
            },
        }),
{
    let x = ExchangeView::start(policy, method, session_keys);
    lemma_chunks(x, chunks);
    lemma_run_add(x, chunks_arrive(chunks), later);
    ended_exchange_stays(x.run(chunks_arrive(chunks)), later);
}

/// A request whose body is not an encrypted packet reaches the inner service with the very bytes
/// that were read, and with the session keys that it had before; if it had none, the response
/// goes back untouched.
pub proof fn other_bodies_pass_through_unchanged(
    policy: Policy,
    method: Seq<char>,
    session_keys: Option<Seq<u8>>,
    chunks: Seq<Seq<u8>>,
)
    requires
        crate::exchange::body_is_read(policy, method),
        0 < chunks.flatten().len() <= policy.max_body_bytes,
    ensures
        ({
            let x = ExchangeView::start(policy, method, session_keys);
            let read = chunks_arrive(chunks) + seq![
                EventView::Read(Ok(None)),
                EventView::Decoded(None),
            ];
            &&& x.run(read) == x.at(
                StageView::Handling { forward: ForwardView::Restored { raw: chunks.flatten() } },
            )
            &&& session_keys is None ==> x.run(read.push(EventView::Handled(true))).stage
                == StageView::Untouched
        }),
{
    let x = ExchangeView::start(policy, method, session_keys);
    let ended = chunks_arrive(chunks).push(EventView::Read(Ok(None)));
    let read = chunks_arrive(chunks) + seq![EventView::Read(Ok(None)), EventView::Decoded(None)];
    lemma_chunks(x, chunks);
    lemma_run_push(x, chunks_arrive(chunks), EventView::Read(Ok(None)));
    lemma_run_push(x, ended, EventView::Decoded(None));
    assert(read =~= ended.push(EventView::Decoded(None)));
    lemma_run_push(x, read, EventView::Handled(true));
}

/// A request of any method but POST, PUT, PATCH and, with `allow_encrypted_get`, GET goes to the
/// inner service as it came in: its body is not read, it gets no session keys, and if it has none
/// its response goes back untouched.
pub proof fn other_methods_are_not_read(
    policy: Policy,
    method: Seq<char>,
    session_keys: Option<Seq<u8>>,
)
    requires
        method != "POST"@,
        method != "PUT"@,
        method != "PATCH"@,
        !(method == "GET"@ && policy.allow_encrypted_get),
    ensures
        ({
            let x = ExchangeView::start(policy, method, session_keys);
            &&& x.stage == (StageView::Handling { forward: ForwardView::AsReceived })
            &&& x.session_keys == session_keys
            &&& session_keys is None ==> x.next(EventView::Handled(true)).stage
                == StageView::Untouched
        }),
{
}

/// Without `allow_encrypted_get` the body of a GET request is not read.
pub proof fn plain_get_is_not_read(policy: Policy, session_keys: Option<Seq<u8>>)
    requires
        !policy.allow_encrypted_get,
    ensures
        ExchangeView::start(policy, "GET"@, session_keys).stage == (StageView::Handling {
            forward: ForwardView::AsReceived,
        }),
{
    reveal_strlit("GET");
    reveal_strlit("POST");
    reveal_strlit("PUT");
    reveal_strlit("PATCH");
    assert("GET"@.len() == 3 && "POST"@.len() == 4 && "PATCH"@.len() == 5);
    assert("PUT"@[0] != "GET"@[0]);
}

/// The body of a POST, PUT or PATCH request is always read, and with `allow_encrypted_get` that
/// of a GET request is read in the same way.
pub proof fn body_methods_are_read(
    policy: Policy,
    method: Seq<char>,
    session_keys: Option<Seq<u8>>,
)
    requires
        method == "POST"@ || method == "PUT"@ || method == "PATCH"@ || (method == "GET"@
            && policy.allow_encrypted_get),
    ensures
        ExchangeView::start(policy, method, session_keys) == ExchangeView::start(
            policy,
            "POST"@,
            session_keys,
        ),
        ExchangeView::start(policy, method, session_keys).stage == (StageView::Reading {
            raw: Seq::<u8>::empty(),
        }),
{
}

// ---------------------------------------------------------------------------------------
// Where keys and bodies come from
// ---------------------------------------------------------------------------------------
/// What admitting an encrypted request rests on: the packet, the secret agreed on with the
/// client, the server key that was used, and the session key that was unwrapped.
pub struct Admission {
    pub packet: PacketView,
    pub shared_secret: Seq<u8>,
    pub server_pk: Seq<u8>,
    pub enc_key: Seq<u8>,
}

impl Admission {
    /// The question to Redis about the packet's wrapped key.
    pub open spec fn asking_redis(self) -> StageView {
        StageView::AskingRedis {
            command: crate::replay::redis_command_for(crate::replay::seen_key_of(self.packet.kx)),
            packet: self.packet,
        }
    }

    /// The question to the memory store about the packet's wrapped key.
    pub open spec fn asking_memory(self) -> StageView {
        StageView::AskingMemory {
            seen_key: crate::replay::seen_key_of(self.packet.kx),
            packet: self.packet,
        }
    }

    /// The key agreement that the packet asks for: by handshake if the key's name begins with
    /// `hs_`, by the long-lived key if not.
    pub open spec fn agreeing(self) -> StageView {
        StageView::Agreeing {
            one_time: crate::text::begins_with(self.packet.key_id, "hs_"@),
            key_id: self.packet.key_id,
            client_pk: self.packet.client_pk,
            kx: self.packet.kx,
            data: self.packet.data,
        }
    }

    /// The unwrapping of the packet's session key.
    pub open spec fn unwrapping(self) -> StageView {
        StageView::Unwrapping {
            shared_secret: self.shared_secret,
            client_pk: self.packet.client_pk,
            server_pk: self.server_pk,
            kx: self.packet.kx,
            data: self.packet.data,
        }
    }

    /// The decryption of the packet's payload.
    pub open spec fn opening(self) -> StageView {
        StageView::Opening { enc_key: self.enc_key, data: self.packet.data }
    }

    /// The check of the decompressed size of the decrypted payload.
    pub open spec fn inflating(self, body: Seq<u8>, compressed: Seq<u8>, limit: nat) -> StageView {
        StageView::Inflating { enc_key: self.enc_key, decrypted: body, compressed, limit }
    }
}

/// The body that is sent for a response: the encrypted one, or its own if that could not be made.
pub open spec fn reply_body(plain: Seq<u8>, sealed: Option<Seq<u8>>) -> Seq<u8> {
    match sealed {
        Some(bytes) => bytes,
        None => plain,
    }
}

impl ExchangeView {
    /// The packet was decoded from a body within the size limit, and its public key has the right
    /// size.
    pub open spec fn decoded(self, events: Seq<EventView>, a: Admission) -> bool {
        &&& a.packet.client_pk.len() == 32
        &&& exists|raw: Seq<u8>|
            0 < raw.len() <= self.policy.max_body_bytes && #[trigger] self.answered(
                events,
                StageView::Decoding { raw },
                EventView::Decoded(Some(a.packet)),
            )
    }

    /// The replay store in charge, if there is one, found the packet's wrapped key new.
    pub open spec fn found_new(self, events: Seq<EventView>, a: Admission) -> bool {
        if self.policy.redis_replay {
            exists|reply: Seq<char>| #[trigger]
                self.answered(
                    events,
                    a.asking_redis(),
                    EventView::RedisReplied(Some(Some(reply))),
                )
        } else {
            self.policy.memory_replay ==> self.answered(
                events,
                a.asking_memory(),
                EventView::MemoryReplied(true),
            )
        }
    }

    /// The packet was decoded and its wrapped key found new.
    pub open spec fn cleared(self, events: Seq<EventView>, a: Admission) -> bool {
        self.decoded(events, a) && self.found_new(events, a)
    }

    /// The secret was agreed on for a packet that was cleared.
    pub open spec fn agreed(self, events: Seq<EventView>, a: Admission) -> bool {
        &&& self.cleared(events, a)
        &&& a.shared_secret.len() == 32
        &&& self.answered(
            events,
            a.agreeing(),
            EventView::Agreed(Ok((a.shared_secret, a.server_pk))),
        )
    }

    /// The packet was decoded, its wrapped key found new, and its session key unwrapped with the
    /// secret agreed on.
    pub open spec fn admitted(self, events: Seq<EventView>, a: Admission) -> bool {
        &&& self.agreed(events, a)
        &&& a.enc_key.len() == 32
        &&& self.answered(events, a.unwrapping(), EventView::Unwrapped(Ok(a.enc_key)))
    }

    /// The packet was admitted and its payload decrypted to `body`.
    pub open spec fn opened(self, events: Seq<EventView>, a: Admission, body: Seq<u8>) -> bool {
        &&& self.admitted(events, a)
        &&& self.answered(events, a.opening(), EventView::Opened(Ok(body)))
    }

    /// The packet was admitted, and its payload decrypted to `body`, which holds a byte string
    /// that decompresses to no more than `max_decompressed_bytes`.
    pub open spec fn delivered(self, events: Seq<EventView>, a: Admission, body: Seq<u8>) -> bool {
        &&& self.opened(events, a, body)
        &&& exists|compressed: Seq<u8>|
            {
                &&& self.answered(
                    events,
                    StageView::Unpacking { enc_key: a.enc_key, decrypted: body },
                    EventView::Unpacked(Some(compressed)),
                )
                &&& #[trigger] self.answered(
                    events,
                    a.inflating(body, compressed, self.policy.max_decompressed_bytes as nat),
                    EventView::Inflated(true),
                )
            }
    }

    /// The payload of a packet with this session key was decrypted to `body`.
    pub open spec fn some_opened(
        self,
        events: Seq<EventView>,
        enc_key: Seq<u8>,
        body: Seq<u8>,
    ) -> bool {
        exists|a: Admission| #[trigger] self.opened(events, a, body) && a.enc_key == enc_key
    }

    /// A packet with this session key was delivered with this body.
    pub open spec fn some_delivered(
        self,
        events: Seq<EventView>,
        enc_key: Seq<u8>,
        body: Seq<u8>,
    ) -> bool {
        exists|a: Admission| #[trigger] self.delivered(events, a, body) && a.enc_key == enc_key
    }

    /// The keys are those that the request had from the start, or those of a packet that was
    /// delivered.
    pub open spec fn owns_keys(self, events: Seq<EventView>, keys: Seq<u8>) -> bool {
        ||| self.session_keys == Some(keys)
        ||| exists|body: Seq<u8>| #[trigger] self.some_delivered(events, keys, body)
    }

    /// What an exchange that has come to `x` says of the events.
    spec fn traced(self, events: Seq<EventView>, x: ExchangeView) -> bool {
        match x.stage {
            StageView::Reading { raw } => {
                &&& raw.len() <= self.policy.max_body_bytes
                &&& x.session_keys == self.session_keys
            },
            StageView::Decoding { raw } => {
                &&& 0 < raw.len() <= self.policy.max_body_bytes
                &&& x.session_keys == self.session_keys
            },
            StageView::AskingRedis { .. } => {
                &&& x.session_keys == self.session_keys
                &&& self.policy.redis_replay
                &&& exists|a: Admission| #[trigger]
                    self.decoded(events, a) && x.stage == a.asking_redis()
            },
            StageView::AskingMemory { .. } => {
                &&& x.session_keys == self.session_keys
                &&& !self.policy.redis_replay && self.policy.memory_replay
                &&& exists|a: Admission| #[trigger]
                    self.decoded(events, a) && x.stage == a.asking_memory()
            },
            StageView::Agreeing { .. } => {
                &&& x.session_keys == self.session_keys
                &&& exists|a: Admission| #[trigger]
                    self.cleared(events, a) && x.stage == a.agreeing()
            },
            StageView::Unwrapping { .. } => {
                &&& x.session_keys == self.session_keys
                &&& exists|a: Admission| #[trigger]
                    self.agreed(events, a) && x.stage == a.unwrapping()
            },
            StageView::Opening { .. } => {
                &&& x.session_keys == self.session_keys
                &&& exists|a: Admission| #[trigger]
                    self.admitted(events, a) && x.stage == a.opening()
            },
            StageView::Unpacking { enc_key, decrypted } => {
                &&& x.session_keys == self.session_keys
                &&& self.some_opened(events, enc_key, decrypted)
            },
            StageView::Inflating { enc_key, decrypted, compressed, limit } => {
                &&& x.session_keys == self.session_keys
                &&& limit == self.policy.max_decompressed_bytes
                &&& self.some_opened(events, enc_key, decrypted)
                &&& self.answered(
                    events,
                    StageView::Unpacking { enc_key, decrypted },
                    EventView::Unpacked(Some(compressed)),
                )
            },
            StageView::Handling { forward: ForwardView::Decrypted { body } } => {
                &&& x.session_keys matches Some(keys)
                &&& self.some_delivered(events, keys, body)
            },
            StageView::Handling { forward: ForwardView::Restored { raw } } => {
                &&& 0 < raw.len() <= self.policy.max_body_bytes
                &&& x.session_keys == self.session_keys
            },
            StageView::Handling { forward: ForwardView::AsReceived } => x.session_keys
                == self.session_keys,
            StageView::Collecting { keys } => self.owns_keys(events, keys),
            StageView::Sealing { keys, body } => self.owns_keys(events, keys) && self.answered(
                events,
                StageView::Collecting { keys },
                EventView::Collected(Some(body)),
            ),
            StageView::Replied { body } => exists|
                keys: Seq<u8>,
                plain: Seq<u8>,
                sealed: Option<Seq<u8>>,
            |
                {
                    &&& self.owns_keys(events, keys)
                    &&& #[trigger] self.answered(
                        events,
                        StageView::Sealing { keys, body: plain },
                        EventView::Sealed(sealed),
                    )
                    &&& body == reply_body(plain, sealed)
                },
            StageView::Untouched => self.session_keys is None,
            StageView::Rejected { rejection } => {
                ||| rejection.status == 400
                ||| rejection.status == 401
                ||| rejection.status == 413
                ||| rejection.status == 500
            },
            StageView::HandlerFailed => true,
        }
    }
}

proof fn lemma_admission_push(
    x: ExchangeView,
    events: Seq<EventView>,
    last: EventView,
    a: Admission,
)
    ensures
        x.decoded(events, a) ==> x.decoded(events.push(last), a),
        x.cleared(events, a) ==> x.cleared(events.push(last), a),
        x.agreed(events, a) ==> x.agreed(events.push(last), a),
        x.admitted(events, a) ==> x.admitted(events.push(last), a),
{
    if x.decoded(events, a) {
        let raw = choose|raw: Seq<u8>|
            0 < raw.len() <= x.policy.max_body_bytes && #[trigger] x.answered(
                events,
                StageView::Decoding { raw },
                EventView::Decoded(Some(a.packet)),
            );
        lemma_answered_push(
            x,
            events,
            last,
            StageView::Decoding { raw },
            EventView::Decoded(Some(a.packet)),
        );
    }
    if x.agreed(events, a) {
        lemma_answered_push(
            x,
            events,
            last,
            a.agreeing(),
            EventView::Agreed(Ok((a.shared_secret, a.server_pk))),
        );
    }
    if x.admitted(events, a) {
        lemma_answered_push(
            x,
            events,
            last,
            a.unwrapping(),
            EventView::Unwrapped(Ok(a.enc_key)),
        );
    }
    if x.found_new(events, a) {
        if x.policy.redis_replay {
            let reply = choose|reply: Seq<char>| #[trigger]
                x.answered(
                    events,
                    a.asking_redis(),
                    EventView::RedisReplied(Some(Some(reply))),
                );
            lemma_answered_push(
                x,
                events,
                last,
                a.asking_redis(),
                EventView::RedisReplied(Some(Some(reply))),
            );
        } else if x.policy.memory_replay {
            lemma_answered_push(
                x,
                events,
                last,
                a.asking_memory(),
                EventView::MemoryReplied(true),
            );
        }
    }
}

proof fn lemma_delivery_push(
    x: ExchangeView,
    events: Seq<EventView>,
    last: EventView,
    a: Admission,
    body: Seq<u8>,
)
    ensures
        x.opened(events, a, body) ==> x.opened(events.push(last), a, body),
        x.delivered(events, a, body) ==> x.delivered(events.push(last), a, body),
{
    lemma_admission_push(x, events, last, a);
    if x.opened(events, a, body) {
        lemma_answered_push(x, events, last, a.opening(), EventView::Opened(Ok(body)));
    }
    if x.delivered(events, a, body) {
        let limit = x.policy.max_decompressed_bytes as nat;
        let compressed = choose|compressed: Seq<u8>|
            {
                &&& x.answered(
                    events,
                    StageView::Unpacking { enc_key: a.enc_key, decrypted: body },
                    EventView::Unpacked(Some(compressed)),
                )
                &&& #[trigger] x.answered(
                    events,
                    a.inflating(body, compressed, x.policy.max_decompressed_bytes as nat),
                    EventView::Inflated(true),
                )
            };
        lemma_answered_push(
            x,
            events,
            last,
            StageView::Unpacking { enc_key: a.enc_key, decrypted: body },
            EventView::Unpacked(Some(compressed)),
        );
        lemma_answered_push(
            x,
            events,
            last,
            a.inflating(body, compressed, limit),
            EventView::Inflated(true),
        );
    }
}

proof fn lemma_some_push(
    x: ExchangeView,
    events: Seq<EventView>,
    last: EventView,
    enc_key: Seq<u8>,
    body: Seq<u8>,
)
    ensures
        x.some_opened(events, enc_key, body) ==> x.some_opened(events.push(last), enc_key, body),
        x.some_delivered(events, enc_key, body) ==> x.some_delivered(
            events.push(last),
            enc_key,
            body,
        ),
{
    if x.some_opened(events, enc_key, body) {
        let a = choose|a: Admission| #[trigger]
            x.opened(events, a, body) && a.enc_key == enc_key;
        lemma_delivery_push(x, events, last, a, body);
    }
    if x.some_delivered(events, enc_key, body) {
        let a = choose|a: Admission| #[trigger]
            x.delivered(events, a, body) && a.enc_key == enc_key;
        lemma_delivery_push(x, events, last, a, body);
    }
}

proof fn lemma_owns_keys_push(
    x: ExchangeView,
    events: Seq<EventView>,
    last: EventView,
    keys: Seq<u8>,
)
    ensures
        x.owns_keys(events, keys) ==> x.owns_keys(events.push(last), keys),
{
    if x.owns_keys(events, keys) && x.session_keys != Some(keys) {
        let body = choose|body: Seq<u8>| #[trigger] x.some_delivered(events, keys, body);
        lemma_some_push(x, events, last, keys, body);
    }
}

proof fn lemma_traced_push(
    x: ExchangeView,
    events: Seq<EventView>,
    last: EventView,
    y: ExchangeView,
)
    requires
        x.traced(events, y),
    ensures
        x.traced(events.push(last), y),
{
    let longer = events.push(last);
    match y.stage {
        StageView::AskingRedis { .. } => {
            let a = choose|a: Admission| #[trigger]
                x.decoded(events, a) && y.stage == a.asking_redis();
            lemma_admission_push(x, events, last, a);
        },
        StageView::AskingMemory { .. } => {
            let a = choose|a: Admission| #[trigger]
                x.decoded(events, a) && y.stage == a.asking_memory();
            lemma_admission_push(x, events, last, a);
        },
        StageView::Agreeing { .. } => {
            let a = choose|a: Admission| #[trigger]
                x.cleared(events, a) && y.stage == a.agreeing();
            lemma_admission_push(x, events, last, a);
        },
        StageView::Unwrapping { .. } => {
            let a = choose|a: Admission| #[trigger]
                x.agreed(events, a) && y.stage == a.unwrapping();
            lemma_admission_push(x, events, last, a);
        },
        StageView::Opening { .. } => {
            let a = choose|a: Admission| #[trigger]
                x.admitted(events, a) && y.stage == a.opening();
            lemma_admission_push(x, events, last, a);
        },
        StageView::Unpacking { enc_key, decrypted } => {
            lemma_some_push(x, events, last, enc_key, decrypted);
        },
        StageView::Inflating { enc_key, decrypted, compressed, limit } => {
            lemma_some_push(x, events, last, enc_key, decrypted);
            lemma_answered_push(
                x,
                events,
                last,
                StageView::Unpacking { enc_key, decrypted },
                EventView::Unpacked(Some(compressed)),
            );
        },
        StageView::Handling { forward: ForwardView::Decrypted { body } } => {
            lemma_some_push(x, events, last, y.session_keys->0, body);
        },
        StageView::Collecting { keys } => {
            lemma_owns_keys_push(x, events, last, keys);
        },
        StageView::Sealing { keys, body } => {
            lemma_owns_keys_push(x, events, last, keys);
            lemma_answered_push(
                x,
                events,
                last,
                StageView::Collecting { keys },
                EventView::Collected(Some(body)),
            );
        },
        StageView::Replied { body } => {
            let (keys, plain, sealed) = choose|
                keys: Seq<u8>,
                plain: Seq<u8>,
                sealed: Option<Seq<u8>>,
            |
                {
                    &&& x.owns_keys(events, keys)
                    &&& #[trigger] x.answered(
                        events,
                        StageView::Sealing { keys, body: plain },
                        EventView::Sealed(sealed),
                    )
                    &&& body == reply_body(plain, sealed)
                };
            lemma_owns_keys_push(x, events, last, keys);
            lemma_answered_push(
                x,
                events,
                last,
                StageView::Sealing { keys, body: plain },
                EventView::Sealed(sealed),
            );
        },
        _ => {},
    }
}

proof fn lemma_traced_next(
    x: ExchangeView,
    events: Seq<EventView>,
    last: EventView,
    y: ExchangeView,
)
    requires
        y.policy == x.policy,
        x.traced(events, y),
        x.answered(events, y.stage, last),
    ensures
        x.traced(events, y.next(last)),
{
    match (y.stage, last) {
        (StageView::Decoding { raw }, EventView::Decoded(Some(packet))) => {
            let a = Admission {
                packet,
                shared_secret: Seq::empty(),
                server_pk: Seq::empty(),
                enc_key: Seq::empty(),
            };
            if packet.client_pk.len() == 32 {
                assert(x.decoded(events, a));
                if x.policy.redis_replay {
                    assert(y.next(last).stage == a.asking_redis());
                } else if x.policy.memory_replay {
                    assert(y.next(last).stage == a.asking_memory());
                } else {
                    assert(x.cleared(events, a));
                    assert(y.next(last).stage == a.agreeing());
                }
            }
        },
        (StageView::AskingRedis { .. }, EventView::RedisReplied(Some(Some(reply)))) => {
            let a = choose|a: Admission| #[trigger]
                x.decoded(events, a) && y.stage == a.asking_redis();
            assert(x.found_new(events, a));
            assert(x.cleared(events, a));
            assert(y.next(last).stage == a.agreeing());
        },
        (StageView::AskingMemory { .. }, EventView::MemoryReplied(true)) => {
            let a = choose|a: Admission| #[trigger]
                x.decoded(events, a) && y.stage == a.asking_memory();
            assert(x.cleared(events, a));
            assert(y.next(last).stage == a.agreeing());
        },
        (StageView::Agreeing { .. }, EventView::Agreed(Ok((shared_secret, server_pk)))) => {
            let a = choose|a: Admission| #[trigger]
                x.cleared(events, a) && y.stage == a.agreeing();
            let b = Admission { shared_secret, server_pk, ..a };
            if shared_secret.len() == 32 {
                assert(x.cleared(events, b));
                assert(x.agreed(events, b));
                assert(y.next(last).stage == b.unwrapping());
            }
        },
        (StageView::Unwrapping { .. }, EventView::Unwrapped(Ok(enc_key))) => {
            let a = choose|a: Admission| #[trigger]
                x.agreed(events, a) && y.stage == a.unwrapping();
            let b = Admission { enc_key, ..a };
            if enc_key.len() == 32 {
                assert(x.cleared(events, b));
                assert(x.agreed(events, b));
                assert(x.admitted(events, b));
                assert(y.next(last).stage == b.opening());
            }
        },
        (StageView::Opening { .. }, EventView::Opened(Ok(decrypted))) => {
            let a = choose|a: Admission| #[trigger]
                x.admitted(events, a) && y.stage == a.opening();
            assert(x.opened(events, a, decrypted));
            assert(x.some_opened(events, a.enc_key, decrypted));
        },
        (
            StageView::Inflating { enc_key, decrypted, compressed, limit },
            EventView::Inflated(true),
        ) => {
            let a = choose|a: Admission| #[trigger]
                x.opened(events, a, decrypted) && a.enc_key == enc_key;
            assert(y.stage == a.inflating(decrypted, compressed, limit));
            assert(x.delivered(events, a, decrypted));
            assert(x.some_delivered(events, enc_key, decrypted));
        },
        (StageView::Handling { forward }, EventView::Handled(true)) => {
            if forward is Decrypted {
                assert(x.some_delivered(events, y.session_keys->0, forward->body));
                assert(x.owns_keys(events, y.session_keys->0));
            }
        },
        (StageView::Sealing { keys, body }, EventView::Sealed(sealed)) => {
            assert(x.answered(
                events,
                StageView::Sealing { keys, body },
                EventView::Sealed(sealed),
            ));
            assert(y.next(last).stage == StageView::Replied { body: reply_body(body, sealed) });
        },
        _ => {},
    }
}

proof fn lemma_traced(
    policy: Policy,
    method: Seq<char>,
    session_keys: Option<Seq<u8>>,
    events: Seq<EventView>,
)
    ensures
        ({
            let x = ExchangeView::start(policy, method, session_keys);
            x.traced(events, x.run(events))
        }),
    decreases events.len(),
{
    let x = ExchangeView::start(policy, method, session_keys);
    if events.len() > 0 {
        let head = events.drop_last();
        let last = events.last();
        lemma_traced(policy, method, session_keys, head);
        assert(head.push(last) =~= events);
        lemma_traced_push(x, head, last, x.run(head));
        lemma_answered_last(x, head, last);
        lemma_run_policy(x, head);
        lemma_traced_next(x, events, last, x.run(head));
    }
}

/// In whatever order events come in, a decrypted body reaches the inner service only if it was
/// decrypted, with the session key that goes with it, from a packet that was admitted: it came in
/// a body within `max_body_bytes`, the replay store in charge found its wrapped key new, its
/// session key was unwrapped with the secret agreed on with the client, and its payload
/// decompresses within `max_decompressed_bytes`.
pub proof fn handler_sees_only_admitted_bodies(
    policy: Policy,
    method: Seq<char>,
    session_keys: Option<Seq<u8>>,
    events: Seq<EventView>,
    body: Seq<u8>,
)
    requires
        ExchangeView::start(policy, method, session_keys).run(events).stage == (
        StageView::Handling { forward: ForwardView::Decrypted { body } }),
    ensures
        ({
            let x = ExchangeView::start(policy, method, session_keys);
            exists|a: Admission| #[trigger]
                x.delivered(events, a, body) && x.run(events).session_keys == Some(a.enc_key)
        }),
{
    lemma_traced(policy, method, session_keys, events);
    let x = ExchangeView::start(policy, method, session_keys);
    let keys = x.run(events).session_keys->0;
    assert(x.some_delivered(events, keys, body));
    let a = choose|a: Admission| #[trigger] x.delivered(events, a, body) && a.enc_key == keys;
    assert(x.delivered(events, a, body) && x.run(events).session_keys == Some(a.enc_key));
}

/// In whatever order events come in, a response is encrypted only with session keys that the
/// request has: those that it came with, or those of the packet that was delivered.
pub proof fn response_is_sealed_with_the_keys_of_the_request(
    policy: Policy,
    method: Seq<char>,
    session_keys: Option<Seq<u8>>,
    events: Seq<EventView>,
)
    ensures
        ({
            let x = ExchangeView::start(policy, method, session_keys);
            match x.run(events).stage {
                StageView::Collecting { keys } => x.owns_keys(events, keys),
                StageView::Sealing { keys, body } => x.owns_keys(events, keys),
                _ => true,
            }
        }),
{
    lemma_traced(policy, method, session_keys, events);
}

/// A response whose body was replaced was sealed with session keys that the request has. What is
/// sent is the sealed body, or the response's own if it could not be sealed.
pub proof fn reply_is_the_sealed_response(
    policy: Policy,
    method: Seq<char>,
    session_keys: Option<Seq<u8>>,
    events: Seq<EventView>,
    body: Seq<u8>,
)
    requires
        ExchangeView::start(policy, method, session_keys).run(events).stage == (
        StageView::Replied { body }),
    ensures
        ({
            let x = ExchangeView::start(policy, method, session_keys);
            exists|keys: Seq<u8>, plain: Seq<u8>, sealed: Option<Seq<u8>>|
                {
                    &&& x.owns_keys(events, keys)
                    &&& #[trigger] x.answered(
                        events,
                        StageView::Sealing { keys, body: plain },
                        EventView::Sealed(sealed),
                    )
                    &&& body == reply_body(plain, sealed)
                }
        }),
{
    lemma_traced(policy, method, session_keys, events);
}

/// A response goes back untouched exactly if the request has no session keys when the inner
/// service answers it; a request that was decrypted has them.
pub proof fn response_path_runs_exactly_with_keys(
    policy: Policy,
    method: Seq<char>,
    session_keys: Option<Seq<u8>>,
    events: Seq<EventView>,
)
    ensures
        ({
            let before = ExchangeView::start(policy, method, session_keys).run(events);
            let after = before.next(EventView::Handled(true));
            &&& before.stage is Handling && before.session_keys is None ==> after.stage
                == StageView::Untouched
            &&& before.stage is Handling ==> (before.session_keys matches Some(keys)
                ==> after.stage == StageView::Collecting { keys })
            &&& before.stage matches StageView::Handling { forward } ==> if forward is Decrypted {
                before.session_keys is Some
            } else {
                before.session_keys == session_keys
            }
        }),
{
    lemma_traced(policy, method, session_keys, events);
}

/// With a Redis store configured the memory store is never asked, without one Redis is never
/// asked, and without either nothing is.
pub proof fn redis_takes_precedence(
    policy: Policy,
    method: Seq<char>,
    session_keys: Option<Seq<u8>>,
    events: Seq<EventView>,
)
    ensures
        ({
            let stage = ExchangeView::start(policy, method, session_keys).run(events).stage;
            &&& stage is AskingRedis ==> policy.redis_replay
            &&& stage is AskingMemory ==> !policy.redis_replay && policy.memory_replay
        }),
{
    lemma_traced(policy, method, session_keys, events);
}

/// No body that is held, decoded or passed on is larger than `max_body_bytes`.
pub proof fn no_body_outgrows_the_limit(
    policy: Policy,
    method: Seq<char>,
    session_keys: Option<Seq<u8>>,
    events: Seq<EventView>,
)
    ensures
        match ExchangeView::start(policy, method, session_keys).run(events).stage {
            StageView::Reading { raw } => raw.len() <= policy.max_body_bytes,
            StageView::Decoding { raw } => raw.len() <= policy.max_body_bytes,
            StageView::Handling { forward: ForwardView::Restored { raw } } => raw.len()
                <= policy.max_body_bytes,
            _ => true,
        },
{
    lemma_traced(policy, method, session_keys, events);
}

/// A refused request is told 400, 401, 413 or 500.
pub proof fn refusals_are_client_or_server_errors(
    policy: Policy,
    method: Seq<char>,
    session_keys: Option<Seq<u8>>,
    events: Seq<EventView>,
)
    ensures
        ExchangeView::start(policy, method, session_keys).run(events).stage matches
            StageView::Rejected { rejection } ==> {
            ||| rejection.status == 400
            ||| rejection.status == 401
            ||| rejection.status == 413
            ||| rejection.status == 500
        },
{
    lemma_traced(policy, method, session_keys, events);
}

/// The replay store says that the key is not new, or says nothing.
pub open spec fn store_does_not_clear(stage: StageView, event: EventView) -> bool {
    match stage {
        StageView::AskingRedis { .. } => event matches EventView::RedisReplied(reply) && !(reply
            matches Some(Some(_))),
        StageView::AskingMemory { .. } => event == EventView::MemoryReplied(false),
        _ => false,
    }
}

/// The replay check fails closed: a key that is not cleared as new ends the exchange, with 401 if
/// it was seen before and with 500 if Redis gave no answer, and nothing that comes in afterwards
/// changes that.
pub proof fn replay_check_fails_closed(
    x: ExchangeView,
    event: EventView,
    later: Seq<EventView>,
)
    requires
        store_does_not_clear(x.stage, event),
    ensures
        x.next(event).run(later) == if event == EventView::RedisReplied(None) {
            x.refused(500, "replay store unavailable"@)
        } else {
            x.refused(401, "replay detected"@)
        },
{
    ended_exchange_stays(x.next(event), later);
}

/// The replay store in charge, if there is one, finds the key new.
pub open spec fn store_clears(policy: Policy, reply: Seq<char>) -> Seq<EventView> {
    if policy.redis_replay {
        seq![EventView::RedisReplied(Some(Some(reply)))]
    } else if policy.memory_replay {
        seq![EventView::MemoryReplied(true)]
    } else {
        Seq::empty()
    }
}

/// What happens when every piece of work on an encrypted request succeeds, up to the inner
/// service.
pub open spec fn all_goes_well(
    policy: Policy,
    chunks: Seq<Seq<u8>>,
    a: Admission,
    reply: Seq<char>,
    decrypted: Seq<u8>,
    compressed: Seq<u8>,
) -> Seq<EventView> {
    chunks_arrive(chunks) + seq![EventView::Read(Ok(None)), EventView::Decoded(Some(a.packet))]
        + store_clears(policy, reply) + seq![
        EventView::Agreed(Ok((a.shared_secret, a.server_pk))),
        EventView::Unwrapped(Ok(a.enc_key)),
        EventView::Opened(Ok(decrypted)),
        EventView::Unpacked(Some(compressed)),
        EventView::Inflated(true),
    ]
}

proof fn lemma_run_one(x: ExchangeView, event: EventView)
    ensures
        x.run(seq![event]) == x.next(event),
{
    lemma_run_push(x, Seq::empty(), event);
    assert(Seq::<EventView>::empty().push(event) =~= seq![event]);
}

proof fn lemma_packet_read(x: ExchangeView, a: Admission, raw: Seq<u8>, reply: Seq<char>)
    requires
        x.stage == (StageView::Reading { raw }),
        raw.len() > 0,
        a.packet.client_pk.len() == 32,
    ensures
        x.run(seq![EventView::Read(Ok(None)), EventView::Decoded(Some(a.packet))]).run(
            store_clears(x.policy, reply),
        ) == x.at(a.agreeing()),
{
    let ended = EventView::Read(Ok(None));
    let decoded = EventView::Decoded(Some(a.packet));
    lemma_run_one(x, ended);
    assert(x.next(ended) == x.at(StageView::Decoding { raw }));
    lemma_run_push(x, seq![ended], decoded);
    assert(seq![ended].push(decoded) =~= seq![ended, decoded]);
    let y = x.run(seq![ended, decoded]);
    if x.policy.redis_replay {
        lemma_run_one(y, EventView::RedisReplied(Some(Some(reply))));
    } else if x.policy.memory_replay {
        lemma_run_one(y, EventView::MemoryReplied(true));
    }
}

proof fn lemma_opened(x: ExchangeView, a: Admission, decrypted: Seq<u8>, compressed: Seq<u8>)
    requires
        x.stage == a.agreeing(),
        a.shared_secret.len() == 32,
        a.enc_key.len() == 32,
    ensures
        ({
            let y = x.run(
                seq![
                    EventView::Agreed(Ok((a.shared_secret, a.server_pk))),
                    EventView::Unwrapped(Ok(a.enc_key)),
                    EventView::Opened(Ok(decrypted)),
                    EventView::Unpacked(Some(compressed)),
                    EventView::Inflated(true),
                ],
            );
            &&& y.stage == (StageView::Handling {
                forward: ForwardView::Decrypted { body: decrypted },
            })
            &&& y.session_keys == Some(a.enc_key)
        }),
{
    let agreed = EventView::Agreed(Ok((a.shared_secret, a.server_pk)));
    let unwrapped = EventView::Unwrapped(Ok(a.enc_key));
    let opened = EventView::Opened(Ok(decrypted));
    let unpacked = EventView::Unpacked(Some(compressed));
    let inflated = EventView::Inflated(true);
    lemma_run_one(x, agreed);
    assert(x.next(agreed) == x.at(a.unwrapping()));
    lemma_run_push(x, seq![agreed], unwrapped);
    assert(seq![agreed].push(unwrapped) =~= seq![agreed, unwrapped]);
    assert(x.run(seq![agreed, unwrapped]) == x.at(a.opening()));
    lemma_run_push(x, seq![agreed, unwrapped], opened);
    assert(seq![agreed, unwrapped].push(opened) =~= seq![agreed, unwrapped, opened]);
    lemma_run_push(x, seq![agreed, unwrapped, opened], unpacked);
    assert(seq![agreed, unwrapped, opened].push(unpacked) =~= seq![
        agreed,
        unwrapped,
        opened,
        unpacked,
    ]);
    lemma_run_push(x, seq![agreed, unwrapped, opened, unpacked], inflated);
    assert(seq![agreed, unwrapped, opened, unpacked].push(inflated) =~= seq![
        agreed,
        unwrapped,
        opened,
        unpacked,
        inflated,
    ]);
}

/// An encrypted request that is in order is served: the decrypted body reaches the inner service
/// together with the session key, and the response goes back sealed with that key.
pub proof fn request_in_order_is_served(
    policy: Policy,
    method: Seq<char>,
    session_keys: Option<Seq<u8>>,
    chunks: Seq<Seq<u8>>,
    a: Admission,
    reply: Seq<char>,
    decrypted: Seq<u8>,
    compressed: Seq<u8>,
    body: Seq<u8>,
    sealed: Seq<u8>,
)
    requires
        crate::exchange::body_is_read(policy, method),
        0 < chunks.flatten().len() <= policy.max_body_bytes,
        a.packet.client_pk.len() == 32,
        a.shared_secret.len() == 32,
        a.enc_key.len() == 32,
    ensures
        ({
            let x = ExchangeView::start(policy, method, session_keys);
            let served = x.run(all_goes_well(policy, chunks, a, reply, decrypted, compressed));
            let answered = served.next(EventView::Handled(true)).next(
                EventView::Collected(Some(body)),
            );
            &&& served.stage == (StageView::Handling {
                forward: ForwardView::Decrypted { body: decrypted },
            })
            &&& served.session_keys == Some(a.enc_key)
            &&& answered.stage == (StageView::Sealing { keys: a.enc_key, body })
            &&& answered.next(EventView::Sealed(Some(sealed))).stage == (StageView::Replied {
                body: sealed,
            })
        }),
{
    let x = ExchangeView::start(policy, method, session_keys);
    let read = chunks_arrive(chunks);
    let packet = seq![EventView::Read(Ok(None)), EventView::Decoded(Some(a.packet))];
    let cleared = store_clears(policy, reply);
    let opened = seq![
        EventView::Agreed(Ok((a.shared_secret, a.server_pk))),
        EventView::Unwrapped(Ok(a.enc_key)),
        EventView::Opened(Ok(decrypted)),
        EventView::Unpacked(Some(compressed)),
        EventView::Inflated(true),
    ];
    lemma_chunks(x, chunks);
    lemma_run_add(x, read, packet);
    lemma_run_add(x, read + packet, cleared);
    lemma_run_add(x, read + packet + cleared, opened);
    lemma_packet_read(x.run(read), a, chunks.flatten(), reply);
    lemma_opened(x.run(read + packet + cleared), a, decrypted, compressed);
}

/// In whatever order events come in, key agreement is asked for only after the replay check: for a
/// packet that came in a body within the size limit and whose wrapped key the replay store in
/// charge found new.
pub proof fn key_agreement_follows_the_replay_check(
    policy: Policy,
    method: Seq<char>,
    session_keys: Option<Seq<u8>>,
    events: Seq<EventView>,
)
    ensures
        ({
            let x = ExchangeView::start(policy, method, session_keys);
            x.run(events).stage is Agreeing ==> exists|a: Admission| #[trigger]
                x.cleared(events, a) && x.run(events).stage == a.agreeing()
        }),
{
    lemma_traced(policy, method, session_keys, events);
}

/// A payload that does not decompress within `max_decompressed_bytes` is refused with 413, whatever
/// happens after it, so the inner service never sees it. The limit that it is held to is the one
/// that is configured.
pub proof fn oversized_payload_is_refused(
    policy: Policy,
    method: Seq<char>,
    session_keys: Option<Seq<u8>>,
    events: Seq<EventView>,
    later: Seq<EventView>,
)
    requires
        ExchangeView::start(policy, method, session_keys).run(events).stage is Inflating,
    ensures
        ({
            let x = ExchangeView::start(policy, method, session_keys).run(events);
            &&& x.stage->limit == policy.max_decompressed_bytes
            &&& x.next(EventView::Inflated(false)).run(later) == x.refused(
                413,
                "decompressed payload exceeds limit"@,
            )
        }),
{
    let x = ExchangeView::start(policy, method, session_keys).run(events);
    lemma_traced(policy, method, session_keys, events);
    ended_exchange_stays(x.next(EventView::Inflated(false)), later);
}

// ---------------------------------------------------------------------------------------
// The replay store over time
// ---------------------------------------------------------------------------------------
/// A key presented to a replay store at a time.
pub struct Presented {
    pub key: Seq<char>,
    pub at: nat,
}

impl SeenKeys {
    /// The store after a sequence of presentations.
    pub open spec fn over(self, calls: Seq<Presented>) -> SeenKeys
        decreases calls.len(),
    {
        if calls.len() == 0 {
            self
        } else {
            self.over(calls.drop_last()).after(calls.last().key, calls.last().at)
        }
    }
}

proof fn lemma_kept(store: SeenKeys, calls: Seq<Presented>, key: Seq<char>, since: nat)
    requires
        store.seen.contains_key(key),
        store.seen[key] == since,
        forall|i: int|
            0 <= i < calls.len() ==> crate::replay::age(since, (#[trigger] calls[i]).at)
                < store.ttl,
    ensures
        store.over(calls).seen.contains_key(key),
        store.over(calls).seen[key] == since,
        store.over(calls).ttl == store.ttl,
    decreases calls.len(),
{
    if calls.len() > 0 {
        let head = calls.drop_last();
        assert forall|i: int| 0 <= i < head.len() implies crate::replay::age(
            since,
            (#[trigger] head[i]).at,
        ) < store.ttl by {
            assert(head[i] == calls[i]);
        }
        lemma_kept(store, head, key, since);
        assert(crate::replay::age(since, calls[calls.len() - 1].at) < store.ttl);
    }
}

/// A key that was new at `first` is refused until its time to live has passed, whatever is
/// presented in between, itself included.
pub proof fn seen_key_is_refused_within_its_time_to_live(
    store: SeenKeys,
    key: Seq<char>,
    first: nat,
    calls: Seq<Presented>,
    now: nat,
)
    requires
        !store.remembers(key, first),
        first <= now < first + store.ttl,
        forall|i: int| 0 <= i < calls.len() ==> (#[trigger] calls[i]).at <= now,
    ensures
        store.after(key, first).over(calls).remembers(key, now),
{
    let entered = store.after(key, first);
    assert forall|i: int| 0 <= i < calls.len() implies crate::replay::age(
        first,
        (#[trigger] calls[i]).at,
    ) < entered.ttl by {}
    lemma_kept(entered, calls, key, first);
}

/// A key that was new at `first` is new again once its time to live has passed: presenting it in
/// the meantime does not prolong the time.
pub proof fn seen_key_is_new_again_after_its_time_to_live(
    store: SeenKeys,
    key: Seq<char>,
    first: nat,
    calls: Seq<Presented>,
    now: nat,
)
    requires
        !store.remembers(key, first),
        first + store.ttl <= now,
        forall|i: int| 0 <= i < calls.len() ==> (#[trigger] calls[i]).at < first + store.ttl,
    ensures
        !store.after(key, first).over(calls).remembers(key, now),
{
    let entered = store.after(key, first);
    if store.ttl == 0 {
        lemma_ttl(entered, calls);
    } else {
        assert forall|i: int| 0 <= i < calls.len() implies crate::replay::age(
            first,
            (#[trigger] calls[i]).at,
        ) < entered.ttl by {}
        lemma_kept(entered, calls, key, first);
    }
}

proof fn lemma_ttl(store: SeenKeys, calls: Seq<Presented>)
    ensures
        store.over(calls).ttl == store.ttl,
    decreases calls.len(),
{
    if calls.len() > 0 {
        lemma_ttl(store, calls.drop_last());
    }
}

/// Presenting other keys, in whatever order, changes nothing for a key.
pub proof fn other_keys_do_not_matter(
    store: SeenKeys,
    key: Seq<char>,
    calls: Seq<Presented>,
    now: nat,
)
    requires
        forall|i: int|
            0 <= i < calls.len() ==> (#[trigger] calls[i]).at <= now && calls[i].key != key,
    ensures
        store.over(calls).remembers(key, now) == store.remembers(key, now),
    decreases calls.len(),
{
    if calls.len() > 0 {
        let head = calls.drop_last();
        assert forall|i: int| 0 <= i < head.len() implies (#[trigger] head[i]).at <= now
            && head[i].key != key by {
            assert(head[i] == calls[i]);
        }
        other_keys_do_not_matter(store, key, head, now);
        lemma_ttl(store, head);
        assert(calls[calls.len() - 1].key != key);
    }
}

/// The presentations of one key.
pub open spec fn calls_for(calls: Seq<Presented>, key: Seq<char>) -> Seq<Presented> {
    calls.filter(|call: Presented| call.key == key)
}

/// The presentations come in the order of time, and none of them after `now`.
pub open spec fn in_order(calls: Seq<Presented>, now: nat) -> bool {
    &&& forall|i: int, j: int|
        0 <= i <= j < calls.len() ==> (#[trigger] calls[i]).at <= (#[trigger] calls[j]).at
    &&& forall|i: int| 0 <= i < calls.len() ==> (#[trigger] calls[i]).at <= now
}

proof fn lemma_calls_for(store: SeenKeys, key: Seq<char>, calls: Seq<Presented>, now: nat)
    requires
        in_order(calls, now),
    ensures
        ({
            let all = store.over(calls);
            let own = store.over(calls_for(calls, key));
            &&& all.remembers(key, now) == own.remembers(key, now)
            &&& all.remembers(key, now) ==> all.seen[key] == own.seen[key]
        }),
    decreases calls.len(),
{
    reveal(Seq::filter);
    if calls.len() > 0 {
        let head = calls.drop_last();
        let last = calls.last();
        assert(last == calls[calls.len() - 1]);
        assert forall|i: int, j: int| 0 <= i <= j < head.len() implies (#[trigger] head[i]).at <= (
        #[trigger] head[j]).at by {
            assert(calls[i].at <= calls[j].at);
        }
        assert forall|i: int| 0 <= i < head.len() implies (#[trigger] head[i]).at <= last.at by {
            assert(calls[i].at <= calls[calls.len() - 1].at);
        }
        lemma_calls_for(store, key, head, last.at);
        lemma_calls_for(store, key, head, now);
        lemma_ttl(store, head);
        lemma_ttl(store, calls_for(head, key));
        if last.key == key {
            assert(calls_for(calls, key) == calls_for(head, key).push(last));
            assert(calls_for(head, key).push(last).drop_last() =~= calls_for(head, key));
        } else {
            assert(calls_for(calls, key) == calls_for(head, key));
        }
    }
}

/// What is made of a key depends on the presentations of that key alone: after two histories in
/// the order of time that share them, a store answers the key alike, whatever other keys either
/// history holds and wherever they stand in it.
pub proof fn only_the_calls_for_a_key_matter(
    store: SeenKeys,
    key: Seq<char>,
    one: Seq<Presented>,
    other: Seq<Presented>,
    now: nat,
)
    requires
        in_order(one, now),
        in_order(other, now),
        calls_for(one, key) == calls_for(other, key),
    ensures
        store.over(one).remembers(key, now) == store.over(other).remembers(key, now),
{
    lemma_calls_for(store, key, one, now);
    lemma_calls_for(store, key, other, now);
}

proof fn lemma_over_add(store: SeenKeys, first: Seq<Presented>, second: Seq<Presented>)
    ensures
        store.over(first + second) == store.over(first).over(second),
    decreases second.len(),
{
    if second.len() == 0 {
        assert(first + second =~= first);
    } else {
        lemma_over_add(store, first, second.drop_last());
        assert((first + second).drop_last() =~= first + second.drop_last());
    }
}

/// However many calls present a key, in whatever order they reach the store, only the first is
/// told that it is new as long as its time to live lasts: each later one is refused.
pub proof fn of_equal_keys_only_the_first_is_new(
    store: SeenKeys,
    calls: Seq<Presented>,
    i: int,
    j: int,
)
    requires
        0 <= i < j < calls.len(),
        calls[i].key == calls[j].key,
        !store.over(calls.take(i)).remembers(calls[i].key, calls[i].at),
        calls[i].at <= calls[j].at < calls[i].at + store.ttl,
        forall|k: int| i < k < j ==> (#[trigger] calls[k]).at <= calls[j].at,
    ensures
        store.over(calls.take(j)).remembers(calls[j].key, calls[j].at),
{
    let before = calls.take(i);
    let between = calls.subrange(i + 1, j);
    let entered = before.push(calls[i]);
    assert(calls.take(j) =~= entered + between);
    assert(entered.drop_last() =~= before);
    lemma_over_add(store, entered, between);
    lemma_ttl(store, before);
    assert forall|k: int| 0 <= k < between.len() implies (#[trigger] between[k]).at
        <= calls[j].at by {
        assert(between[k] == calls[i + 1 + k]);
    }
    seen_key_is_refused_within_its_time_to_live(
        store.over(before),
        calls[i].key,
        calls[i].at,
        between,
        calls[j].at,
    );
}

/// Every check drops what has expired: afterwards the store holds, besides the key that was
/// presented, only keys whose time to live has not passed.
pub proof fn expired_keys_are_dropped(store: SeenKeys, key: Seq<char>, now: nat, other: Seq<char>)
    ensures
        store.after(key, now).seen.contains_key(other) && other != key ==> store.remembers(
            other,
            now,
        ),
        store.remembers(other, now) ==> {
            &&& store.after(key, now).seen.contains_key(other)
            &&& store.after(key, now).seen[other] == store.seen[other]
        },
        store.after(key, now).seen.contains_key(key),
{
}

/// A store that has seen nothing finds every key new.
pub proof fn everything_is_new_to_a_fresh_store(ttl: nat, key: Seq<char>, now: nat)
    ensures
        !SeenKeys::fresh(ttl).remembers(key, now),
{
}

proof fn lemma_digit_injective(m: int, n: int)
    requires
        0 <= m < 16,
        0 <= n < 16,
        crate::outside::hex_digit(m) == crate::outside::hex_digit(n),
    ensures
        m == n,
{
}

proof fn lemma_hex_injective(a: Seq<u8>, b: Seq<u8>)
    requires
        crate::outside::hex_lower(a) == crate::outside::hex_lower(b),
    ensures
        a == b,
{
    let x = crate::outside::hex_lower(a);
    let y = crate::outside::hex_lower(b);
    assert(x.len() == 2 * a.len() && y.len() == 2 * b.len());
    assert forall|i: int| 0 <= i < a.len() implies a[i] == b[i] by {
        let p = a[i] as int;
        let q = b[i] as int;
        assert((2 * i) / 2 == i && (2 * i + 1) / 2 == i);
        assert((2 * i) % 2 == 0 && (2 * i + 1) % 2 == 1);
        assert(x[2 * i] == crate::outside::hex_digit(p / 16));
        assert(y[2 * i] == crate::outside::hex_digit(q / 16));
        assert(x[2 * i + 1] == crate::outside::hex_digit(p % 16));
        assert(y[2 * i + 1] == crate::outside::hex_digit(q % 16));
        lemma_digit_injective(p / 16, q / 16);
        lemma_digit_injective(p % 16, q % 16);
        assert(p == 16 * (p / 16) + p % 16 && q == 16 * (q / 16) + q % 16);
    }
    assert(a =~= b);
}

/// Two wrapped keys are looked up under the same name only if they are the same.
pub proof fn distinct_wrapped_keys_have_distinct_names(a: Seq<u8>, b: Seq<u8>)
    ensures
        crate::replay::seen_key_of(a) == crate::replay::seen_key_of(b) <==> a == b,
{
    let prefix = "replay:seen:"@;
    let x = crate::outside::hex_lower(a);
    let y = crate::outside::hex_lower(b);
    if prefix + x == prefix + y {
        assert((prefix + x).skip(prefix.len() as int) =~= x);
        assert((prefix + y).skip(prefix.len() as int) =~= y);
        lemma_hex_injective(a, b);
    }
}

/// Protected by the memory store alone, a packet whose wrapped key was found new at `first` is
/// answered 401 when it is sent again within the time to live, whatever else is presented in
/// between and whatever happens after the answer.
pub proof fn replayed_packet_is_refused(
    x: ExchangeView,
    packet: PacketView,
    store: SeenKeys,
    first: nat,
    calls: Seq<Presented>,
    now: nat,
    later: Seq<EventView>,
)
    requires
        x.stage is Decoding,
        packet.client_pk.len() == 32,
        x.policy.memory_replay,
        !x.policy.redis_replay,
        !store.remembers(crate::replay::seen_key_of(packet.kx), first),
        first <= now < first + store.ttl,
        forall|i: int| 0 <= i < calls.len() ==> (#[trigger] calls[i]).at <= now,
    ensures
        ({
            let key = crate::replay::seen_key_of(packet.kx);
            let asking = x.next(EventView::Decoded(Some(packet)));
            let new = !store.after(key, first).over(calls).remembers(key, now);
            &&& asking.stage == (StageView::AskingMemory { seen_key: key, packet })
            &&& asking.next(EventView::MemoryReplied(new)).run(later) == x.refused(
                401,
                "replay detected"@,
            )
        }),
{
    let key = crate::replay::seen_key_of(packet.kx);
    seen_key_is_refused_within_its_time_to_live(store, key, first, calls, now);
    let asking = x.next(EventView::Decoded(Some(packet)));
    ended_exchange_stays(asking.next(EventView::MemoryReplied(false)), later);
}

/// A packet whose public key does not have 32 bytes is refused with 400 before any replay store is
/// asked about it, so its wrapped key is not used up.
pub proof fn malformed_packet_is_refused_unrecorded(
    x: ExchangeView,
    packet: PacketView,
    later: Seq<EventView>,
)
    requires
        x.stage is Decoding,
        packet.client_pk.len() != 32,
    ensures
        x.next(EventView::Decoded(Some(packet))).run(later) == x.refused(
            400,
            "client_pk must be 32 bytes"@,
        ),
{
    ended_exchange_stays(x.next(EventView::Decoded(Some(packet))), later);
}

// ---------------------------------------------------------------------------------------
// Workers
// ---------------------------------------------------------------------------------------
/// All services made from one interceptor hold the same stores and decide under the same settings,
/// whatever inner services they run.
pub proof fn workers_share_the_stores<S, T, M>(
    interceptor: Interceptor<M>,
    one: InterceptorService<S, M>,
    one_inner: S,
    other: InterceptorService<T, M>,
    other_inner: T,
)
    requires
        one.made_from(interceptor, one_inner),
        other.made_from(interceptor, other_inner),
    ensures
        one.memory_replay_store == other.memory_replay_store,
        one.replay_store == other.replay_store,
        one.key_store == other.key_store,
        one.handshake_store == other.handshake_store,
        one.policy() == other.policy(),
{
}

/// A wrapped key accepted by one worker is a replay for every other: of two services made from one
/// interceptor, which hold one memory store, if the first takes a packet at `first`, the second
/// answers 401 to one with the same wrapped key within the time to live, whatever else the store
/// is asked in between. `store` is what their memory store has seen before.
pub proof fn replay_at_another_worker_is_refused<S, T, M>(
    interceptor: Interceptor<M>,
    one: InterceptorService<S, M>,
    one_inner: S,
    other: InterceptorService<T, M>,
    other_inner: T,
    x: ExchangeView,
    y: ExchangeView,
    packet: PacketView,
    again: PacketView,
    store: SeenKeys,
    first: nat,
    calls: Seq<Presented>,
    now: nat,
    later: Seq<EventView>,
)
    requires
        one.made_from(interceptor, one_inner),
        other.made_from(interceptor, other_inner),
        interceptor.memory_replay_store is Some,
        interceptor.replay_store is None,
        x.stage is Decoding && x.policy == one.policy(),
        y.stage is Decoding && y.policy == other.policy(),
        packet.client_pk.len() == 32,
        again.client_pk.len() == 32,
        again.kx == packet.kx,
        !store.remembers(crate::replay::seen_key_of(packet.kx), first),
        first <= now < first + store.ttl,
        forall|i: int| 0 <= i < calls.len() ==> (#[trigger] calls[i]).at <= now,
    ensures
        one.memory_replay_store == other.memory_replay_store,
        ({
            let key = crate::replay::seen_key_of(packet.kx);
            let taken = x.next(EventView::Decoded(Some(packet)));
            let asking = y.next(EventView::Decoded(Some(again)));
            let new = !store.after(key, first).over(calls).remembers(key, now);
            &&& taken.stage == (StageView::AskingMemory { seen_key: key, packet })
            &&& taken.next(EventView::MemoryReplied(!store.remembers(key, first))).stage
                is Agreeing
            &&& asking.stage == (StageView::AskingMemory { seen_key: key, packet: again })
            &&& asking.next(EventView::MemoryReplied(new)).run(later) == y.refused(
                401,
                "replay detected"@,
            )
        }),
{
    replayed_packet_is_refused(y, again, store, first, calls, now, later);
}

} // verus!
