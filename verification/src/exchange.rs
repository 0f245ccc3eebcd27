//! One request on its way through the interceptor and back.
//!
//! An [`Exchange`] is a state machine. Its [`Stage`] names the work that has to be done next
//! and holds what that work needs; the caller does the work and hands the outcome to
//! [`Exchange::step`] as an [`Event`].
//!
//! Request path (POST, PUT and PATCH, and GET with `allow_encrypted_get`):
//! 1. Collect the raw body, up to `max_body_bytes`; refuse it with 413 beyond that.
//! 2. Decode it as a [`Packet`] and check its timestamp. Anything else is passed through. A
//!    packet whose public key does not have 32 bytes is refused.
//! 3. Present the wrapped key to the replay store (Redis, else memory). No answer is a refusal.
//! 4. Agree on a secret, unwrap the session key with it, and decrypt the payload.
//! 5. Decompress the payload against `max_decompressed_bytes`; refuse it with 413 beyond that.
//! 6. Hand the decrypted body and the session key to the inner service.
//!
//! Response path, only when the request has session keys: collect the body of the response and
//! encrypt it with the key.

use vstd::prelude::*;

use crate::outside::zeroize_bytes;
use crate::replay::{redis_command, seen_key};
use crate::session::{DecryptedBody, RequestSessionKeys, SharedSecret};
use crate::text::{same_text, starts_with};

verus! {

/// The settings of an interceptor that its decisions depend on.
#[derive(Clone, Copy)]
pub struct Policy {
    /// A Redis replay store is configured. It takes precedence over the memory store.
    pub redis_replay: bool,
    /// An in-memory replay store is configured.
    pub memory_replay: bool,
    /// Largest raw request body, in bytes.
    pub max_body_bytes: usize,
    /// Largest decompressed payload, in bytes.
    pub max_decompressed_bytes: usize,
    /// GET requests are read like those of POST, PUT and PATCH.
    pub allow_encrypted_get: bool,
}

/// An encrypted request as the client sent it, once decoded.
pub struct Packet {
    /// Which server key the client used. One that begins with `hs_` names a one-time handshake.
    pub key_id: String,
    /// The client's public key.
    pub client_pk: Vec<u8>,
    /// The session key, wrapped with the agreed key.
    pub kx: Vec<u8>,
    /// The payload, encrypted with the session key.
    pub data: Vec<u8>,
}

/// What a packet says.
#[verifier::ext_equal]
pub struct PacketView {
    pub key_id: Seq<char>,
    pub client_pk: Seq<u8>,
    pub kx: Seq<u8>,
    pub data: Seq<u8>,
}

impl View for Packet {
    type V = PacketView;

    open spec fn view(&self) -> PacketView {
        PacketView {
            key_id: self.key_id@,
            client_pk: self.client_pk@,
            kx: self.kx@,
            data: self.data@,
        }
    }
}

/// A packet whose public key has the right size.
pub struct CheckedPacket {
    pub key_id: String,
    pub client_pk: [u8; 32],
    pub kx: Vec<u8>,
    pub data: Vec<u8>,
}

impl View for CheckedPacket {
    type V = PacketView;

    open spec fn view(&self) -> PacketView {
        PacketView {
            key_id: self.key_id@,
            client_pk: self.client_pk@,
            kx: self.kx@,
            data: self.data@,
        }
    }
}

/// What a refused request is told: an HTTP status and a message.
pub struct Rejection {
    pub status: u16,
    pub message: String,
}

/// What a refused request is told.
#[verifier::ext_equal]
pub struct RejectionView {
    pub status: u16,
    pub message: Seq<char>,
}

impl View for Rejection {
    type V = RejectionView;

    open spec fn view(&self) -> RejectionView {
        RejectionView { status: self.status, message: self.message@ }
    }
}

/// How the request reaches the inner service.
pub enum Forward {
    /// As it came in; if its body was read, there was none.
    AsReceived,
    /// With the body that was read put back.
    Restored { raw: Vec<u8> },
    /// With the decrypted body and the session keys of the exchange in its extensions.
    Decrypted { body: DecryptedBody },
}

/// How the request reaches the inner service.
#[verifier::ext_equal]
pub enum ForwardView {
    AsReceived,
    Restored { raw: Seq<u8> },
    Decrypted { body: Seq<u8> },
}

impl View for Forward {
    type V = ForwardView;

    open spec fn view(&self) -> ForwardView {
        match *self {
            Forward::AsReceived => ForwardView::AsReceived,
            Forward::Restored { raw } => ForwardView::Restored { raw: raw@ },
            Forward::Decrypted { body } => ForwardView::Decrypted { body: body@ },
        }
    }
}

/// The work that an exchange waits for, or how it ended.
pub enum Stage {
    /// Read the next chunk of the request body: [`Event::Read`].
    Reading { raw: Vec<u8> },
    /// Decode the body as a [`Packet`] and check its timestamp: [`Event::Decoded`].
    Decoding { raw: Vec<u8> },
    /// Send `command` to Redis, which enters the packet's wrapped key unless it has seen it:
    /// [`Event::RedisReplied`].
    AskingRedis { command: redis::Cmd, packet: CheckedPacket },
    /// Present `seen_key`, the name of the packet's wrapped key, to the in-memory replay store:
    /// [`Event::MemoryReplied`].
    AskingMemory { seen_key: String, packet: CheckedPacket },
    /// Agree on a secret with the client, using the one-time handshake key `key_id` if
    /// `one_time` is set and the long-lived key `key_id` if not: [`Event::Agreed`].
    Agreeing { one_time: bool, key_id: String, client_pk: [u8; 32], kx: Vec<u8>, data: Vec<u8> },
    /// Derive the wrapping key from the secret and both public keys, and open `kx` with it:
    /// [`Event::Unwrapped`].
    Unwrapping {
        shared_secret: SharedSecret,
        client_pk: [u8; 32],
        server_pk: [u8; 32],
        kx: Vec<u8>,
        data: Vec<u8>,
    },
    /// Decrypt `data` with `enc_key`: [`Event::Opened`].
    Opening { enc_key: [u8; 32], data: Vec<u8> },
    /// Decode the decrypted bytes as a msgpack byte string: [`Event::Unpacked`].
    Unpacking { enc_key: [u8; 32], decrypted: Vec<u8> },
    /// Decompress `compressed` to no more than `limit` bytes: [`Event::Inflated`].
    Inflating { enc_key: [u8; 32], decrypted: Vec<u8>, compressed: Vec<u8>, limit: usize },
    /// Hand the request to the inner service: [`Event::Handled`].
    Handling { forward: Forward },
    /// Collect the body of the response: [`Event::Collected`].
    Collecting { keys: RequestSessionKeys },
    /// Encrypt and sign `body` with `keys`: [`Event::Sealed`].
    Sealing { keys: RequestSessionKeys, body: Vec<u8> },
    /// Over: the request is refused.
    Rejected { rejection: Rejection },
    /// Over: the error of the inner service is handed on.
    HandlerFailed,
    /// Over: the response of the inner service is sent as it is.
    Untouched,
    /// Over: the response is sent with this body in place of its own.
    Replied { body: Vec<u8> },
}

/// The stage of an exchange as its contracts speak of it.
#[verifier::ext_equal]
pub enum StageView {
    Reading { raw: Seq<u8> },
    Decoding { raw: Seq<u8> },
    AskingRedis { command: Seq<Seq<u8>>, packet: PacketView },
    AskingMemory { seen_key: Seq<char>, packet: PacketView },
    Agreeing {
        one_time: bool,
        key_id: Seq<char>,
        client_pk: Seq<u8>,
        kx: Seq<u8>,
        data: Seq<u8>,
    },
    Unwrapping {
        shared_secret: Seq<u8>,
        client_pk: Seq<u8>,
        server_pk: Seq<u8>,
        kx: Seq<u8>,
        data: Seq<u8>,
    },
    Opening { enc_key: Seq<u8>, data: Seq<u8> },
    Unpacking { enc_key: Seq<u8>, decrypted: Seq<u8> },
    Inflating { enc_key: Seq<u8>, decrypted: Seq<u8>, compressed: Seq<u8>, limit: nat },
    Handling { forward: ForwardView },
    Collecting { keys: Seq<u8> },
    Sealing { keys: Seq<u8>, body: Seq<u8> },
    Rejected { rejection: RejectionView },
    HandlerFailed,
    Untouched,
    Replied { body: Seq<u8> },
}

impl View for Stage {
    type V = StageView;

    open spec fn view(&self) -> StageView {
        match *self {
            Stage::Reading { raw } => StageView::Reading { raw: raw@ },
            Stage::Decoding { raw } => StageView::Decoding { raw: raw@ },
            Stage::AskingRedis { command, packet } => StageView::AskingRedis {
                command: crate::outside::command_args(command),
                packet: packet@,
            },
            Stage::AskingMemory { seen_key, packet } => StageView::AskingMemory {
                seen_key: seen_key@,
                packet: packet@,
            },
            Stage::Agreeing { one_time, key_id, client_pk, kx, data } => StageView::Agreeing {
                one_time,
                key_id: key_id@,
                client_pk: client_pk@,
                kx: kx@,
                data: data@,
            },
            Stage::Unwrapping { shared_secret, client_pk, server_pk, kx, data } =>
                StageView::Unwrapping {
                    shared_secret: shared_secret@,
                    client_pk: client_pk@,
                    server_pk: server_pk@,
                    kx: kx@,
                    data: data@,
                },
            Stage::Opening { enc_key, data } => StageView::Opening {
                enc_key: enc_key@,
                data: data@,
            },
            Stage::Unpacking { enc_key, decrypted } => StageView::Unpacking {
                enc_key: enc_key@,
                decrypted: decrypted@,
            },
            Stage::Inflating { enc_key, decrypted, compressed, limit } => StageView::Inflating {
                enc_key: enc_key@,
                decrypted: decrypted@,
                compressed: compressed@,
                limit: limit as nat,
            },
            Stage::Handling { forward } => StageView::Handling { forward: forward@ },
            Stage::Collecting { keys } => StageView::Collecting { keys: keys@ },
            Stage::Sealing { keys, body } => StageView::Sealing { keys: keys@, body: body@ },
            Stage::Rejected { rejection } => StageView::Rejected { rejection: rejection@ },
            Stage::HandlerFailed => StageView::HandlerFailed,
            Stage::Untouched => StageView::Untouched,
            Stage::Replied { body } => StageView::Replied { body: body@ },
        }
    }
}

/// What came of the work that a [`Stage`] asked for.
pub enum Event {
    /// A chunk of the body, the end of it, or why it could not be read.
    Read(Result<Option<Vec<u8>>, String>),
    /// The packet, if the body is one.
    Decoded(Option<Packet>),
    /// What Redis answered, if it answered.
    RedisReplied(Option<Option<String>>),
    /// Whether the in-memory replay store found the key new.
    MemoryReplied(bool),
    /// The shared secret and the server's public key, or why there is none.
    Agreed(Result<(Vec<u8>, [u8; 32]), String>),
    /// The unwrapped session key, or why it could not be unwrapped.
    Unwrapped(Result<Vec<u8>, String>),
    /// The decrypted payload, or why it could not be decrypted.
    Opened(Result<Vec<u8>, String>),
    /// The byte string in the payload, if it holds one.
    Unpacked(Option<Vec<u8>>),
    /// Whether the byte string decompressed within the limit.
    Inflated(bool),
    /// Whether the inner service came back with a response.
    Handled(bool),
    /// The body of the response, if it could be collected.
    Collected(Option<Vec<u8>>),
    /// The encrypted body, if it could be made.
    Sealed(Option<Vec<u8>>),
}

/// An event as the contracts speak of it.
#[verifier::ext_equal]
pub enum EventView {
    Read(Result<Option<Seq<u8>>, Seq<char>>),
    Decoded(Option<PacketView>),
    Agreed(Result<(Seq<u8>, Seq<u8>), Seq<char>>),
    Unwrapped(Result<Seq<u8>, Seq<char>>),
    RedisReplied(Option<Option<Seq<char>>>),
    MemoryReplied(bool),
    Opened(Result<Seq<u8>, Seq<char>>),
    Unpacked(Option<Seq<u8>>),
    Inflated(bool),
    Handled(bool),
    Collected(Option<Seq<u8>>),
    Sealed(Option<Seq<u8>>),
}

/// The bytes, or the text of the reason why there are none.
pub open spec fn bytes_or_reason(result: Result<Vec<u8>, String>) -> Result<Seq<u8>, Seq<char>> {
    match result {
        Ok(bytes) => Ok(bytes@),
        Err(reason) => Err(reason@),
    }
}

/// The bytes, if there are any.
pub open spec fn bytes_if_any(bytes: Option<Vec<u8>>) -> Option<Seq<u8>> {
    match bytes {
        Some(bytes) => Some(bytes@),
        None => None,
    }
}

impl View for Event {
    type V = EventView;

    open spec fn view(&self) -> EventView {
        match *self {
            Event::Read(Ok(chunk)) => EventView::Read(Ok(bytes_if_any(chunk))),
            Event::Read(Err(reason)) => EventView::Read(Err(reason@)),
            Event::Decoded(Some(packet)) => EventView::Decoded(Some(packet@)),
            Event::Decoded(None) => EventView::Decoded(None),
            Event::Agreed(Ok((secret, server_pk))) => EventView::Agreed(
                Ok((secret@, server_pk@)),
            ),
            Event::Agreed(Err(reason)) => EventView::Agreed(Err(reason@)),
            Event::Unwrapped(result) => EventView::Unwrapped(bytes_or_reason(result)),
            Event::RedisReplied(Some(Some(text))) => EventView::RedisReplied(Some(Some(text@))),
            Event::RedisReplied(Some(None)) => EventView::RedisReplied(Some(None)),
            Event::RedisReplied(None) => EventView::RedisReplied(None),
            Event::MemoryReplied(new) => EventView::MemoryReplied(new),
            Event::Opened(result) => EventView::Opened(bytes_or_reason(result)),
            Event::Unpacked(bytes) => EventView::Unpacked(bytes_if_any(bytes)),
            Event::Inflated(fits) => EventView::Inflated(fits),
            Event::Handled(responded) => EventView::Handled(responded),
            Event::Collected(bytes) => EventView::Collected(bytes_if_any(bytes)),
            Event::Sealed(bytes) => EventView::Sealed(bytes_if_any(bytes)),
        }
    }
}

/// One request on its way through the interceptor and back.
pub struct Exchange {
    /// The settings that were in force when the request came in.
    pub policy: Policy,
    /// The session keys in the request's extensions, as long as it has not been answered.
    pub session_keys: Option<RequestSessionKeys>,
    /// The work that is waited for, or how the exchange ended.
    pub stage: Stage,
}

/// An exchange as its contracts speak of it.
#[verifier::ext_equal]
pub struct ExchangeView {
    pub policy: Policy,
    pub session_keys: Option<Seq<u8>>,
    pub stage: StageView,
}

/// The session key, if there is one.
pub open spec fn keys_if_any(keys: Option<RequestSessionKeys>) -> Option<Seq<u8>> {
    match keys {
        Some(keys) => Some(keys@),
        None => None,
    }
}

impl View for Exchange {
    type V = ExchangeView;

    open spec fn view(&self) -> ExchangeView {
        ExchangeView {
            policy: self.policy,
            session_keys: keys_if_any(self.session_keys),
            stage: self.stage@,
        }
    }
}

/// Whether a request of this method takes the request path: one of POST, PUT or PATCH does, and
/// one of GET if the policy says so. Any other request goes to the inner service with its body
/// unread.
pub open spec fn body_is_read(policy: Policy, method: Seq<char>) -> bool {
    ||| method == "POST"@
    ||| method == "PUT"@
    ||| method == "PATCH"@
    ||| method == "GET"@ && policy.allow_encrypted_get
}

/// The stage of a refused request.
pub open spec fn refusal_of(status: u16, message: Seq<char>) -> StageView {
    StageView::Rejected { rejection: RejectionView { status, message } }
}

/// Key agreement for a packet. A key name that begins with `hs_` asks for a one-time handshake
/// key.
pub open spec fn agreement_of(packet: PacketView) -> StageView {
    StageView::Agreeing {
        one_time: crate::text::begins_with(packet.key_id, "hs_"@),
        key_id: packet.key_id,
        client_pk: packet.client_pk,
        kx: packet.kx,
        data: packet.data,
    }
}

impl ExchangeView {
    /// The exchange at its start.
    pub open spec fn start(
        policy: Policy,
        method: Seq<char>,
        session_keys: Option<Seq<u8>>,
    ) -> ExchangeView {
        let stage = if body_is_read(policy, method) {
            StageView::Reading { raw: Seq::empty() }
        } else {
            StageView::Handling { forward: ForwardView::AsReceived }
        };
        ExchangeView { policy, session_keys, stage }
    }

    /// The exchange at another stage.
    pub open spec fn at(self, stage: StageView) -> ExchangeView {
        ExchangeView { stage, ..self }
    }

    /// The exchange, refused.
    pub open spec fn refused(self, status: u16, message: Seq<char>) -> ExchangeView {
        self.at(refusal_of(status, message))
    }

    /// A chunk is appended to the body, which may not outgrow the limit. A complete body that is
    /// not empty goes on to be decoded.
    pub open spec fn after_read(
        self,
        raw: Seq<u8>,
        result: Result<Option<Seq<u8>>, Seq<char>>,
    ) -> ExchangeView {
        match result {
            Err(reason) => self.refused(400, reason),
            Ok(Some(chunk)) => if raw.len() + chunk.len() > self.policy.max_body_bytes {
                self.refused(413, "request body exceeds maximum allowed size"@)
            } else {
                self.at(StageView::Reading { raw: raw + chunk })
            },
            Ok(None) => if raw.len() == 0 {
                self.at(StageView::Handling { forward: ForwardView::AsReceived })
            } else {
                self.at(StageView::Decoding { raw })
            },
        }
    }

    /// A body that is not a packet goes on as it is, and a packet needs a public key of 32 bytes.
    /// Its wrapped key is then presented to the replay store: to Redis if there is one, else to
    /// the memory store if there is one.
    pub open spec fn after_decode(self, raw: Seq<u8>, packet: Option<PacketView>) -> ExchangeView {
        match packet {
            None => self.at(StageView::Handling { forward: ForwardView::Restored { raw } }),
            Some(packet) => if packet.client_pk.len() != 32 {
                self.refused(400, "client_pk must be 32 bytes"@)
            } else if self.policy.redis_replay {
                self.at(
                    StageView::AskingRedis {
                        command: crate::replay::redis_command_for(
                            crate::replay::seen_key_of(packet.kx),
                        ),
                        packet,
                    },
                )
            } else if self.policy.memory_replay {
                self.at(
                    StageView::AskingMemory {
                        seen_key: crate::replay::seen_key_of(packet.kx),
                        packet,
                    },
                )
            } else {
                self.after_replay_check(packet)
            },
        }
    }

    /// Redis answers with a value if the key is new. No answer at all is a refusal too.
    pub open spec fn after_redis(
        self,
        packet: PacketView,
        reply: Option<Option<Seq<char>>>,
    ) -> ExchangeView {
        match reply {
            None => self.refused(500, "replay store unavailable"@),
            Some(None) => self.refused(401, "replay detected"@),
            Some(Some(_)) => self.after_replay_check(packet),
        }
    }

    /// A key that the memory store has seen is a replay.
    pub open spec fn after_memory(self, packet: PacketView, new: bool) -> ExchangeView {
        if new {
            self.after_replay_check(packet)
        } else {
            self.refused(401, "replay detected"@)
        }
    }

    /// The wrapped key of the packet may be used: key agreement follows.
    pub open spec fn after_replay_check(self, packet: PacketView) -> ExchangeView {
        self.at(agreement_of(packet))
    }

    /// The agreed secret has to be 32 bytes long.
    pub open spec fn after_agreement(
        self,
        client_pk: Seq<u8>,
        kx: Seq<u8>,
        data: Seq<u8>,
        result: Result<(Seq<u8>, Seq<u8>), Seq<char>>,
    ) -> ExchangeView {
        match result {
            Err(reason) => self.refused(401, reason),
            Ok((shared_secret, server_pk)) => if shared_secret.len() != 32 {
                self.refused(500, "shared secret length invalid"@)
            } else {
                self.at(StageView::Unwrapping { shared_secret, client_pk, server_pk, kx, data })
            },
        }
    }

    /// The session key has to be 32 bytes long.
    pub open spec fn after_unwrap(
        self,
        data: Seq<u8>,
        result: Result<Seq<u8>, Seq<char>>,
    ) -> ExchangeView {
        match result {
            Err(reason) => self.refused(401, reason),
            Ok(enc_key) => if enc_key.len() != 32 {
                self.refused(400, "enc_key must be 32 bytes"@)
            } else {
                self.at(StageView::Opening { enc_key, data })
            },
        }
    }

    /// A payload that decrypts goes on to be unpacked.
    pub open spec fn after_open(
        self,
        enc_key: Seq<u8>,
        result: Result<Seq<u8>, Seq<char>>,
    ) -> ExchangeView {
        match result {
            Err(reason) => self.refused(400, reason),
            Ok(decrypted) => self.at(StageView::Unpacking { enc_key, decrypted }),
        }
    }

    /// The payload has to be a byte string, which goes on to be decompressed.
    pub open spec fn after_unpack(
        self,
        enc_key: Seq<u8>,
        decrypted: Seq<u8>,
        compressed: Option<Seq<u8>>,
    ) -> ExchangeView {
        match compressed {
            None => self.refused(400, "payload msgpack decode failed"@),
            Some(compressed) => self.at(
                StageView::Inflating {
                    enc_key,
                    decrypted,
                    compressed,
                    limit: self.policy.max_decompressed_bytes as nat,
                },
            ),
        }
    }

    /// A payload that decompresses within the limit reaches the inner service, with its session
    /// key.
    pub open spec fn after_inflate(
        self,
        enc_key: Seq<u8>,
        decrypted: Seq<u8>,
        fits: bool,
    ) -> ExchangeView {
        if fits {
            ExchangeView {
                session_keys: Some(enc_key),
                stage: StageView::Handling {
                    forward: ForwardView::Decrypted { body: decrypted },
                },
                ..self
            }
        } else {
            self.refused(413, "decompressed payload exceeds limit"@)
        }
    }

    /// A response is encrypted if the request has session keys, and left alone if it has none.
    pub open spec fn after_handler(self, responded: bool) -> ExchangeView {
        if !responded {
            self.at(StageView::HandlerFailed)
        } else {
            match self.session_keys {
                None => self.at(StageView::Untouched),
                Some(keys) => ExchangeView {
                    session_keys: None,
                    stage: StageView::Collecting { keys },
                    ..self
                },
            }
        }
    }

    /// The collected response goes on to be encrypted.
    pub open spec fn after_collect(self, keys: Seq<u8>, body: Option<Seq<u8>>) -> ExchangeView {
        match body {
            None => self.refused(500, "body collect failed"@),
            Some(body) => self.at(StageView::Sealing { keys, body }),
        }
    }

    /// If the response cannot be encrypted, its own body is sent.
    pub open spec fn after_seal(self, body: Seq<u8>, sealed: Option<Seq<u8>>) -> ExchangeView {
        match sealed {
            None => self.at(StageView::Replied { body }),
            Some(sealed) => self.at(StageView::Replied { body: sealed }),
        }
    }

    /// The exchange after an event. One that does not answer what the stage asked for changes
    /// nothing.
    pub open spec fn next(self, event: EventView) -> ExchangeView {
        match (self.stage, event) {
            (StageView::Reading { raw }, EventView::Read(result)) => self.after_read(raw, result),
            (StageView::Decoding { raw }, EventView::Decoded(packet)) => self.after_decode(
                raw,
                packet,
            ),
            (StageView::AskingRedis { command: _, packet }, EventView::RedisReplied(reply)) =>
                self.after_redis(packet, reply),
            (StageView::AskingMemory { seen_key: _, packet }, EventView::MemoryReplied(new)) =>
                self.after_memory(packet, new),
            (
                StageView::Agreeing { one_time: _, key_id: _, client_pk, kx, data },
                EventView::Agreed(result),
            ) => self.after_agreement(client_pk, kx, data, result),
            (
                StageView::Unwrapping {
                    shared_secret: _,
                    client_pk: _,
                    server_pk: _,
                    kx: _,
                    data,
                },
                EventView::Unwrapped(result),
            ) => self.after_unwrap(data, result),
            (StageView::Opening { enc_key, data: _ }, EventView::Opened(result)) =>
                self.after_open(enc_key, result),
            (StageView::Unpacking { enc_key, decrypted }, EventView::Unpacked(compressed)) =>
                self.after_unpack(enc_key, decrypted, compressed),
            (
                StageView::Inflating { enc_key, decrypted, compressed: _, limit: _ },
                EventView::Inflated(fits),
            ) => self.after_inflate(enc_key, decrypted, fits),
            (StageView::Handling { forward: _ }, EventView::Handled(responded)) =>
                self.after_handler(responded),
            (StageView::Collecting { keys }, EventView::Collected(body)) => self.after_collect(
                keys,
                body,
            ),
            (StageView::Sealing { keys: _, body }, EventView::Sealed(sealed)) => self.after_seal(
                body,
                sealed,
            ),
            _ => self,
        }
    }
}

/// The stage of a refused request.
fn refusal(status: u16, message: String) -> (stage: Stage)
    ensures
        stage@ == refusal_of(status, message@),
{
    Stage::Rejected { rejection: Rejection { status, message } }
}

/// The bytes as a key, if there are 32 of them.
fn key_from(bytes: &Vec<u8>) -> (key: Option<[u8; 32]>)
    ensures
        key is Some <==> bytes@.len() == 32,
        key matches Some(key) ==> key@ == bytes@,
{
    if bytes.len() != 32 {
        return None;
    }
    let mut key: [u8; 32] = [0u8; 32];
    let mut i: usize = 0;
    while i < 32
        invariant
            i <= 32,
            bytes@.len() == 32,
            forall|j: int| 0 <= j < i ==> key@[j] == bytes@[j],
        decreases 32 - i,
    {
        key[i] = bytes[i];
        i = i + 1;
    }
    assert(key@ =~= bytes@);
    Some(key)
}

/// Takes a secret out of the bytes, if there are 32 of them, and overwrites them with zeros.
fn take_secret(bytes: &mut Vec<u8>) -> (secret: Option<[u8; 32]>)
    ensures
        secret is Some <==> old(bytes)@.len() == 32,
        secret matches Some(secret) ==> secret@ == old(bytes)@,
        final(bytes)@.len() == old(bytes)@.len(),
        forall|i: int| 0 <= i < final(bytes)@.len() ==> #[trigger] final(bytes)@[i] == 0,
{
    let secret = key_from(&*bytes);
    zeroize_bytes(bytes.as_mut_slice());
    secret
}

/// Key agreement for a packet.
fn agreement_for(packet: CheckedPacket) -> (stage: Stage)
    ensures
        stage@ == agreement_of(packet@),
{
    let one_time: bool = starts_with(packet.key_id.as_str(), "hs_");
    Stage::Agreeing {
        one_time,
        key_id: packet.key_id,
        client_pk: packet.client_pk,
        kx: packet.kx,
        data: packet.data,
    }
}

impl Policy {
    /// Whether a request of this method takes the request path: one of POST, PUT or PATCH does, and
    /// one of GET if the policy says so.
    pub fn reads_body(&self, method: &str) -> (read: bool)
        ensures
            read == body_is_read(*self, method@),
            read == (method@ == "POST"@ || method@ == "PUT"@ || method@ == "PATCH"@ || (method@
                == "GET"@ && self.allow_encrypted_get)),
    {
        same_text(method, "POST") || same_text(method, "PUT") || same_text(method, "PATCH") || (
        self.allow_encrypted_get && same_text(method, "GET"))
    }
}

impl Exchange {
    /// Begins the exchange for a request of the given method. `session_keys` are those that the
    /// request's extensions hold already, if they hold any.
    pub fn begin(
        policy: Policy,
        method: &str,
        session_keys: Option<RequestSessionKeys>,
    ) -> (exchange: Exchange)
        ensures
            exchange@ == ExchangeView::start(policy, method@, keys_if_any(session_keys)),
            exchange.policy == policy,
            exchange.session_keys == session_keys,
            (method@ == "POST"@ || method@ == "PUT"@ || method@ == "PATCH"@ || (method@ == "GET"@
                && policy.allow_encrypted_get)) <==> exchange.stage is Reading,
            exchange.stage is Reading ==> exchange.stage->Reading_raw@.len() == 0,
            exchange.stage !is Reading ==> exchange.stage == (Stage::Handling {
                forward: Forward::AsReceived,
            }),
    {
        let stage = if policy.reads_body(method) {
            Stage::Reading { raw: Vec::new() }
        } else {
            Stage::Handling { forward: Forward::AsReceived }
        };
        Exchange { policy, session_keys, stage }
    }

    /// Takes the exchange on by the outcome of the work that its stage asked for.
    pub fn step(self, event: Event) -> (next: Exchange)
        ensures
            next@ == self@.next(event@),
    {
        let Exchange { policy, mut session_keys, stage } = self;
        let stage = match (stage, event) {
            (Stage::Reading { raw }, Event::Read(Ok(Some(chunk)))) => {
                let mut raw = raw;
                let mut chunk = chunk;
                raw.append(&mut chunk);
                if raw.len() > policy.max_body_bytes {
                    refusal(413, "request body exceeds maximum allowed size".to_owned())
                } else {
                    Stage::Reading { raw }
                }
            },
            (Stage::Reading { raw }, Event::Read(Ok(None))) => {
                if raw.len() == 0 {
                    Stage::Handling { forward: Forward::AsReceived }
                } else {
                    Stage::Decoding { raw }
                }
            },
            (Stage::Reading { raw: _ }, Event::Read(Err(reason))) => refusal(400, reason),
            (Stage::Decoding { raw }, Event::Decoded(None)) => Stage::Handling {
                forward: Forward::Restored { raw },
            },
            (Stage::Decoding { raw: _ }, Event::Decoded(Some(packet))) => {
                match key_from(&packet.client_pk) {
                    None => refusal(400, "client_pk must be 32 bytes".to_owned()),
                    Some(client_pk) => {
                        let packet = CheckedPacket {
                            key_id: packet.key_id,
                            client_pk,
                            kx: packet.kx,
                            data: packet.data,
                        };
                        if policy.redis_replay {
                            let command = redis_command(seen_key(packet.kx.as_slice()).as_str());
                            Stage::AskingRedis { command, packet }
                        } else if policy.memory_replay {
                            let seen_key = seen_key(packet.kx.as_slice());
                            Stage::AskingMemory { seen_key, packet }
                        } else {
                            agreement_for(packet)
                        }
                    },
                }
            },
            (Stage::AskingRedis { command: _, packet }, Event::RedisReplied(reply)) => {
                match reply {
                    None => refusal(500, "replay store unavailable".to_owned()),
                    Some(None) => refusal(401, "replay detected".to_owned()),
                    Some(Some(_)) => agreement_for(packet),
                }
            },
            (Stage::AskingMemory { seen_key: _, packet }, Event::MemoryReplied(new)) => {
                if new {
                    agreement_for(packet)
                } else {
                    refusal(401, "replay detected".to_owned())
                }
            },
            (
                Stage::Agreeing { one_time: _, key_id: _, client_pk, kx, data },
                Event::Agreed(Ok((secret, server_pk))),
            ) => {
                let mut secret = secret;
                match take_secret(&mut secret) {
                    None => refusal(500, "shared secret length invalid".to_owned()),
                    Some(bytes) => Stage::Unwrapping {
                        shared_secret: SharedSecret { bytes },
                        client_pk,
                        server_pk,
                        kx,
                        data,
                    },
                }
            },
            (
                Stage::Agreeing { one_time: _, key_id: _, client_pk: _, kx: _, data: _ },
                Event::Agreed(Err(reason)),
            ) => refusal(401, reason),
            (
                Stage::Unwrapping {
                    shared_secret: _,
                    client_pk: _,
                    server_pk: _,
                    kx: _,
                    data,
                },
                Event::Unwrapped(Ok(bytes)),
            ) => {
                match key_from(&bytes) {
                    None => refusal(400, "enc_key must be 32 bytes".to_owned()),
                    Some(enc_key) => Stage::Opening { enc_key, data },
                }
            },
            (
                Stage::Unwrapping {
                    shared_secret: _,
                    client_pk: _,
                    server_pk: _,
                    kx: _,
                    data: _,
                },
                Event::Unwrapped(Err(reason)),
            ) => refusal(401, reason),
            (Stage::Opening { enc_key, data: _ }, Event::Opened(result)) => {
                match result {
                    Err(reason) => refusal(400, reason),
                    Ok(decrypted) => Stage::Unpacking { enc_key, decrypted },
                }
            },
            (Stage::Unpacking { enc_key, decrypted }, Event::Unpacked(unpacked)) => {
                match unpacked {
                    None => refusal(400, "payload msgpack decode failed".to_owned()),
                    Some(compressed) => Stage::Inflating {
                        enc_key,
                        decrypted,
                        compressed,
                        limit: policy.max_decompressed_bytes,
                    },
                }
            },
            (
                Stage::Inflating { enc_key, decrypted, compressed: _, limit: _ },
                Event::Inflated(fits),
            ) => {
                if fits {
                    session_keys = Some(RequestSessionKeys { enc_key });
                    Stage::Handling {
                        forward: Forward::Decrypted { body: DecryptedBody(decrypted) },
                    }
                } else {
                    refusal(413, "decompressed payload exceeds limit".to_owned())
                }
            },
            (Stage::Handling { forward: _ }, Event::Handled(responded)) => {
                if !responded {
                    Stage::HandlerFailed
                } else {
                    match session_keys.take() {
                        None => Stage::Untouched,
                        Some(keys) => Stage::Collecting { keys },
                    }
                }
            },
            (Stage::Collecting { keys }, Event::Collected(collected)) => {
                match collected {
                    None => refusal(500, "body collect failed".to_owned()),
                    Some(body) => Stage::Sealing { keys, body },
                }
            },
            (Stage::Sealing { keys: _, body }, Event::Sealed(sealed)) => {
                match sealed {
                    None => Stage::Replied { body },
                    Some(sealed) => Stage::Replied { body: sealed },
                }
            },
            (stage, _) => stage,
        };
        Exchange { policy, session_keys, stage }
    }
}

} // verus!
