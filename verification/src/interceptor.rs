//! The interceptor as it is configured, and the service that it makes for each worker.

use vstd::prelude::*;

use std::rc::Rc;
use std::sync::Arc;

use alterion_ecdh::{HandshakeStore, KeyStore};
use redis::aio::ConnectionManager;
use tokio::sync::RwLock;

use crate::exchange::{Exchange, Policy};
use crate::replay::{MemoryReplayStore, MEMORY_REPLAY_TTL_NANOS};
use crate::session::RequestSessionKeys;

verus! {

/// Default maximum raw request body size (1 MiB).
pub const DEFAULT_MAX_BODY_BYTES: usize = 1024 * 1024;

/// Default maximum decompressed payload size (10 MiB).
pub const MAX_DECOMPRESSED_SIZE: usize = 10 * 1024 * 1024;

/// Settings and stores of an interceptor that transparently decrypts request bodies and
/// encrypts response bodies.
///
/// `M` is how the in-memory replay store is kept: bare when the interceptor is made, and behind a
/// lock where workers ask it.
pub struct Interceptor<M = MemoryReplayStore> {
    /// The rotating server keys.
    pub key_store: Arc<RwLock<KeyStore>>,
    /// The pending one-time handshake keys.
    pub handshake_store: HandshakeStore,
    /// Redis-backed replay store. Takes precedence over `memory_replay_store` when `Some`.
    pub replay_store: Option<ConnectionManager>,
    /// In-memory replay store used when `replay_store` is `None`, shared by all workers.
    pub memory_replay_store: Option<Arc<M>>,
    /// Maximum raw (compressed and encrypted) request body in bytes. Requests exceeding this are
    /// refused with 413 before any decryption occurs.
    pub max_body_bytes: usize,
    /// Maximum decompressed payload size in bytes. Requests whose payload would expand beyond
    /// this are refused with 413 after decryption but before the handler sees the body.
    pub max_decompressed_bytes: usize,
    /// When `true`, GET requests that carry a body are read like those of POST, PUT and PATCH.
    pub allow_encrypted_get: bool,
}

impl Interceptor<MemoryReplayStore> {
    /// Creates an interceptor with in-memory replay protection (keys are remembered for ninety
    /// seconds) and default size limits (1 MiB raw body, 10 MiB decompressed).
    pub fn new_with_memory_replay(
        key_store: Arc<RwLock<KeyStore>>,
        handshake_store: HandshakeStore,
    ) -> (interceptor: Self)
        ensures
            interceptor.key_store == key_store,
            interceptor.handshake_store == handshake_store,
            interceptor.replay_store is None,
            interceptor.memory_replay_store matches Some(store) && (*store)@
                == crate::replay::SeenKeys::fresh(90_000_000_000),
            interceptor.memory_replay_store matches Some(store) && (*store)@.ttl == 90_000_000_000
                && (*store)@.seen == Map::<Seq<char>, nat>::empty(),
            interceptor.max_body_bytes == 1_048_576,
            interceptor.max_decompressed_bytes == 10_485_760,
            !interceptor.allow_encrypted_get,
    {
        Interceptor {
            key_store,
            handshake_store,
            replay_store: None,
            memory_replay_store: Some(
                Arc::new(MemoryReplayStore::new(MEMORY_REPLAY_TTL_NANOS)),
            ),
            max_body_bytes: DEFAULT_MAX_BODY_BYTES,
            max_decompressed_bytes: MAX_DECOMPRESSED_SIZE,
            allow_encrypted_get: false,
        }
    }
}

impl<M> Interceptor<M> {
    /// Whether no replay store is configured, so that a request can be replayed for as long as
    /// its timestamp is accepted.
    pub fn lacks_replay_protection(&self) -> (lacking: bool)
        ensures
            lacking == (self.replay_store is None && self.memory_replay_store is None),
    {
        self.replay_store.is_none() && self.memory_replay_store.is_none()
    }

    /// Makes the service of one worker around the inner service. The stores are shared with it,
    /// the settings are copied.
    pub fn new_transform<S>(&self, service: S) -> (made: InterceptorService<S, M>)
        ensures
            made.made_from(*self, service),
            made.key_store == self.key_store,
            made.handshake_store == self.handshake_store,
            made.replay_store == self.replay_store,
            made.memory_replay_store == self.memory_replay_store,
            *made.service == service,
            made.max_body_bytes == self.max_body_bytes,
            made.max_decompressed_bytes == self.max_decompressed_bytes,
            made.allow_encrypted_get == self.allow_encrypted_get,
    {
        InterceptorService {
            service: Rc::new(service),
            key_store: self.key_store.clone(),
            handshake_store: self.handshake_store.clone(),
            replay_store: self.replay_store.clone(),
            memory_replay_store: match &self.memory_replay_store {
                Some(store) => Some(Arc::clone(store)),
                None => None,
            },
            max_body_bytes: self.max_body_bytes,
            max_decompressed_bytes: self.max_decompressed_bytes,
            allow_encrypted_get: self.allow_encrypted_get,
        }
    }
}

/// The service that one worker runs, made by [`Interceptor::new_transform`].
pub struct InterceptorService<S, M = MemoryReplayStore> {
    pub service: Rc<S>,
    pub key_store: Arc<RwLock<KeyStore>>,
    pub handshake_store: HandshakeStore,
    pub replay_store: Option<ConnectionManager>,
    pub memory_replay_store: Option<Arc<M>>,
    pub max_body_bytes: usize,
    pub max_decompressed_bytes: usize,
    pub allow_encrypted_get: bool,
}

impl<S, M> InterceptorService<S, M> {
    /// The service runs the inner service under the settings of the interceptor and with its
    /// stores.
    pub open spec fn made_from(self, interceptor: Interceptor<M>, service: S) -> bool {
        &&& *self.service == service
        &&& self.key_store == interceptor.key_store
        &&& self.handshake_store == interceptor.handshake_store
        &&& self.replay_store == interceptor.replay_store
        &&& self.memory_replay_store == interceptor.memory_replay_store
        &&& self.max_body_bytes == interceptor.max_body_bytes
        &&& self.max_decompressed_bytes == interceptor.max_decompressed_bytes
        &&& self.allow_encrypted_get == interceptor.allow_encrypted_get
    }

    /// What the decisions of the service depend on.
    pub open spec fn policy(self) -> Policy {
        Policy {
            redis_replay: self.replay_store is Some,
            memory_replay: self.memory_replay_store is Some,
            max_body_bytes: self.max_body_bytes,
            max_decompressed_bytes: self.max_decompressed_bytes,
            allow_encrypted_get: self.allow_encrypted_get,
        }
    }

    /// Begins the exchange for a request of the given method. `session_keys` are those that the
    /// request's extensions hold already, if they hold any. [`Exchange::step`] takes it on.
    pub fn call(&self, method: &str, session_keys: Option<RequestSessionKeys>) -> (exchange:
        Exchange)
        ensures
            exchange@ == crate::exchange::ExchangeView::start(
                self.policy(),
                method@,
                crate::exchange::keys_if_any(session_keys),
            ),
            exchange.policy.redis_replay == (self.replay_store is Some),
            exchange.policy.memory_replay == (self.memory_replay_store is Some),
            exchange.policy.max_body_bytes == self.max_body_bytes,
            exchange.policy.max_decompressed_bytes == self.max_decompressed_bytes,
            exchange.policy.allow_encrypted_get == self.allow_encrypted_get,
            exchange.session_keys == session_keys,
    {
        let policy = Policy {
            redis_replay: self.replay_store.is_some(),
            memory_replay: self.memory_replay_store.is_some(),
            max_body_bytes: self.max_body_bytes,
            max_decompressed_bytes: self.max_decompressed_bytes,
            allow_encrypted_get: self.allow_encrypted_get,
        };
        Exchange::begin(policy, method, session_keys)
    }
}

} // verus!
