use alterion_encrypt::{
    Interceptor, InterceptorService, MemoryReplayStore, Stage, DEFAULT_MAX_BODY_BYTES,
    MAX_DECOMPRESSED_SIZE,
};

use futures_util::FutureExt;
use std::sync::{Arc, Mutex};

fn interceptor() -> Interceptor {
    Interceptor::new_with_memory_replay(
        alterion_ecdh::init_key_store(3600),
        alterion_ecdh::init_handshake_store(),
    )
}

fn shared() -> Interceptor<Mutex<MemoryReplayStore>> {
    let Interceptor {
        key_store,
        handshake_store,
        replay_store,
        memory_replay_store,
        max_body_bytes,
        max_decompressed_bytes,
        allow_encrypted_get,
    } = interceptor();
    Interceptor {
        key_store,
        handshake_store,
        replay_store,
        memory_replay_store: memory_replay_store
            .and_then(Arc::into_inner)
            .map(|store| Arc::new(Mutex::new(store))),
        max_body_bytes,
        max_decompressed_bytes,
        allow_encrypted_get,
    }
}

#[test]
fn defaults() {
    let made = interceptor();
    assert!(made.replay_store.is_none());
    assert_eq!(made.max_body_bytes, 1_048_576);
    assert_eq!(made.max_body_bytes, DEFAULT_MAX_BODY_BYTES);
    assert_eq!(made.max_decompressed_bytes, 10_485_760);
    assert_eq!(made.max_decompressed_bytes, MAX_DECOMPRESSED_SIZE);
    assert!(!made.allow_encrypted_get);
    assert!(!made.lacks_replay_protection());
}

#[test]
fn default_store_remembers_for_ninety_seconds() {
    let mut store = Arc::into_inner(interceptor().memory_replay_store.unwrap()).unwrap();
    assert!(store.is_new_at("k", 0));
    assert!(!store.is_new_at("k", 89_999_999_999));
    assert!(store.is_new_at("k", 90_000_000_000));
}

#[test]
fn lack_of_a_store_is_noticed() {
    let mut bare = interceptor();
    bare.memory_replay_store = None;
    assert!(bare.lacks_replay_protection());
}

#[test]
fn service_shares_the_stores_and_copies_the_settings() {
    let mut made = shared();
    made.max_body_bytes = 5;
    made.max_decompressed_bytes = 6;
    made.allow_encrypted_get = true;
    let service: InterceptorService<&str, Mutex<MemoryReplayStore>> = made.new_transform("inner");
    assert_eq!(*service.service, "inner");
    assert!(Arc::ptr_eq(&service.key_store, &made.key_store));
    assert!(service.replay_store.is_none());
    assert_eq!(service.max_body_bytes, 5);
    assert_eq!(service.max_decompressed_bytes, 6);
    assert!(service.allow_encrypted_get);
    let theirs = service.memory_replay_store.unwrap();
    assert!(made.memory_replay_store.as_ref().unwrap().lock().unwrap().is_new("k"));
    assert!(!theirs.lock().unwrap().is_new("k"));
}

#[test]
fn key_accepted_by_one_worker_is_a_replay_for_the_others() {
    let made = shared();
    let one = made.new_transform(1u8).memory_replay_store.unwrap();
    let other = made.new_transform("two").memory_replay_store.unwrap();
    assert!(Arc::ptr_eq(&one, &other));
    assert!(one.lock().unwrap().is_new("k"));
    assert!(!other.lock().unwrap().is_new("k"));
}

#[test]
fn service_without_a_memory_store_is_made_without_one() {
    let mut made = shared();
    made.memory_replay_store = None;
    assert!(made.new_transform(()).memory_replay_store.is_none());
}

#[test]
fn calls_begin_under_the_settings_of_the_service() {
    let mut made = shared();
    made.max_body_bytes = 5;
    made.max_decompressed_bytes = 6;
    let exchange = made.new_transform(()).call("POST", None);
    assert!(matches!(exchange.stage, Stage::Reading { .. }));
    assert!(exchange.session_keys.is_none());
    assert!(!exchange.policy.redis_replay);
    assert!(exchange.policy.memory_replay);
    assert_eq!(exchange.policy.max_body_bytes, 5);
    assert_eq!(exchange.policy.max_decompressed_bytes, 6);
    assert!(!exchange.policy.allow_encrypted_get);
    assert!(matches!(made.new_transform(()).call("GET", None).stage, Stage::Handling { .. }));
    made.allow_encrypted_get = true;
    assert!(matches!(made.new_transform(()).call("GET", None).stage, Stage::Reading { .. }));
}

#[test]
fn handshake_store_of_the_service_is_the_same_store() {
    let made = shared();
    let service = made.new_transform(());
    let (id, _) = alterion_ecdh::init_handshake(&made.handshake_store).unwrap();
    let pk = [9u8; 32];
    let used = alterion_ecdh::ecdh_ephemeral(&service.handshake_store, &id, &pk).now_or_never();
    assert!(matches!(used, Some(Ok(_))));
    let again = alterion_ecdh::ecdh_ephemeral(&made.handshake_store, &id, &pk).now_or_never();
    assert!(matches!(again, Some(Err(_))));
}
