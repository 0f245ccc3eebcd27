use alterion_encrypt::{
    DecryptedBody, Event, Exchange, Forward, MemoryReplayStore, Packet, Policy,
    RequestSessionKeys, Stage,
};

fn policy() -> Policy {
    Policy {
        redis_replay: false,
        memory_replay: true,
        max_body_bytes: 8,
        max_decompressed_bytes: 100,
        allow_encrypted_get: false,
    }
}

fn packet(key_id: &str) -> Packet {
    Packet {
        key_id: key_id.to_string(),
        client_pk: vec![7; 32],
        kx: vec![0xab, 0x01],
        data: vec![5, 6],
    }
}

fn begin(policy: Policy) -> Exchange {
    Exchange::begin(policy, "POST", None)
}

fn run(exchange: Exchange, events: Vec<Event>) -> Exchange {
    events.into_iter().fold(exchange, |exchange, event| exchange.step(event))
}

fn chunk(bytes: &[u8]) -> Event {
    Event::Read(Ok(Some(bytes.to_vec())))
}

fn end() -> Event {
    Event::Read(Ok(None))
}

fn refused(exchange: &Exchange) -> (u16, String) {
    match &exchange.stage {
        Stage::Rejected { rejection } => (rejection.status, rejection.message.clone()),
        _ => panic!("the request is expected to be refused"),
    }
}

fn decoded(policy: Policy, packet: Packet) -> Exchange {
    run(begin(policy), vec![chunk(&[1, 2, 3]), end(), Event::Decoded(Some(packet))])
}

fn agreed(key_id: &str) -> Exchange {
    run(
        decoded(policy(), packet(key_id)),
        vec![Event::MemoryReplied(true), Event::Agreed(Ok((vec![8; 32], [9; 32])))],
    )
}

fn opened() -> Exchange {
    run(
        agreed("k"),
        vec![Event::Unwrapped(Ok(vec![4; 32])), Event::Opened(Ok(vec![0xc4, 1, 0]))],
    )
}

fn served() -> Exchange {
    run(opened(), vec![Event::Unpacked(Some(vec![0])), Event::Inflated(true)])
}

#[test]
fn bodies_are_read_by_method() {
    let mut open = policy();
    open.allow_encrypted_get = true;
    for method in ["POST", "PUT", "PATCH"] {
        assert!(policy().reads_body(method));
        assert!(matches!(Exchange::begin(policy(), method, None).stage, Stage::Reading { .. }));
    }
    for method in ["HEAD", "OPTIONS", "GET", "DELETE", "TRACE", "post", ""] {
        assert!(!policy().reads_body(method));
        assert!(matches!(
            Exchange::begin(policy(), method, None).stage,
            Stage::Handling { forward: Forward::AsReceived }
        ));
    }
    assert!(open.reads_body("GET"));
    assert!(!open.reads_body("HEAD"));
    assert!(!open.reads_body("OPTIONS"));
    assert!(!open.reads_body("DELETE"));
    assert!(!open.reads_body("get"));
}

#[test]
fn delete_with_a_packet_goes_on_as_received() {
    let exchange = run(
        Exchange::begin(policy(), "DELETE", None),
        vec![chunk(&[1, 2, 3]), end(), Event::Decoded(Some(packet("k")))],
    );
    assert!(matches!(exchange.stage, Stage::Handling { forward: Forward::AsReceived }));
    assert!(exchange.session_keys.is_none());
    assert!(matches!(exchange.step(Event::Handled(true)).stage, Stage::Untouched));
}

#[test]
fn body_up_to_the_limit_is_collected() {
    let exchange =
        run(begin(policy()), vec![chunk(&[1, 2, 3]), chunk(&[]), chunk(&[4, 5, 6, 7, 8])]);
    match &exchange.stage {
        Stage::Reading { raw } => assert_eq!(raw, &vec![1, 2, 3, 4, 5, 6, 7, 8]),
        _ => panic!("the body is expected to be read on"),
    }
    match exchange.step(end()).stage {
        Stage::Decoding { raw } => assert_eq!(raw, vec![1, 2, 3, 4, 5, 6, 7, 8]),
        _ => panic!("the body is expected to be decoded"),
    }
}

#[test]
fn body_over_the_limit_is_refused_at_once() {
    let exchange = run(begin(policy()), vec![chunk(&[0; 8]), chunk(&[0])]);
    assert_eq!(refused(&exchange), (413, "request body exceeds maximum allowed size".to_string()));
    let exchange = run(exchange, vec![end(), Event::Decoded(Some(packet("k")))]);
    assert_eq!(refused(&exchange), (413, "request body exceeds maximum allowed size".to_string()));
}

#[test]
fn unreadable_body_is_refused() {
    let exchange = begin(policy()).step(Event::Read(Err("stream broke".to_string())));
    assert_eq!(refused(&exchange), (400, "stream broke".to_string()));
}

#[test]
fn empty_body_goes_on_as_received() {
    let exchange = run(begin(policy()), vec![chunk(&[]), end()]);
    assert!(matches!(exchange.stage, Stage::Handling { forward: Forward::AsReceived }));
    assert!(matches!(exchange.step(Event::Handled(true)).stage, Stage::Untouched));
}

#[test]
fn other_body_is_put_back_and_its_response_left_alone() {
    let exchange = run(begin(policy()), vec![chunk(b"{}"), end(), Event::Decoded(None)]);
    match &exchange.stage {
        Stage::Handling { forward: Forward::Restored { raw } } => assert_eq!(raw, b"{}"),
        _ => panic!("the body is expected to be put back"),
    }
    assert!(exchange.session_keys.is_none());
    assert!(matches!(exchange.step(Event::Handled(true)).stage, Stage::Untouched));
}

#[test]
fn memory_store_is_asked_by_the_name_of_the_wrapped_key() {
    match decoded(policy(), packet("k")).stage {
        Stage::AskingMemory { seen_key, packet } => {
            assert_eq!(seen_key, "replay:seen:ab01");
            assert_eq!(packet.data, vec![5, 6]);
        }
        _ => panic!("the memory store is expected to be asked"),
    }
}

#[test]
fn redis_is_asked_before_the_memory_store() {
    let mut both = policy();
    both.redis_replay = true;
    match decoded(both, packet("k")).stage {
        Stage::AskingRedis { command, .. } => {
            let mut expected = redis::cmd("SET");
            expected.arg("replay:seen:ab01").arg(1u8).arg("NX").arg("EX").arg(60u64);
            assert_eq!(command.get_packed_command(), expected.get_packed_command());
        }
        _ => panic!("Redis is expected to be asked"),
    }
}

#[test]
fn without_a_store_key_agreement_follows_at_once() {
    let mut none = policy();
    none.memory_replay = false;
    assert!(matches!(decoded(none, packet("k")).stage, Stage::Agreeing { .. }));
}

#[test]
fn replay_is_refused() {
    let exchange = decoded(policy(), packet("k")).step(Event::MemoryReplied(false));
    assert_eq!(refused(&exchange), (401, "replay detected".to_string()));
    let mut redis = policy();
    redis.redis_replay = true;
    let exchange = decoded(redis, packet("k")).step(Event::RedisReplied(Some(None)));
    assert_eq!(refused(&exchange), (401, "replay detected".to_string()));
    let exchange = decoded(redis, packet("k")).step(Event::RedisReplied(None));
    assert_eq!(refused(&exchange), (500, "replay store unavailable".to_string()));
    let exchange =
        decoded(redis, packet("k")).step(Event::RedisReplied(Some(Some("OK".to_string()))));
    assert!(matches!(exchange.stage, Stage::Agreeing { .. }));
}

#[test]
fn packet_sent_twice_is_refused_the_second_time() {
    let mut store = MemoryReplayStore::new(90);
    let mut present = |now: u128| {
        let exchange = decoded(policy(), packet("k"));
        let new = match &exchange.stage {
            Stage::AskingMemory { seen_key, .. } => store.is_new_at(seen_key, now),
            _ => panic!("the memory store is expected to be asked"),
        };
        exchange.step(Event::MemoryReplied(new))
    };
    assert!(matches!(present(10).stage, Stage::Agreeing { .. }));
    assert_eq!(refused(&present(99)), (401, "replay detected".to_string()));
    assert!(matches!(present(100).stage, Stage::Agreeing { .. }));
}

#[test]
fn key_name_decides_between_handshake_and_long_lived_key() {
    let names = [
        ("hs_1", true),
        ("hs_", true),
        ("hs", false),
        ("HS_1", false),
        ("xhs_", false),
        ("", false),
    ];
    for (key_id, expected) in names {
        match decoded(policy(), packet(key_id)).step(Event::MemoryReplied(true)).stage {
            Stage::Agreeing { one_time, key_id: name, client_pk, kx, data } => {
                assert_eq!(one_time, expected);
                assert_eq!(name, key_id);
                assert_eq!(client_pk, [7; 32]);
                assert_eq!(kx, vec![0xab, 0x01]);
                assert_eq!(data, vec![5, 6]);
            }
            _ => panic!("key agreement is expected"),
        }
    }
}

#[test]
fn public_key_has_to_be_of_the_right_size() {
    for size in [0, 31, 33] {
        let mut odd = packet("k");
        odd.client_pk = vec![7; size];
        let exchange = decoded(policy(), odd);
        assert_eq!(refused(&exchange), (400, "client_pk must be 32 bytes".to_string()));
        let exchange = exchange.step(Event::MemoryReplied(false));
        assert_eq!(refused(&exchange), (400, "client_pk must be 32 bytes".to_string()));
    }
}

#[test]
fn agreement_leads_to_unwrapping() {
    match agreed("k").stage {
        Stage::Unwrapping { shared_secret, client_pk, server_pk, kx, data } => {
            assert_eq!(shared_secret.bytes, [8; 32]);
            assert_eq!(client_pk, [7; 32]);
            assert_eq!(server_pk, [9; 32]);
            assert_eq!(kx, vec![0xab, 0x01]);
            assert_eq!(data, vec![5, 6]);
        }
        _ => panic!("unwrapping is expected"),
    }
}

#[test]
fn failed_agreement_is_refused() {
    let asked = || decoded(policy(), packet("k")).step(Event::MemoryReplied(true));
    let exchange = asked().step(Event::Agreed(Err("key_expired".to_string())));
    assert_eq!(refused(&exchange), (401, "key_expired".to_string()));
    let exchange = asked().step(Event::Agreed(Ok((vec![8; 31], [9; 32]))));
    assert_eq!(refused(&exchange), (500, "shared secret length invalid".to_string()));
}

#[test]
fn session_key_has_to_unwrap_to_the_right_size() {
    let exchange = agreed("k").step(Event::Unwrapped(Err("aead".to_string())));
    assert_eq!(refused(&exchange), (401, "aead".to_string()));
    let exchange = agreed("k").step(Event::Unwrapped(Ok(vec![4; 16])));
    assert_eq!(refused(&exchange), (400, "enc_key must be 32 bytes".to_string()));
    match agreed("k").step(Event::Unwrapped(Ok(vec![4; 32]))).stage {
        Stage::Opening { enc_key, data } => {
            assert_eq!(enc_key, [4; 32]);
            assert_eq!(data, vec![5, 6]);
        }
        _ => panic!("decryption is expected"),
    }
}

#[test]
fn payload_that_cannot_be_used_is_refused() {
    let opening = || agreed("k").step(Event::Unwrapped(Ok(vec![4; 32])));
    let exchange = opening().step(Event::Opened(Err("aead".to_string())));
    assert_eq!(refused(&exchange), (400, "aead".to_string()));
    let exchange = opened().step(Event::Unpacked(None));
    assert_eq!(refused(&exchange), (400, "payload msgpack decode failed".to_string()));
    let exchange = run(opened(), vec![Event::Unpacked(Some(vec![0])), Event::Inflated(false)]);
    assert_eq!(refused(&exchange), (413, "decompressed payload exceeds limit".to_string()));
}

#[test]
fn decompression_is_held_to_the_configured_limit() {
    match opened().step(Event::Unpacked(Some(vec![3, 2, 1]))).stage {
        Stage::Inflating { compressed, limit, decrypted, enc_key } => {
            assert_eq!(compressed, vec![3, 2, 1]);
            assert_eq!(limit, 100);
            assert_eq!(decrypted, vec![0xc4, 1, 0]);
            assert_eq!(enc_key, [4; 32]);
        }
        _ => panic!("decompression is expected"),
    }
}

#[test]
fn request_in_order_is_served_with_its_keys() {
    let exchange = served();
    match &exchange.stage {
        Stage::Handling { forward: Forward::Decrypted { body } } => {
            assert_eq!(body.0, vec![0xc4, 1, 0]);
        }
        _ => panic!("the handler is expected to be called"),
    }
    assert_eq!(exchange.session_keys.as_ref().unwrap().enc_key, [4; 32]);
    let exchange = run(exchange, vec![Event::Handled(true), Event::Collected(Some(vec![1]))]);
    match &exchange.stage {
        Stage::Sealing { keys, body } => {
            assert_eq!(keys.enc_key, [4; 32]);
            assert_eq!(body, &vec![1]);
        }
        _ => panic!("encryption is expected"),
    }
    match exchange.step(Event::Sealed(Some(vec![2, 3]))).stage {
        Stage::Replied { body } => assert_eq!(body, vec![2, 3]),
        _ => panic!("a reply is expected"),
    }
}

#[test]
fn response_that_cannot_be_sealed_is_sent_as_it_is() {
    let exchange = run(
        served(),
        vec![Event::Handled(true), Event::Collected(Some(vec![1])), Event::Sealed(None)],
    );
    match exchange.stage {
        Stage::Replied { body } => assert_eq!(body, vec![1]),
        _ => panic!("a reply is expected"),
    }
}

#[test]
fn response_that_cannot_be_collected_is_an_error() {
    let exchange = run(served(), vec![Event::Handled(true), Event::Collected(None)]);
    assert_eq!(refused(&exchange), (500, "body collect failed".to_string()));
}

#[test]
fn error_of_the_handler_is_handed_on() {
    assert!(matches!(served().step(Event::Handled(false)).stage, Stage::HandlerFailed));
}

#[test]
fn keys_that_the_request_came_with_seal_its_response() {
    let keys = RequestSessionKeys { enc_key: [3; 32] };
    let exchange = Exchange::begin(policy(), "HEAD", Some(keys)).step(Event::Handled(true));
    match exchange.stage {
        Stage::Collecting { keys } => assert_eq!(keys.enc_key, [3; 32]),
        _ => panic!("the response is expected to be collected"),
    }
}

#[test]
fn event_that_answers_nothing_changes_nothing() {
    let exchange = run(
        begin(policy()),
        vec![chunk(&[1]), Event::Inflated(true), Event::MemoryReplied(false), Event::Handled(true)],
    );
    match exchange.stage {
        Stage::Reading { raw } => assert_eq!(raw, vec![1]),
        _ => panic!("the body is expected to be read on"),
    }
}

#[test]
fn copies_hold_the_same_bytes() {
    assert_eq!(DecryptedBody(vec![1, 2]).clone().0, vec![1, 2]);
    let keys = RequestSessionKeys { enc_key: [6; 32] };
    let copy = keys.clone();
    drop(keys);
    assert_eq!(copy.enc_key, [6; 32]);
}
