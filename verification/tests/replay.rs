use alterion_encrypt::replay::{redis_command, seen_key, MemoryReplayStore};

const SECOND: u128 = 1_000_000_000;

fn arguments(command: &redis::Cmd) -> Vec<Vec<u8>> {
    command
        .args_iter()
        .map(|arg| match arg {
            redis::Arg::Simple(bytes) => bytes.to_vec(),
            redis::Arg::Cursor => panic!("no cursor is expected"),
        })
        .collect()
}

#[test]
fn first_presentation_is_new_and_second_is_not() {
    let mut store = MemoryReplayStore::new(90 * SECOND);
    assert!(store.is_new("a"));
    assert!(!store.is_new("a"));
    assert!(store.is_new("b"));
    assert!(!store.is_new("b"));
    assert!(!store.is_new("a"));
}

#[test]
fn key_is_refused_until_its_time_to_live_has_passed() {
    let mut store = MemoryReplayStore::new(90 * SECOND);
    assert!(store.is_new_at("a", 5 * SECOND));
    assert!(!store.is_new_at("a", 5 * SECOND));
    assert!(!store.is_new_at("a", 95 * SECOND - 1));
    assert!(store.is_new_at("a", 95 * SECOND));
    assert!(!store.is_new_at("a", 96 * SECOND));
}

#[test]
fn refused_presentation_does_not_prolong_the_time() {
    let mut store = MemoryReplayStore::new(10);
    assert!(store.is_new_at("a", 0));
    assert!(!store.is_new_at("a", 9));
    assert!(store.is_new_at("a", 10));
}

#[test]
fn other_keys_leave_a_key_alone() {
    let mut store = MemoryReplayStore::new(10);
    assert!(store.is_new_at("a", 0));
    assert!(store.is_new_at("b", 3));
    assert!(store.is_new_at("", 4));
    assert!(!store.is_new_at("a", 9));
    assert!(store.is_new_at("a", 10));
    assert!(!store.is_new_at("b", 12));
    assert!(!store.is_new_at("", 13));
    assert!(store.is_new_at("b", 13));
}

#[test]
fn histories_that_share_the_calls_for_a_key_agree_on_it() {
    let mut one = MemoryReplayStore::new(10);
    let mut other = MemoryReplayStore::new(10);
    for (key, at) in [("x", 0), ("a", 1), ("y", 4), ("x", 9), ("a", 12), ("z", 20)] {
        one.is_new_at(key, at);
    }
    for (key, at) in [("a", 1), ("a", 12), ("b", 13), ("b", 21)] {
        other.is_new_at(key, at);
    }
    assert!(!one.is_new_at("a", 21));
    assert!(!other.is_new_at("a", 21));
    assert!(one.is_new_at("a", 22));
    assert!(other.is_new_at("a", 22));
}

#[test]
fn of_many_calls_only_the_first_is_new() {
    let mut store = MemoryReplayStore::new(100);
    let new: Vec<bool> = (0..50).map(|at| store.is_new_at("a", at)).collect();
    assert!(new[0]);
    assert!(new[1..].iter().all(|new| !new));
}

#[test]
fn entry_from_a_later_time_counts_as_fresh() {
    let mut store = MemoryReplayStore::new(10);
    assert!(store.is_new_at("a", 100));
    assert!(!store.is_new_at("a", 50));
    assert!(!store.is_new_at("a", 109));
    assert!(store.is_new_at("a", 110));
}

#[test]
fn without_a_time_to_live_everything_is_new() {
    let mut store = MemoryReplayStore::new(0);
    assert!(store.is_new("a"));
    assert!(store.is_new("a"));
    assert!(store.is_new_at("b", 7));
    assert!(store.is_new_at("b", 7));
}

#[test]
fn clock_advances_between_checks() {
    let mut store = MemoryReplayStore::new(1_000_000);
    assert!(store.is_new("a"));
    let start = std::time::Instant::now();
    while start.elapsed().as_millis() < 5 {}
    assert!(store.is_new("a"));
}

#[test]
fn texts_are_compared_by_characters() {
    let mut store = MemoryReplayStore::new(10);
    assert!(store.is_new_at("naïve", 0));
    assert!(store.is_new_at("naive", 0));
    assert!(!store.is_new_at("naïve", 1));
    assert!(store.is_new_at("naïv", 1));
}

#[test]
fn name_of_a_wrapped_key_is_its_lower_case_hex() {
    assert_eq!(seen_key(&[]), "replay:seen:");
    assert_eq!(seen_key(&[0x01, 0x02, 0x0f, 0x10, 0xab, 0xff]), "replay:seen:01020f10abff");
    assert_ne!(seen_key(&[0, 1]), seen_key(&[1, 0]));
    assert_ne!(seen_key(&[0]), seen_key(&[0, 0]));
}

#[test]
fn redis_is_asked_to_enter_the_key_for_a_minute() {
    let command = redis_command("replay:seen:ff");
    let expected: Vec<Vec<u8>> = vec![
        b"SET".to_vec(),
        b"replay:seen:ff".to_vec(),
        b"1".to_vec(),
        b"NX".to_vec(),
        b"EX".to_vec(),
        b"60".to_vec(),
    ];
    assert_eq!(arguments(&command), expected);
}

#[test]
fn redis_command_is_the_one_built_from_typed_arguments() {
    let mut typed = redis::cmd("SET");
    typed.arg("k").arg(1u8).arg("NX").arg("EX").arg(60u64);
    assert_eq!(redis_command("k").get_packed_command(), typed.get_packed_command());
}
