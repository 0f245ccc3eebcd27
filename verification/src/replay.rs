//! Replay protection: which wrapped keys have been seen, and how a replay store is asked.

use vstd::prelude::*;
use vstd::string::StringExecFns;

use std::time::Instant;

use crate::outside::{add_argument, hex_encode, nanos_since, new_command};
use crate::text::same_text;

verus! {

/// How long [`crate::Interceptor::new_with_memory_replay`] remembers a key: ninety seconds.
pub const MEMORY_REPLAY_TTL_NANOS: u128 = 90_000_000_000;

/// How old an entry made at `at` is at `now`; one made later than `now` counts as fresh.
pub open spec fn age(at: nat, now: nat) -> nat {
    if at <= now {
        (now - at) as nat
    } else {
        0
    }
}

/// What a replay store remembers: when each key was first seen, and for how long that counts.
#[verifier::ext_equal]
pub struct SeenKeys {
    pub seen: Map<Seq<char>, nat>,
    pub ttl: nat,
}

impl SeenKeys {
    /// The store that has seen nothing.
    pub open spec fn fresh(ttl: nat) -> SeenKeys {
        SeenKeys { seen: Map::empty(), ttl }
    }

    /// `key` was seen, and less than the time to live before `now`.
    pub open spec fn remembers(self, key: Seq<char>, now: nat) -> bool {
        self.seen.contains_key(key) && age(self.seen[key], now) < self.ttl
    }

    /// The store without the entries that have expired by `now`.
    pub open spec fn pruned(self, now: nat) -> SeenKeys {
        SeenKeys {
            seen: Map::new(|k: Seq<char>| self.remembers(k, now), |k: Seq<char>| self.seen[k]),
            ttl: self.ttl,
        }
    }

    /// The store once `key` has been presented at `now`: expired entries are gone, and a key
    /// that was not remembered is entered.
    pub open spec fn after(self, key: Seq<char>, now: nat) -> SeenKeys {
        if self.remembers(key, now) {
            self.pruned(now)
        } else {
            SeenKeys { seen: self.pruned(now).seen.insert(key, now), ttl: self.ttl }
        }
    }
}

struct Entry {
    key: String,
    at: u128,
}

spec fn no_key_twice(entries: Seq<Entry>) -> bool {
    forall|i: int, j: int|
        0 <= i < entries.len() && 0 <= j < entries.len() && i != j ==> #[trigger] entries[i].key@
            != #[trigger] entries[j].key@
}

spec fn entered(entries: Seq<Entry>, key: Seq<char>) -> bool {
    exists|i: int| 0 <= i < entries.len() && #[trigger] entries[i].key@ == key
}

spec fn times(entries: Seq<Entry>) -> Map<Seq<char>, nat> {
    Map::new(
        |key: Seq<char>| entered(entries, key),
        |key: Seq<char>|
            entries[choose|i: int|
                0 <= i < entries.len() && #[trigger] entries[i].key@ == key].at as nat,
    )
}

proof fn lemma_times_at(entries: Seq<Entry>, i: int)
    requires
        no_key_twice(entries),
        0 <= i < entries.len(),
    ensures
        times(entries).contains_key(entries[i].key@),
        times(entries)[entries[i].key@] == entries[i].at,
{
    assert(entered(entries, entries[i].key@));
    let j = choose|j: int|
        0 <= j < entries.len() && #[trigger] entries[j].key@ == entries[i].key@;
    assert(j == i);
}

proof fn lemma_times_push(entries: Seq<Entry>, entry: Entry)
    requires
        no_key_twice(entries),
        !entered(entries, entry.key@),
    ensures
        no_key_twice(entries.push(entry)),
        times(entries.push(entry)) == times(entries).insert(entry.key@, entry.at as nat),
{
    let longer = entries.push(entry);
    assert forall|i: int, j: int|
        0 <= i < longer.len() && 0 <= j < longer.len() && i != j implies #[trigger] longer[i].key@
        != #[trigger] longer[j].key@ by {
        if i < entries.len() && j < entries.len() {
            assert(entries[i].key@ != entries[j].key@);
        } else if i < entries.len() {
            assert(longer[i] == entries[i]);
        } else {
            assert(longer[j] == entries[j]);
        }
    }
    let expected = times(entries).insert(entry.key@, entry.at as nat);
    assert forall|key: Seq<char>| times(longer).contains_key(key) <==> #[trigger]
        expected.contains_key(key) by {
        if key == entry.key@ {
            assert(longer[entries.len() as int].key@ == key);
        } else if entered(entries, key) {
            let i = choose|i: int| 0 <= i < entries.len() && #[trigger] entries[i].key@ == key;
            assert(longer[i].key@ == key);
        } else if entered(longer, key) {
            let i = choose|i: int| 0 <= i < longer.len() && #[trigger] longer[i].key@ == key;
            assert(entries[i].key@ == key);
        }
    }
    assert forall|key: Seq<char>| #[trigger] expected.contains_key(key) implies times(longer)[key]
        == expected[key] by {
        let i = choose|i: int| 0 <= i < longer.len() && #[trigger] longer[i].key@ == key;
        assert(entered(longer, key));
        lemma_times_at(longer, i);
        if i < entries.len() {
            assert(longer[i] == entries[i]);
            lemma_times_at(entries, i);
        }
    }
    assert(times(longer) =~= expected);
}

/// `now` is what the monotonic clock shows, in nanoseconds since `origin`, to one who reads it.
/// Two readings from one origin may differ.
pub closed spec fn clock_shows(origin: Instant, now: u128) -> bool {
    call_ensures(nanos_since, (&origin,), now)
}

/// What the clock shows is a reading of the time elapsed since `origin`, just as it was read.
pub(crate) proof fn clock_shows_the_time_elapsed(origin: Instant, now: u128)
    ensures
        clock_shows(origin, now) <==> call_ensures(nanos_since, (&origin,), now),
{
}

/// Reads `clock` once, from `origin`.
fn read_clock<F: Fn(&Instant) -> u128>(clock: F, origin: &Instant) -> (now: u128)
    requires
        call_requires(clock, (origin,)),
    ensures
        call_ensures(clock, (origin,), now),
{
    clock(origin)
}

/// Takes the time from `clock`.
fn take_time<F: Fn() -> Instant>(clock: F) -> (moment: Instant)
    requires
        call_requires(clock, ()),
    ensures
        call_ensures(clock, (), moment),
{
    clock()
}

/// In-memory replay protection for deployments without Redis.
///
/// Remembers each key for a time to live and drops expired entries on every check. Put it
/// behind a lock to share it between workers.
pub struct MemoryReplayStore {
    entries: Vec<Entry>,
    ttl: u128,
    started: Instant,
}

impl View for MemoryReplayStore {
    type V = SeenKeys;

    closed spec fn view(&self) -> SeenKeys {
        SeenKeys { seen: times(self.entries@), ttl: self.ttl as nat }
    }
}

impl MemoryReplayStore {
    #[verifier::type_invariant]
    spec fn well_formed(self) -> bool {
        no_key_twice(self.entries@)
    }

    /// The moment from which the store counts time.
    pub closed spec fn origin(self) -> Instant {
        self.started
    }

    /// Creates an empty store whose entries expire after `ttl` nanoseconds.
    pub fn new(ttl: u128) -> (store: Self)
        ensures
            store@ == SeenKeys::fresh(ttl as nat),
            store@.ttl == ttl,
            store@.seen == Map::<Seq<char>, nat>::empty(),
            call_ensures(Instant::now, (), store.origin()),
    {
        let started = take_time(Instant::now);
        let store = MemoryReplayStore { entries: Vec::new(), ttl, started };
        assert(times(store.entries@) =~= Map::empty());
        store
    }

    /// Returns `true` if `key` is new (not seen within the time to live), entering it.
    /// Returns `false` on replay. Drops expired entries on every call.
    ///
    /// The time is what the monotonic clock shows at the moment of the call, since the store was
    /// made: the call is [`MemoryReplayStore::is_new_at`] for that reading. A key that is not in
    /// the store at all is new whatever the clock says.
    pub fn is_new(&mut self, key: &str) -> (new: bool)
        ensures
            exists|now: u128|
                clock_shows(old(self).origin(), now) && new == !old(self)@.remembers(
                    key@,
                    now as nat,
                ) && final(self)@ == #[trigger] old(self)@.after(key@, now as nat),
            !old(self)@.seen.contains_key(key@) ==> new,
            old(self)@.ttl == 0 ==> new,
            final(self)@.ttl == old(self)@.ttl,
            new ==> final(self)@.seen.contains_key(key@),
            final(self).origin() == old(self).origin(),
    {
        let now: u128 = read_clock(nanos_since, &self.started);
        self.is_new_at(key, now)
    }

    /// [`MemoryReplayStore::is_new`] at a given time, in nanoseconds since the store was made.
    pub fn is_new_at(&mut self, key: &str, now: u128) -> (new: bool)
        ensures
            new == !old(self)@.remembers(key@, now as nat),
            final(self)@ == old(self)@.after(key@, now as nat),
            final(self).origin() == old(self).origin(),
            new == !(old(self)@.seen.contains_key(key@) && old(self)@.ttl > 0 && now < old(
                self,
            )@.seen[key@] + old(self)@.ttl),
            final(self)@.seen.contains_key(key@),
            new ==> final(self)@.seen[key@] == now,
            !new ==> final(self)@.seen[key@] == old(self)@.seen[key@],
            final(self)@.ttl == old(self)@.ttl,
    {
        proof {
            use_type_invariant(&*self);
        }
        let ghost before = self.entries@;
        let ghost was = self@;
        let ttl: u128 = self.ttl;
        let mut rest: Vec<Entry> = Vec::new();
        std::mem::swap(&mut rest, &mut self.entries);
        let mut kept: Vec<Entry> = Vec::new();
        let mut known: bool = false;
        while rest.len() > 0
            invariant
                ttl == was.ttl,
                was.seen == times(before),
                no_key_twice(before),
                rest@ == before.take(rest@.len() as int),
                rest@.len() <= before.len(),
                no_key_twice(kept@),
                forall|j: int|
                    0 <= j < kept@.len() ==> was.remembers(#[trigger] kept@[j].key@, now as nat)
                        && was.seen[kept@[j].key@] == kept@[j].at,
                forall|j: int|
                    0 <= j < kept@.len() ==> exists|i: int|
                        rest@.len() <= i < before.len() && #[trigger] before[i].key@
                            == #[trigger] kept@[j].key@,
                forall|i: int|
                    rest@.len() <= i < before.len() && was.remembers(
                        #[trigger] before[i].key@,
                        now as nat,
                    ) ==> entered(kept@, before[i].key@),
                known == entered(kept@, key@),
            decreases rest@.len(),
        {
            let ghost n = rest@.len() as int;
            let ghost kept_before = kept@;
            let popped = rest.pop();
            if let Some(entry) = popped {
                assert(entry == before[n - 1]);
                assert(rest@ =~= before.take(n - 1));
                proof {
                    lemma_times_at(before, n - 1);
                    if entered(kept_before, entry.key@) {
                        let j = choose|j: int|
                            0 <= j < kept_before.len() && #[trigger] kept_before[j].key@
                                == entry.key@;
                        let i = choose|i: int|
                            n <= i < before.len() && #[trigger] before[i].key@
                                == kept_before[j].key@;
                        assert(before[i].key@ == before[n - 1].key@);
                        assert(false);
                    }
                }
                let entry_age: u128 = if entry.at <= now {
                    now - entry.at
                } else {
                    0
                };
                let live: bool = entry_age < ttl;
                if live {
                    let matches_key: bool = same_text(entry.key.as_str(), key);
                    proof {
                        lemma_times_push(kept_before, entry);
                    }
                    let ghost moved = entry;
                    kept.push(entry);
                    proof {
                        assert(kept@ == kept_before.push(moved));
                        assert forall|k: Seq<char>| #[trigger] entered(kept@, k) <==> entered(
                            kept_before,
                            k,
                        ) || k == moved.key@ by {
                            assert(times(kept@).contains_key(k) <==> times(
                                kept_before,
                            ).contains_key(k) || k == moved.key@);
                        }
                        assert forall|j: int| 0 <= j < kept@.len() implies exists|i: int|
                            rest@.len() <= i < before.len() && #[trigger] before[i].key@
                                == #[trigger] kept@[j].key@ by {
                            if j < kept_before.len() {
                                assert(kept@[j] == kept_before[j]);
                            } else {
                                assert(before[n - 1].key@ == kept@[j].key@);
                            }
                        }
                    }
                    if matches_key {
                        known = true;
                    }
                }
            }
        }
        proof {
            let pruned = was.pruned(now as nat).seen;
            assert forall|k: Seq<char>| times(kept@).contains_key(k) <==> #[trigger]
                pruned.contains_key(k) by {
                if entered(kept@, k) {
                    let j = choose|j: int| 0 <= j < kept@.len() && #[trigger] kept@[j].key@ == k;
                    assert(was.remembers(kept@[j].key@, now as nat));
                }
                if was.remembers(k, now as nat) {
                    assert(entered(before, k));
                    let i = choose|i: int| 0 <= i < before.len() && #[trigger] before[i].key@ == k;
                    assert(was.remembers(before[i].key@, now as nat));
                }
            }
            assert forall|k: Seq<char>| #[trigger] pruned.contains_key(k) implies times(kept@)[k]
                == pruned[k] by {
                let j = choose|j: int| 0 <= j < kept@.len() && #[trigger] kept@[j].key@ == k;
                assert(entered(kept@, k));
                lemma_times_at(kept@, j);
            }
            assert(times(kept@) =~= pruned);
        }
        if known {
            self.entries = kept;
            return false;
        }
        let entry = Entry { key: key.to_owned(), at: now };
        proof {
            lemma_times_push(kept@, entry);
        }
        kept.push(entry);
        self.entries = kept;
        true
    }
}

/// The name under which a wrapped key is looked up in a replay store.
pub open spec fn seen_key_of(kx: Seq<u8>) -> Seq<char> {
    "replay:seen:"@ + crate::outside::hex_lower(kx)
}

/// Builds the name under which the wrapped key `kx` is looked up in a replay store.
pub fn seen_key(kx: &[u8]) -> (key: String)
    ensures
        key@ == seen_key_of(kx@),
        key@ == "replay:seen:"@ + crate::outside::hex_lower(kx@),
{
    let mut key: String = "replay:seen:".to_owned();
    let digits = hex_encode(kx);
    key.append(digits.as_str());
    key
}

/// The Redis command that enters a key for sixty seconds unless it is there already, as the
/// bytes of its arguments.
pub open spec fn redis_command_for(key: Seq<char>) -> Seq<Seq<u8>> {
    seq!["SET"@, key, "1"@, "NX"@, "EX"@, "60"@].map_values(
        |word: Seq<char>| vstd::utf8::encode_utf8(word),
    )
}

/// Builds the Redis command that enters `key` for sixty seconds unless it is there already.
/// Redis answers with a value if the key was entered, and with nothing if it was there.
pub fn redis_command(key: &str) -> (command: redis::Cmd)
    ensures
        crate::outside::command_args(command) == redis_command_for(key@),
        crate::outside::command_args(command).len() == 6,
        crate::outside::command_args(command)[0] == vstd::utf8::encode_utf8("SET"@),
        crate::outside::command_args(command)[1] == vstd::utf8::encode_utf8(key@),
        crate::outside::command_args(command)[2] == vstd::utf8::encode_utf8("1"@),
        crate::outside::command_args(command)[3] == vstd::utf8::encode_utf8("NX"@),
        crate::outside::command_args(command)[4] == vstd::utf8::encode_utf8("EX"@),
        crate::outside::command_args(command)[5] == vstd::utf8::encode_utf8("60"@),
{
    let mut command = new_command("SET");
    add_argument(&mut command, key);
    add_argument(&mut command, "1");
    add_argument(&mut command, "NX");
    add_argument(&mut command, "EX");
    add_argument(&mut command, "60");
    assert(crate::outside::command_args(command) =~= redis_command_for(key@));
    command
}

} // verus!
