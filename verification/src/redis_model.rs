//! What Redis makes of the command that it is sent, and what that means for a replayed packet.

use vstd::prelude::*;

use crate::exchange::{EventView, ExchangeView, PacketView, RejectionView, StageView};

verus! {

/// The keys that a Redis server holds, each with the second at which it expires, if it does.
#[verifier::ext_equal]
pub struct RedisKeys {
    pub expires: Map<Seq<u8>, Option<nat>>,
}

/// The number that a run of decimal digits stands for.
pub open spec fn decimal(digits: Seq<u8>) -> int
    decreases digits.len(),
{
    if digits.len() == 0 {
        0
    } else {
        10 * decimal(digits.drop_last()) + (digits.last() - 48)
    }
}

/// What the words behind the value of a `SET` ask for: whether the key may be there already, and
/// for how many seconds it is kept.
pub open spec fn set_options(words: Seq<Seq<u8>>) -> (bool, Option<int>)
    decreases words.len(),
{
    if words.len() == 0 {
        (false, None)
    } else if words[0] == vstd::utf8::encode_utf8("NX"@) {
        (true, set_options(words.skip(1)).1)
    } else if words[0] == vstd::utf8::encode_utf8("EX"@) && words.len() >= 2 {
        (set_options(words.skip(2)).0, Some(decimal(words[1])))
    } else {
        set_options(words.skip(1))
    }
}

impl RedisKeys {
    /// The server holds `key` at the second `now`.
    pub open spec fn holds(self, key: Seq<u8>, now: nat) -> bool {
        self.expires.contains_key(key) && match self.expires[key] {
            Some(at) => now < at,
            None => true,
        }
    }

    /// The server answers `SET key value [NX] [EX seconds]` at the second `now` with a value: with
    /// `NX`, exactly if it does not hold the key.
    pub open spec fn enters(self, command: Seq<Seq<u8>>, now: nat) -> bool {
        !(set_options(command.skip(3)).0 && self.holds(command[1], now))
    }

    /// The server once it has answered `SET key value [NX] [EX seconds]` at the second `now`.
    pub open spec fn after(self, command: Seq<Seq<u8>>, now: nat) -> RedisKeys {
        if self.enters(command, now) {
            let expires = match set_options(command.skip(3)).1 {
                Some(seconds) => Some((now + seconds) as nat),
                None => None,
            };
            RedisKeys { expires: self.expires.insert(command[1], expires) }
        } else {
            self
        }
    }
}

/// For every key, of whatever length, the command is `SET`, the key, `1`, `NX`, `EX`, `60`, in
/// UTF-8, and nothing else.
pub proof fn command_sets_the_key_for_a_minute_unless_it_is_there(key: Seq<char>)
    ensures
        crate::replay::redis_command_for(key).len() == 6,
        crate::replay::redis_command_for(key)[0] == seq![0x53u8, 0x45u8, 0x54u8],
        crate::replay::redis_command_for(key)[1] == vstd::utf8::encode_utf8(key),
        crate::replay::redis_command_for(key)[2] == seq![0x31u8],
        crate::replay::redis_command_for(key)[3] == seq![0x4eu8, 0x58u8],
        crate::replay::redis_command_for(key)[4] == seq![0x45u8, 0x58u8],
        crate::replay::redis_command_for(key)[5] == seq![0x36u8, 0x30u8],
{
    reveal_strlit("SET");
    reveal_strlit("1");
    reveal_strlit("NX");
    reveal_strlit("EX");
    reveal_strlit("60");
    vstd::utf8::is_ascii_chars_encode_utf8("SET"@);
    vstd::utf8::is_ascii_chars_encode_utf8("1"@);
    vstd::utf8::is_ascii_chars_encode_utf8("NX"@);
    vstd::utf8::is_ascii_chars_encode_utf8("EX"@);
    vstd::utf8::is_ascii_chars_encode_utf8("60"@);
    assert(vstd::utf8::encode_utf8("SET"@) =~= seq![0x53u8, 0x45u8, 0x54u8]);
    assert(vstd::utf8::encode_utf8("1"@) =~= seq![0x31u8]);
    assert(vstd::utf8::encode_utf8("NX"@) =~= seq![0x4eu8, 0x58u8]);
    assert(vstd::utf8::encode_utf8("EX"@) =~= seq![0x45u8, 0x58u8]);
    assert(vstd::utf8::encode_utf8("60"@) =~= seq![0x36u8, 0x30u8]);
}

/// Redis reads the command, for every key, as one that must not be there already and is then kept
/// for sixty seconds.
pub proof fn command_asks_for_a_minute_and_only_if_absent(key: Seq<char>)
    ensures
        set_options(crate::replay::redis_command_for(key).skip(3)) == (true, Some(60int)),
{
    command_sets_the_key_for_a_minute_unless_it_is_there(key);
    reveal_strlit("NX");
    reveal_strlit("EX");
    vstd::utf8::is_ascii_chars_encode_utf8("NX"@);
    vstd::utf8::is_ascii_chars_encode_utf8("EX"@);
    assert(vstd::utf8::encode_utf8("NX"@) =~= seq![0x4eu8, 0x58u8]);
    assert(vstd::utf8::encode_utf8("EX"@) =~= seq![0x45u8, 0x58u8]);
    let words = crate::replay::redis_command_for(key).skip(3);
    let rest = words.skip(1);
    assert(words[0] == seq![0x4eu8, 0x58u8]);
    assert(rest[0] == seq![0x45u8, 0x58u8] && rest[1] == seq![0x36u8, 0x30u8]);
    assert(rest[0][0] != vstd::utf8::encode_utf8("NX"@)[0]);
    let digits = rest[1];
    assert(digits.drop_last() =~= seq![0x36u8]);
    assert(seq![0x36u8].drop_last() =~= Seq::<u8>::empty());
    reveal_with_fuel(decimal, 3);
    assert(decimal(digits) == 60);
    reveal_with_fuel(set_options, 3);
}

/// A packet protected by Redis is admitted once a minute: when its wrapped key is not there, Redis
/// answers the question about it with a value and key agreement follows. Within sixty seconds a
/// packet with the same wrapped key is refused with 401, whatever else it holds, whatever other
/// wrapped key was asked about in between, and whatever comes in later. After that time it is
/// admitted again.
pub proof fn redis_admits_a_wrapped_key_once_a_minute(
    x: ExchangeView,
    y: ExchangeView,
    packet: PacketView,
    again: PacketView,
    server: RedisKeys,
    first: nat,
    other: Seq<char>,
    between: nat,
    second: nat,
    reply: Seq<char>,
    later: Seq<EventView>,
)
    requires
        x.stage is Decoding && x.policy.redis_replay,
        y.stage is Decoding && y.policy.redis_replay,
        packet.client_pk.len() == 32,
        again.client_pk.len() == 32,
        again.kx == packet.kx,
        other != crate::replay::seen_key_of(packet.kx),
        first <= between <= second,
        !server.holds(vstd::utf8::encode_utf8(crate::replay::seen_key_of(packet.kx)), first),
    ensures
        ({
            let asking = x.next(EventView::Decoded(Some(packet)));
            let asking_again = y.next(EventView::Decoded(Some(again)));
            let entered = server.after(asking.stage->command, first);
            let meanwhile = entered.after(crate::replay::redis_command_for(other), between);
            &&& asking.stage is AskingRedis
            &&& asking_again.stage is AskingRedis
            &&& server.enters(asking.stage->command, first)
            &&& asking.next(EventView::RedisReplied(Some(Some(reply)))).stage is Agreeing
            &&& second < first + 60 ==> !meanwhile.enters(asking_again.stage->command, second)
            &&& second >= first + 60 ==> meanwhile.enters(asking_again.stage->command, second)
            &&& asking_again.next(EventView::RedisReplied(Some(None))).run(later).stage == (
            StageView::Rejected {
                rejection: RejectionView { status: 401, message: "replay detected"@ },
            })
        }),
{
    let key = crate::replay::seen_key_of(packet.kx);
    command_sets_the_key_for_a_minute_unless_it_is_there(key);
    command_asks_for_a_minute_and_only_if_absent(key);
    command_sets_the_key_for_a_minute_unless_it_is_there(other);
    command_asks_for_a_minute_and_only_if_absent(other);
    vstd::utf8::encode_utf8_decode_utf8(key);
    vstd::utf8::encode_utf8_decode_utf8(other);
    let asking_again = y.next(EventView::Decoded(Some(again)));
    crate::laws::ended_exchange_stays(
        asking_again.next(EventView::RedisReplied(Some(None))),
        later,
    );
}

} // verus!
