//! That the models which contracts speak of say what the values hold.

use vstd::prelude::*;

use crate::exchange::{
    CheckedPacket, Event, EventView, Exchange, ExchangeView, Forward, ForwardView, Packet,
    PacketView, Rejection, Stage, StageView,
};
use crate::replay::{MemoryReplayStore, SeenKeys};
use crate::session::{DecryptedBody, RequestSessionKeys, SharedSecret};

verus! {

// ---------------------------------------------------------------------------------------
// Text
// ---------------------------------------------------------------------------------------
/// A text begins with another exactly if it is that one and some rest, whatever the rest is.
pub proof fn text_begins_with_what_it_is_made_of(
    text: Seq<char>,
    prefix: Seq<char>,
    rest: Seq<char>,
)
    ensures
        crate::text::begins_with(prefix + rest, prefix),
        crate::text::begins_with(text, prefix) <==> text.len() >= prefix.len() && text == prefix
            + text.skip(prefix.len() as int),
        crate::text::begins_with(text, prefix) <==> text.len() >= prefix.len() && forall|i: int|
            0 <= i < prefix.len() ==> #[trigger] text[i] == prefix[i],
{
    let n = prefix.len() as int;
    assert((prefix + rest).take(n) =~= prefix);
    if text.len() >= n {
        if crate::text::begins_with(text, prefix) {
            assert(text =~= text.take(n) + text.skip(n));
            assert(forall|i: int| 0 <= i < n ==> #[trigger] text[i] == text.take(n)[i]);
        }
        if text == prefix + text.skip(n) {
            assert((prefix + text.skip(n)).take(n) =~= prefix);
        }
        if forall|i: int| 0 <= i < n ==> #[trigger] text[i] == prefix[i] {
            assert(text.take(n) =~= prefix);
        }
    }
}

/// The value of a lower-case hexadecimal digit.
pub open spec fn digit_value(c: char) -> int {
    if '0' <= c <= '9' {
        c as int - '0' as int
    } else if 'a' <= c <= 'f' {
        10 + (c as int - 'a' as int)
    } else {
        -1
    }
}

/// The name under which a wrapped key is looked up spells it out, whatever its length: behind
/// `replay:seen:` come two lower-case hexadecimal digits for each of its bytes.
pub proof fn name_spells_the_wrapped_key(kx: Seq<u8>, i: int)
    requires
        0 <= i < kx.len(),
    ensures
        crate::replay::seen_key_of(kx).len() == 12 + 2 * kx.len(),
        crate::replay::seen_key_of(kx).take(12) == "replay:seen:"@,
        0 <= digit_value(crate::replay::seen_key_of(kx)[12 + 2 * i]) < 16,
        0 <= digit_value(crate::replay::seen_key_of(kx)[13 + 2 * i]) < 16,
        kx[i] == 16 * digit_value(crate::replay::seen_key_of(kx)[12 + 2 * i]) + digit_value(
            crate::replay::seen_key_of(kx)[13 + 2 * i],
        ),
{
    reveal_strlit("replay:seen:");
    assert("replay:seen:"@.len() == 12);
    let name = crate::replay::seen_key_of(kx);
    let digits = crate::outside::hex_lower(kx);
    assert(name.take(12) =~= "replay:seen:"@);
    assert((2 * i) % 2 == 0 && (2 * i) / 2 == i);
    assert((2 * i + 1) % 2 == 1 && (2 * i + 1) / 2 == i);
    assert(name[12 + 2 * i] == digits[2 * i]);
    assert(name[13 + 2 * i] == digits[2 * i + 1]);
}

/// The name of an empty wrapped key is `replay:seen:` alone.
pub proof fn name_of_nothing_is_the_prefix()
    ensures
        crate::replay::seen_key_of(Seq::empty()) == "replay:seen:"@,
{
    assert(crate::replay::seen_key_of(Seq::empty()) =~= "replay:seen:"@);
}

/// Whatever its length, the wrapped key of a packet is what the replay store is asked about, by
/// its name and by nothing else of the packet.
pub proof fn store_is_asked_about_the_wrapped_key(x: ExchangeView, packet: PacketView)
    requires
        x.stage is Decoding,
        packet.client_pk.len() == 32,
    ensures
        x.next(EventView::Decoded(Some(packet))).stage matches StageView::AskingRedis {
            command,
            packet: held,
        } ==> held == packet && command.len() == 6 && command[1] == vstd::utf8::encode_utf8(
            "replay:seen:"@ + crate::outside::hex_lower(packet.kx),
        ),
        x.next(EventView::Decoded(Some(packet))).stage matches StageView::AskingMemory {
            seen_key,
            packet: held,
        } ==> held == packet && seen_key == "replay:seen:"@ + crate::outside::hex_lower(packet.kx),
{
}

// ---------------------------------------------------------------------------------------
// Replay stores
// ---------------------------------------------------------------------------------------
/// A store with a time to live remembers a key exactly if it has an entry for it that is younger
/// than the time to live; without one it remembers nothing.
pub proof fn key_is_remembered_for_the_time_to_live(store: SeenKeys, key: Seq<char>, now: nat)
    ensures
        store.remembers(key, now) <==> store.ttl > 0 && store.seen.contains_key(key) && now
            < store.seen[key] + store.ttl,
{
}

/// Presenting a key enters it at that time if it was not remembered and leaves its entry as it was
/// if it was. Of every other key the store keeps what it remembers, as it was entered, and drops
/// the rest. The time to live stays.
pub proof fn presenting_a_key_enters_it_once(
    store: SeenKeys,
    key: Seq<char>,
    now: nat,
    other: Seq<char>,
)
    ensures
        store.after(key, now).ttl == store.ttl,
        store.after(key, now).seen.contains_key(key),
        store.remembers(key, now) ==> store.after(key, now).seen[key] == store.seen[key],
        !store.remembers(key, now) ==> store.after(key, now).seen[key] == now,
        other != key ==> (store.after(key, now).seen.contains_key(other) <==> store.ttl > 0
            && store.seen.contains_key(other) && now < store.seen[other] + store.ttl),
        other != key && store.after(key, now).seen.contains_key(other) ==> store.after(
            key,
            now,
        ).seen[other] == store.seen[other],
{
}

/// A store that has just been made has no entry and the time to live that it was given.
pub proof fn fresh_store_is_empty(ttl: nat, key: Seq<char>)
    ensures
        !SeenKeys::fresh(ttl).seen.contains_key(key),
        SeenKeys::fresh(ttl).ttl == ttl,
{
}

/// Every call of [`MemoryReplayStore::is_new`] is judged at a time that the clock shows, in
/// nanoseconds since the store was made: the key is new unless it was entered less than the time to
/// live before that reading, and a new key is entered at that very reading.
pub proof fn new_keys_are_judged_by_the_clock(store: &mut MemoryReplayStore, key: &str, new: bool)
    requires
        call_ensures(MemoryReplayStore::is_new, (store, key), new),
    ensures
        exists|now: u128| #[trigger]
            crate::replay::clock_shows(old(store).origin(), now) && new == !(old(store)@.ttl > 0
                && old(store)@.seen.contains_key(key@) && now < old(store)@.seen[key@] + old(
                store,
            )@.ttl) && (new ==> final(store)@.seen.contains_key(key@) && final(store)@.seen[key@]
                == now),
        final(store).origin() == old(store).origin(),
        final(store)@.ttl == old(store)@.ttl,
{
    let now = choose|now: u128|
        crate::replay::clock_shows(old(store).origin(), now) && new == !old(store)@.remembers(
            key@,
            now as nat,
        ) && final(store)@ == #[trigger] old(store)@.after(key@, now as nat);
    key_is_remembered_for_the_time_to_live(old(store)@, key@, now as nat);
    presenting_a_key_enters_it_once(old(store)@, key@, now as nat, key@);
    assert(crate::replay::clock_shows(old(store).origin(), now));
}

/// Of two calls in a row for one key, the first of which found it new, the second finds it new
/// exactly if the clock shows at least the time to live more than it did at the first.
pub proof fn key_is_new_again_when_the_clock_says_so(
    store: &mut MemoryReplayStore,
    later: &mut MemoryReplayStore,
    key: &str,
    again: bool,
)
    requires
        call_ensures(MemoryReplayStore::is_new, (store, key), true),
        *old(later) == *final(store),
        call_ensures(MemoryReplayStore::is_new, (later, key), again),
        old(store)@.ttl > 0,
    ensures
        exists|first: u128, second: u128|
            #[trigger] crate::replay::clock_shows(old(store).origin(), first) && #[trigger]
            crate::replay::clock_shows(old(store).origin(), second) && (again <==> second >= first
                + old(store)@.ttl),
{
    new_keys_are_judged_by_the_clock(store, key, true);
    new_keys_are_judged_by_the_clock(later, key, again);
}

// ---------------------------------------------------------------------------------------
// Views
// ---------------------------------------------------------------------------------------
/// The views of keys, bodies, packets and refusals are what their fields hold.
pub proof fn plain_views_show_the_fields(
    body: DecryptedBody,
    keys: RequestSessionKeys,
    secret: SharedSecret,
    packet: Packet,
    checked: CheckedPacket,
    rejection: Rejection,
)
    ensures
        body@ == body.0@,
        keys@ == keys.enc_key@,
        secret@ == secret.bytes@,
        packet@.key_id == packet.key_id@,
        packet@.client_pk == packet.client_pk@,
        packet@.kx == packet.kx@,
        packet@.data == packet.data@,
        checked@.key_id == checked.key_id@,
        checked@.client_pk == checked.client_pk@,
        checked@.kx == checked.kx@,
        checked@.data == checked.data@,
        rejection@.status == rejection.status,
        rejection@.message == rejection.message@,
{
}

/// The view of how a request is passed on, and of an exchange, is what its fields hold.
pub proof fn exchange_view_shows_the_fields(forward: Forward, exchange: Exchange)
    ensures
        forward is AsReceived <==> forward@ is AsReceived,
        forward is Restored ==> forward@ == (ForwardView::Restored { raw: forward->raw@ }),
        forward is Decrypted ==> forward@ == (ForwardView::Decrypted { body: forward->body.0@ }),
        exchange@.policy == exchange.policy,
        exchange@.stage == exchange.stage@,
        exchange.session_keys is None <==> exchange@.session_keys is None,
        exchange.session_keys matches Some(keys) ==> exchange@.session_keys == Some(keys.enc_key@),
{
}

/// The view of a stage is of the same kind as the stage and shows every field of it.
pub proof fn stage_view_shows_the_fields(stage: Stage)
    ensures
        match stage {
            Stage::Reading { raw } => stage@ == (StageView::Reading { raw: raw@ }),
            Stage::Decoding { raw } => stage@ == (StageView::Decoding { raw: raw@ }),
            Stage::AskingRedis { command, packet } => {
                &&& stage@ matches StageView::AskingRedis { command: shown, packet: held }
                &&& shown == crate::outside::command_args(command)
                &&& held == packet@
            },
            Stage::AskingMemory { seen_key, packet } => {
                &&& stage@ matches StageView::AskingMemory { seen_key: shown, packet: held }
                &&& shown == seen_key@
                &&& held == packet@
            },
            Stage::Agreeing { one_time, key_id, client_pk, kx, data } => stage@ == (
            StageView::Agreeing {
                one_time,
                key_id: key_id@,
                client_pk: client_pk@,
                kx: kx@,
                data: data@,
            }),
            Stage::Unwrapping { shared_secret, client_pk, server_pk, kx, data } => stage@ == (
            StageView::Unwrapping {
                shared_secret: shared_secret.bytes@,
                client_pk: client_pk@,
                server_pk: server_pk@,
                kx: kx@,
                data: data@,
            }),
            Stage::Opening { enc_key, data } => stage@ == (StageView::Opening {
                enc_key: enc_key@,
                data: data@,
            }),
            Stage::Unpacking { enc_key, decrypted } => stage@ == (StageView::Unpacking {
                enc_key: enc_key@,
                decrypted: decrypted@,
            }),
            Stage::Inflating { enc_key, decrypted, compressed, limit } => stage@ == (
            StageView::Inflating {
                enc_key: enc_key@,
                decrypted: decrypted@,
                compressed: compressed@,
                limit: limit as nat,
            }),
            Stage::Handling { forward } => stage@ == (StageView::Handling { forward: forward@ }),
            Stage::Collecting { keys } => stage@ == (StageView::Collecting {
                keys: keys.enc_key@,
            }),
            Stage::Sealing { keys, body } => stage@ == (StageView::Sealing {
                keys: keys.enc_key@,
                body: body@,
            }),
            Stage::Rejected { rejection } => {
                &&& stage@ matches StageView::Rejected { rejection: shown }
                &&& shown.status == rejection.status
                &&& shown.message == rejection.message@
            },
            Stage::HandlerFailed => stage@ == StageView::HandlerFailed,
            Stage::Untouched => stage@ == StageView::Untouched,
            Stage::Replied { body } => stage@ == (StageView::Replied { body: body@ }),
        },
{
}

/// The view of an event is of the same kind as the event and shows what came of the work.
pub proof fn event_view_shows_the_outcome(event: Event)
    ensures
        match event {
            Event::Read(Ok(Some(chunk))) => event@ == EventView::Read(Ok(Some(chunk@))),
            Event::Read(Ok(None)) => event@ == EventView::Read(Ok(None)),
            Event::Read(Err(reason)) => event@ == EventView::Read(Err(reason@)),
            Event::Decoded(Some(packet)) => event@ == EventView::Decoded(Some(packet@)),
            Event::Decoded(None) => event@ == EventView::Decoded(None),
            Event::RedisReplied(Some(Some(text))) => event@ == EventView::RedisReplied(
                Some(Some(text@)),
            ),
            Event::RedisReplied(Some(None)) => event@ == EventView::RedisReplied(Some(None)),
            Event::RedisReplied(None) => event@ == EventView::RedisReplied(None),
            Event::MemoryReplied(new) => event@ == EventView::MemoryReplied(new),
            Event::Agreed(Ok((secret, server_pk))) => event@ == EventView::Agreed(
                Ok((secret@, server_pk@)),
            ),
            Event::Agreed(Err(reason)) => event@ == EventView::Agreed(Err(reason@)),
            Event::Unwrapped(Ok(bytes)) => event@ == EventView::Unwrapped(Ok(bytes@)),
            Event::Unwrapped(Err(reason)) => event@ == EventView::Unwrapped(Err(reason@)),
            Event::Opened(Ok(bytes)) => event@ == EventView::Opened(Ok(bytes@)),
            Event::Opened(Err(reason)) => event@ == EventView::Opened(Err(reason@)),
            Event::Unpacked(Some(bytes)) => event@ == EventView::Unpacked(Some(bytes@)),
            Event::Unpacked(None) => event@ == EventView::Unpacked(None),
            Event::Inflated(fits) => event@ == EventView::Inflated(fits),
            Event::Handled(responded) => event@ == EventView::Handled(responded),
            Event::Collected(Some(bytes)) => event@ == EventView::Collected(Some(bytes@)),
            Event::Collected(None) => event@ == EventView::Collected(None),
            Event::Sealed(Some(bytes)) => event@ == EventView::Sealed(Some(bytes@)),
            Event::Sealed(None) => event@ == EventView::Sealed(None),
        },
{
}

// ---------------------------------------------------------------------------------------
// Steps
// ---------------------------------------------------------------------------------------
/// The stage is that of a request answered with this status and message.
pub open spec fn answers_with(stage: Stage, status: u16, message: Seq<char>) -> bool {
    stage matches Stage::Rejected { rejection } && rejection.status == status
        && rejection.message@ == message
}

/// A call of [`Exchange::step`] with work that failed after decoding gives a refused exchange, with
/// the status of the failure, whatever the exchange held.
pub proof fn failed_step_gives_a_refusal(x: Exchange, event: Event, y: Exchange)
    requires
        call_ensures(Exchange::step, (x, event), y),
    ensures
        match (x.stage, event) {
            (Stage::Agreeing { .. }, Event::Agreed(Err(reason))) => answers_with(
                y.stage,
                401,
                reason@,
            ),
            (Stage::Agreeing { .. }, Event::Agreed(Ok((secret, _)))) => secret@.len() != 32
                ==> answers_with(y.stage, 500, "shared secret length invalid"@),
            (Stage::Unwrapping { .. }, Event::Unwrapped(Err(reason))) => answers_with(
                y.stage,
                401,
                reason@,
            ),
            (Stage::Unwrapping { .. }, Event::Unwrapped(Ok(enc_key))) => enc_key@.len() != 32
                ==> answers_with(y.stage, 400, "enc_key must be 32 bytes"@),
            (Stage::Opening { .. }, Event::Opened(Err(reason))) => answers_with(
                y.stage,
                400,
                reason@,
            ),
            (Stage::Unpacking { .. }, Event::Unpacked(None)) => answers_with(
                y.stage,
                400,
                "payload msgpack decode failed"@,
            ),
            (Stage::Inflating { .. }, Event::Inflated(false)) => answers_with(
                y.stage,
                413,
                "decompressed payload exceeds limit"@,
            ),
            _ => true,
        },
{
    exchange_view_shows_the_fields(Forward::AsReceived, x);
    exchange_view_shows_the_fields(Forward::AsReceived, y);
    stage_view_shows_the_fields(x.stage);
    stage_view_shows_the_fields(y.stage);
    event_view_shows_the_outcome(event);
    crate::outcomes::failed_work_is_refused(x@, event@, Seq::empty());
}

/// A call of [`Exchange::step`] hands the request to the inner service as it came in only when the
/// body was read to its end and was empty.
pub proof fn step_passes_on_only_an_empty_body(x: Exchange, event: Event, y: Exchange)
    requires
        call_ensures(Exchange::step, (x, event), y),
        x.stage !is Handling,
        y.stage == (Stage::Handling { forward: Forward::AsReceived }),
    ensures
        x.stage matches Stage::Reading { raw } && raw@.len() == 0,
        event matches Event::Read(Ok(None)),
{
    stage_view_shows_the_fields(x.stage);
    stage_view_shows_the_fields(y.stage);
    event_view_shows_the_outcome(event);
    crate::outcomes::three_ways_lead_to_the_inner_service(x@, event@);
}

} // verus!
