//! What the crate believes of other crates and of the clock, each item with the claim it makes.

use vstd::prelude::*;

verus! {

/// `alterion_ecdh::KeyStore`: the rotating server keys, carried but never looked into.
#[verifier::external_type_specification]
#[verifier::external_body]
pub struct ExKeyStore(alterion_ecdh::KeyStore);

/// `alterion_ecdh::HandshakeStore`: the pending one-time keys, carried but never looked into.
#[verifier::external_type_specification]
#[verifier::external_body]
pub struct ExHandshakeStore(alterion_ecdh::HandshakeStore);

/// `redis::aio::ConnectionManager`: a Redis connection, carried but never looked into.
#[verifier::external_type_specification]
#[verifier::external_body]
pub struct ExConnectionManager(redis::aio::ConnectionManager);

/// `redis::Cmd`: a command for Redis, a list of arguments of which the first is its name.
#[verifier::external_type_specification]
#[verifier::external_body]
pub struct ExCmd(redis::Cmd);

/// `tokio::sync::RwLock`: the lock around the key store, carried but never taken here.
#[verifier::external_type_specification]
#[verifier::external_body]
#[verifier::reject_recursive_types(T)]
pub struct ExRwLock<T: ?Sized>(tokio::sync::RwLock<T>);

/// `std::time::Instant`: a reading of the monotonic clock.
#[verifier::external_type_specification]
#[verifier::external_body]
pub struct ExInstant(std::time::Instant);

/// `HandshakeStore::clone` clones the `Arc` inside: the result is another handle to the same
/// store, and nothing tells the two handles apart.
pub assume_specification[ <alterion_ecdh::HandshakeStore as Clone>::clone ](
    store: &alterion_ecdh::HandshakeStore,
) -> (copy: alterion_ecdh::HandshakeStore)
    ensures
        copy == *store,
;

/// `ConnectionManager::clone` clones the client settings and the `Arc` around the connection:
/// the result is another handle to the same connection, and nothing tells the two handles
/// apart.
pub assume_specification[ <redis::aio::ConnectionManager as Clone>::clone ](
    connection: &redis::aio::ConnectionManager,
) -> (copy: redis::aio::ConnectionManager)
    ensures
        copy == *connection,
;

/// `Instant::now` reads the monotonic clock. Nothing is claimed of the reading.
pub assume_specification[ std::time::Instant::now ]() -> std::time::Instant;

/// `Instant::elapsed`: the time that has passed since `start`, in nanoseconds. Nothing is
/// claimed of the reading, which depends on when the call is made.
#[verifier::external_body]
pub(crate) fn nanos_since(start: &std::time::Instant) -> u128 {
    start.elapsed().as_nanos()
}

/// The lower-case hexadecimal digit for a value below sixteen.
pub open spec fn hex_digit(n: int) -> char {
    if n < 10 {
        ('0' as int + n) as char
    } else {
        ('a' as int + n - 10) as char
    }
}

/// Two lower-case hexadecimal digits for each byte, the high half first.
pub open spec fn hex_lower(data: Seq<u8>) -> Seq<char> {
    Seq::new(
        2 * data.len(),
        |i: int|
            if i % 2 == 0 {
                hex_digit(data[i / 2] as int / 16)
            } else {
                hex_digit(data[i / 2] as int % 16)
            },
    )
}

/// `hex::encode` writes each byte as two lower-case hexadecimal digits, the high half first,
/// and nothing else.
#[verifier::external_body]
pub(crate) fn hex_encode(data: &[u8]) -> (text: String)
    ensures
        text@ == hex_lower(data@),
{
    hex::encode(data)
}

/// `Zeroize::zeroize` on a slice of bytes overwrites every byte with zero.
#[verifier::external_body]
pub(crate) fn zeroize_bytes(bytes: &mut [u8])
    ensures
        final(bytes)@ == Seq::new(old(bytes)@.len(), |i: int| 0u8),
    opens_invariants none
    no_unwind
{
    zeroize::Zeroize::zeroize(bytes)
}

/// The arguments that a Redis command holds, its name included, as the bytes that are sent.
pub uninterp spec fn command_args(command: redis::Cmd) -> Seq<Seq<u8>>;

/// `redis::cmd` makes a command whose only argument is its name, in UTF-8.
#[verifier::external_body]
pub(crate) fn new_command(name: &str) -> (command: redis::Cmd)
    ensures
        command_args(command) == seq![vstd::utf8::encode_utf8(name@)],
{
    redis::cmd(name)
}

/// `redis::Cmd::arg`, given text, adds it to the command as one more argument, in UTF-8.
#[verifier::external_body]
pub(crate) fn add_argument(command: &mut redis::Cmd, text: &str)
    ensures
        command_args(*final(command)) == command_args(*old(command)).push(
            vstd::utf8::encode_utf8(text@),
        ),
{
    command.arg(text);
}

} // verus!
