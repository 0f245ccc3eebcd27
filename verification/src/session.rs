//! What the interceptor leaves in a request for the handler and for the response path.

use vstd::prelude::*;

use crate::outside::zeroize_bytes;

verus! {

/// Raw decrypted request body, put into the request's extensions once a packet has been
/// validated and decrypted.
///
/// The bytes are the plaintext as the client packed it: a msgpack byte string around
/// deflate-compressed JSON.
pub struct DecryptedBody(pub Vec<u8>);

impl View for DecryptedBody {
    type V = Seq<u8>;

    open spec fn view(&self) -> Seq<u8> {
        self.0@
    }
}

impl Clone for DecryptedBody {
    fn clone(&self) -> (copy: Self)
        ensures
            copy@ == self@,
            copy.0@ == self.0@,
    {
        let bytes = self.0.clone();
        assert(bytes@ =~= self.0@);
        DecryptedBody(bytes)
    }
}

/// Per-request AES-256 session key, kept beside the [`DecryptedBody`] so that the response is
/// encrypted with the key that the client generated for this request.
///
/// The key is overwritten with zeros when the value is dropped.
pub struct RequestSessionKeys {
    pub enc_key: [u8; 32],
}

impl View for RequestSessionKeys {
    type V = Seq<u8>;

    open spec fn view(&self) -> Seq<u8> {
        self.enc_key@
    }
}

impl Clone for RequestSessionKeys {
    fn clone(&self) -> (copy: Self)
        ensures
            copy@ == self@,
            copy.enc_key@ == self.enc_key@,
    {
        RequestSessionKeys { enc_key: self.enc_key }
    }
}

impl Drop for RequestSessionKeys {
    fn drop(&mut self)
        ensures
            final(self)@ == Seq::new(32, |i: int| 0u8),
            forall|i: int| 0 <= i < 32 ==> #[trigger] final(self).enc_key@[i] == 0,
        opens_invariants none
        no_unwind
    {
        zeroize_bytes(&mut self.enc_key);
    }
}


/// The secret agreed on with the client, from which the key that wraps the session key is derived.
///
/// The secret is overwritten with zeros when the value is dropped.
pub struct SharedSecret {
    pub bytes: [u8; 32],
}

impl View for SharedSecret {
    type V = Seq<u8>;

    open spec fn view(&self) -> Seq<u8> {
        self.bytes@
    }
}

impl Drop for SharedSecret {
    fn drop(&mut self)
        ensures
            final(self)@ == Seq::new(32, |i: int| 0u8),
            forall|i: int| 0 <= i < 32 ==> #[trigger] final(self).bytes@[i] == 0,
        opens_invariants none
        no_unwind
    {
        zeroize_bytes(&mut self.bytes);
    }
}

} // verus!
