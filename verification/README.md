# alterion-encrypt

The interceptor of an encrypted HTTP pipeline: it decrypts request bodies and encrypts response
bodies (X25519 key agreement, AES-256-GCM) and refuses replayed requests.

- `src/` is the verified library: what the interceptor decides.
  - `exchange`: one request on its way through and back, as a state machine with a contract.
  - `replay`: the in-memory replay store, and how a replay store is asked.
  - `interceptor`: settings, defaults, and the service made for each worker.
  - `session`: the decrypted body and the key material left for the handler and the response.
  - `laws`: what holds of whole exchanges and of a replay store over time.
  - `text`: comparing strings.
  - `outside`: what is believed of other crates and of the clock.
- `app/` is the actix-web middleware that performs the work each stage asks for.
- `tests/` runs the library on concrete values.
