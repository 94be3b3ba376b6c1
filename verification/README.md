# key_derive

Derives child secp256k1 keys from a configured root key and root chain code:
the child key and chain code are the two halves of HMAC-SHA512, keyed by the
chain code, over the parent key followed by the big-endian child index.

- `src/` is the verified library: encodings (`encoding`), secp256k1 keys
  (`secp`), HMAC-SHA512 (`mac`), one derivation step (`derive_child`), the
  root configuration (`config`) and the service's answers (`service`).
- `app/` is the HTTPS service around it: configuration from the environment,
  the `/get` and `/check` routes, and TLS reloading.
- `tests/` runs the library on concrete keys.
