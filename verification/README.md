# xoodyak_ext

A verified Rust library for Xoodyak sessions and digests, on top of the
`xoodyak` crate, with a Ruby extension around it.

- `src/sponge.rs`: the `xoodyak` crate's state types, names for what its
  operations compute, and the wrappers that call it.
- `src/session.rs`: `Xoodyak`, an unkeyed or keyed session; every operation is
  stated as a function from the state before to the state after and result.
- `src/digest.rs`: `DigestContext`, which feeds a byte stream to a hash-mode
  state in 16-byte blocks; its updates compose, so the digest does not depend
  on how the input is cut.
- `src/error.rs`: errors, their classes and messages.
- `app/lib.rs`: the Ruby binding (`magnus`, `rb-sys`): the `Xoodyak` class, its
  error classes, and the `Digest::Base` hooks.
- `tests/`: tests of sessions and digests against the `xoodyak` crate.

Keys may be of any length. Xoodyak's keyed state takes the key, one length
byte, the key id and the nonce together within its absorb rate of 44 bytes;
key material that fits is used as it is, and key material that does not is
replaced by a 16-byte key derived from it (`derive_key`: a keyed state started
with the empty key absorbs the key material, and 16 key bytes are squeezed
from it). Only a key id and a nonce that leave no room even for the derived
key (more than 27 bytes together) are refused, with an `ArgumentError`
("invalid parameter length"). `Xoodyak::initialize` states exactly when.
