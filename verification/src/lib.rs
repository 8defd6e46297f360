//! Sessions over the Xoodyak cryptographic scheme (hashing, encryption,
//! authenticated encryption, ratcheting), and a block-buffered digest
//! context for byte streams.
//!
//! - `sponge`: the outside Xoodyak implementation as this library sees it.
//! - `error`: the library's errors, their classes and messages.
//! - `session`: a session that is unkeyed or keyed, and what each operation does to it.
//! - `digest`: the digest context and the laws of its updates.

pub mod digest;
pub mod error;
pub mod session;
pub mod sponge;

pub use digest::{DigestContext, DIGEST_BLOCK_LEN, DIGEST_LEN};
pub use error::{map_xoodyak_err, Error, ErrorClass, Operation};
pub use session::{derive_key, Xoodyak, XoodyakState, DERIVED_KEY_LEN};
pub use sponge::SpongeError;
