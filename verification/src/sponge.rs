//! The outside Xoodyak implementation: its state types, names for what its
//! operations compute, and the wrappers through which this library calls it.
//!
//! Every operation of Xoodyak is a deterministic function of the state it is
//! applied to and of its inputs. The names below stand for those functions;
//! nothing here describes the permutation itself.

use vstd::prelude::*;
use xoodyak::{XoodyakCommon, XoodyakError, XoodyakHash, XoodyakKeyed, XoodyakTag};

verus! {

#[verifier::external_type_specification]
#[verifier::external_body]
pub struct ExXoodyakHash(XoodyakHash);

#[verifier::external_type_specification]
#[verifier::external_body]
pub struct ExXoodyakKeyed(XoodyakKeyed);

/// `xoodyak::XOODYAK_AUTH_TAG_BYTES`: the length of an authentication tag,
/// which the outside crate defines as 16 bytes.
#[verifier::external_body]
pub(crate) fn auth_tag_bytes() -> (n: usize)
    ensures
        n == 16,
{
    xoodyak::XOODYAK_AUTH_TAG_BYTES
}

/// The failures that the outside Xoodyak operations report, one for one.
#[derive(Clone, Copy, Debug, PartialEq, Eq, Structural)]
pub enum SpongeError {
    InvalidBufferLength,
    InvalidParameterLength,
    KeyRequired,
    TagMismatch,
}

/// The bytes of an optional byte string.
pub open spec fn opt_bytes(o: Option<&[u8]>) -> Option<Seq<u8>> {
    match o {
        Some(b) => Some(b@),
        None => None,
    }
}

/// The ciphertext part of a ciphertext followed by its 16-byte tag.
pub open spec fn ciphertext_part(bin: Seq<u8>) -> Seq<u8> {
    bin.take(bin.len() - 16)
}

/// The tag part of a ciphertext followed by its 16-byte tag.
pub open spec fn tag_part(bin: Seq<u8>) -> Seq<u8> {
    bin.skip(bin.len() - 16)
}

/// The length of an optional byte string, zero when it is absent.
pub open spec fn opt_len(o: Option<&[u8]>) -> nat {
    match o {
        Some(b) => b@.len(),
        None => 0,
    }
}

// ---------------------------------------------------------------------------
// Names for what the outside operations compute.

/// Hash-mode state after `XoodyakHash::absorb(bin)`.
pub uninterp spec fn hash_absorbed(h: XoodyakHash, bin: Seq<u8>) -> XoodyakHash;

/// Hash-mode state after `XoodyakHash::absorb_more(bin, rate)`.
pub uninterp spec fn hash_absorbed_more(h: XoodyakHash, bin: Seq<u8>, rate: usize) -> XoodyakHash;

/// Hash-mode state and output after `XoodyakHash::squeeze` into `len` bytes.
pub uninterp spec fn hash_squeezed(h: XoodyakHash, len: nat) -> (XoodyakHash, Seq<u8>);

/// Hash-mode state and output after `XoodyakHash::squeeze_key` into `len` bytes.
pub uninterp spec fn hash_key_squeezed(h: XoodyakHash, len: nat) -> (XoodyakHash, Seq<u8>);

/// Keyed state that `XoodyakKeyed::new(key, nonce, key_id, counter)` builds.
pub uninterp spec fn keyed_started(
    key: Seq<u8>,
    nonce: Option<Seq<u8>>,
    key_id: Option<Seq<u8>>,
    counter: Option<Seq<u8>>,
) -> XoodyakKeyed;

/// Keyed state after `XoodyakKeyed::absorb(bin)`.
pub uninterp spec fn keyed_absorbed(k: XoodyakKeyed, bin: Seq<u8>) -> XoodyakKeyed;

/// Keyed state and output after `XoodyakKeyed::squeeze` into `len` bytes.
pub uninterp spec fn keyed_squeezed(k: XoodyakKeyed, len: nat) -> (XoodyakKeyed, Seq<u8>);

/// Keyed state and output after `XoodyakKeyed::squeeze_key` into `len` bytes.
pub uninterp spec fn keyed_key_squeezed(k: XoodyakKeyed, len: nat) -> (XoodyakKeyed, Seq<u8>);

/// Keyed state and ciphertext after `XoodyakKeyed::encrypt` of `bin`.
pub uninterp spec fn keyed_encrypted(k: XoodyakKeyed, bin: Seq<u8>) -> (XoodyakKeyed, Seq<u8>);

/// Keyed state and plaintext after `XoodyakKeyed::decrypt` of `bin`.
pub uninterp spec fn keyed_decrypted(k: XoodyakKeyed, bin: Seq<u8>) -> (XoodyakKeyed, Seq<u8>);

/// Keyed state after `XoodyakKeyed::ratchet`.
pub uninterp spec fn keyed_ratcheted(k: XoodyakKeyed) -> XoodyakKeyed;

/// Authenticated encryption of `m` from `k`, as the outside source composes
/// it: encrypt, then squeeze a 16-byte tag. The state after, the ciphertext
/// and the tag.
pub open spec fn aead_sealed(k: XoodyakKeyed, m: Seq<u8>) -> (XoodyakKeyed, Seq<u8>, Seq<u8>) {
    let (k1, c) = keyed_encrypted(k, m);
    let (k2, t) = keyed_squeezed(k1, 16);
    (k2, c, t)
}

/// Authenticated decryption of the ciphertext `c` from `k`, as the outside
/// source composes it: decrypt, then squeeze the tag to compare with. The
/// state after, the plaintext and the expected tag.
pub open spec fn aead_opened(k: XoodyakKeyed, c: Seq<u8>) -> (XoodyakKeyed, Seq<u8>, Seq<u8>) {
    let (k1, p) = keyed_decrypted(k, c);
    let (k2, t) = keyed_squeezed(k1, 16);
    (k2, p, t)
}

// ---------------------------------------------------------------------------
// Hash mode.

/// `XoodyakHash::new`: a fresh hash-mode state. Nothing is stated of it.
#[verifier::external_body]
pub(crate) fn hash_new() -> XoodyakHash {
    XoodyakHash::new()
}

/// `XoodyakHash::clone`: the derived clone of a plain-data state, equal to it.
#[verifier::external_body]
pub(crate) fn hash_duplicate(h: &XoodyakHash) -> (r: XoodyakHash)
    ensures
        r == *h,
{
    h.clone()
}

/// `XoodyakHash::absorb`: the new state is `hash_absorbed` of the old state
/// and the input.
#[verifier::external_body]
pub(crate) fn hash_absorb(h: &mut XoodyakHash, bin: &[u8])
    ensures
        *final(h) == hash_absorbed(*old(h), bin@),
{
    h.absorb(bin)
}

/// `XoodyakHash::absorb_more`: the new state is `hash_absorbed_more` of the
/// old state, the input and the rate. The input is cut into chunks of
/// `rate` bytes; each chunk is added to the 48-byte state with a padding byte
/// written at the chunk's length, and a chunk longer than the hash absorb
/// rate of 16 bytes trips the outside code's debug assertion (one of 48 or
/// more overruns the state). So the rate is between 1 and 16.
#[verifier::external_body]
pub(crate) fn hash_absorb_more(h: &mut XoodyakHash, bin: &[u8], rate: usize)
    requires
        0 < rate <= 16,
    ensures
        *final(h) == hash_absorbed_more(*old(h), bin@, rate),
{
    h.absorb_more(bin, rate)
}

/// `XoodyakHash::squeeze_to_vec(len)`, which squeezes into a fresh buffer of
/// `len` bytes: the new state and the bytes are `hash_squeezed`.
#[verifier::external_body]
pub(crate) fn hash_squeeze(h: &mut XoodyakHash, len: usize) -> (out: Vec<u8>)
    ensures
        (*final(h), out@) == hash_squeezed(*old(h), len as nat),
        out@.len() == len,
{
    h.squeeze_to_vec(len)
}

/// `XoodyakHash::squeeze_key` into a fresh buffer of `len` bytes: the new
/// state and the bytes are `hash_key_squeezed`.
#[verifier::external_body]
pub(crate) fn hash_squeeze_key(h: &mut XoodyakHash, len: usize) -> (out: Vec<u8>)
    ensures
        (*final(h), out@) == hash_key_squeezed(*old(h), len as nat),
        out@.len() == len,
{
    let mut out = vec![0u8; len];
    h.squeeze_key(&mut out);
    out
}

// ---------------------------------------------------------------------------
// Keyed mode.

/// `XoodyakKeyed::new`: fails with `InvalidParameterLength` exactly when the
/// key, one length byte, the key id and the nonce together exceed the keyed
/// absorb rate of 44 bytes; otherwise builds `keyed_started` of its arguments.
#[verifier::external_body]
pub(crate) fn keyed_new(
    key: &[u8],
    nonce: Option<&[u8]>,
    key_id: Option<&[u8]>,
    counter: Option<&[u8]>,
) -> (r: Result<XoodyakKeyed, SpongeError>)
    requires
        key@.len() + 1 + opt_len(key_id) + opt_len(nonce) <= usize::MAX,
    ensures
        r is Err <==> key@.len() + 1 + opt_len(key_id) + opt_len(nonce) > 44,
        r matches Err(e) ==> e == SpongeError::InvalidParameterLength,
        r matches Ok(k) ==> k == keyed_started(
            key@,
            opt_bytes(nonce),
            opt_bytes(key_id),
            opt_bytes(counter),
        ),
{
    match XoodyakKeyed::new(key, nonce, key_id, counter) {
        Ok(k) => Ok(k),
        Err(XoodyakError::InvalidBufferLength) => Err(SpongeError::InvalidBufferLength),
        Err(XoodyakError::InvalidParameterLength) => Err(SpongeError::InvalidParameterLength),
        Err(XoodyakError::KeyRequired) => Err(SpongeError::KeyRequired),
        Err(XoodyakError::TagMismatch) => Err(SpongeError::TagMismatch),
    }
}

/// `XoodyakKeyed::clone`: the derived clone of a plain-data state, equal to it.
#[verifier::external_body]
pub(crate) fn keyed_duplicate(k: &XoodyakKeyed) -> (r: XoodyakKeyed)
    ensures
        r == *k,
{
    k.clone()
}

/// `XoodyakKeyed::absorb`: the new state is `keyed_absorbed`.
#[verifier::external_body]
pub(crate) fn keyed_absorb(k: &mut XoodyakKeyed, bin: &[u8])
    ensures
        *final(k) == keyed_absorbed(*old(k), bin@),
{
    k.absorb(bin)
}

/// `XoodyakKeyed::squeeze_to_vec(len)`, which squeezes into a fresh buffer
/// of `len` bytes: the new state and the bytes are `keyed_squeezed`.
#[verifier::external_body]
pub(crate) fn keyed_squeeze(k: &mut XoodyakKeyed, len: usize) -> (out: Vec<u8>)
    ensures
        (*final(k), out@) == keyed_squeezed(*old(k), len as nat),
        out@.len() == len,
{
    k.squeeze_to_vec(len)
}

/// `XoodyakKeyed::squeeze_key` into a fresh buffer of `len` bytes.
#[verifier::external_body]
pub(crate) fn keyed_squeeze_key(k: &mut XoodyakKeyed, len: usize) -> (out: Vec<u8>)
    ensures
        (*final(k), out@) == keyed_key_squeezed(*old(k), len as nat),
        out@.len() == len,
{
    let mut out = vec![0u8; len];
    k.squeeze_key(&mut out);
    out
}

/// `XoodyakKeyed::encrypt_to_vec`, which encrypts into a buffer as long as
/// the input; `encrypt` fails only on a shorter buffer, so this succeeds,
/// with `keyed_encrypted`.
#[verifier::external_body]
pub(crate) fn keyed_encrypt(k: &mut XoodyakKeyed, bin: &[u8]) -> (r: Result<Vec<u8>, SpongeError>)
    ensures
        r is Ok,
        r matches Ok(out) ==> (*final(k), out@) == keyed_encrypted(*old(k), bin@),
        r matches Ok(out) ==> out@.len() == bin@.len(),
{
    match k.encrypt_to_vec(bin) {
        Ok(out) => Ok(out),
        Err(XoodyakError::InvalidBufferLength) => Err(SpongeError::InvalidBufferLength),
        Err(XoodyakError::InvalidParameterLength) => Err(SpongeError::InvalidParameterLength),
        Err(XoodyakError::KeyRequired) => Err(SpongeError::KeyRequired),
        Err(XoodyakError::TagMismatch) => Err(SpongeError::TagMismatch),
    }
}

/// `XoodyakKeyed::decrypt_to_vec`, which decrypts into a buffer as long as
/// the input: it succeeds, with `keyed_decrypted`. Decryption takes the same keystream from the
/// state that encryption takes and absorbs the recovered plaintext where
/// encryption absorbs its input, so a ciphertext that `encrypt` made from
/// this state decrypts to its plaintext and leaves the state that
/// encryption left.
#[verifier::external_body]
pub(crate) fn keyed_decrypt(k: &mut XoodyakKeyed, bin: &[u8]) -> (r: Result<Vec<u8>, SpongeError>)
    ensures
        r is Ok,
        r matches Ok(out) ==> (*final(k), out@) == keyed_decrypted(*old(k), bin@),
        r matches Ok(out) ==> out@.len() == bin@.len(),
        forall|m: Seq<u8>|
            #![trigger keyed_encrypted(*old(k), m)]
            keyed_encrypted(*old(k), m).1 == bin@ ==> keyed_decrypted(*old(k), bin@) == (
                keyed_encrypted(*old(k), m).0,
                m,
            ),
{
    match k.decrypt_to_vec(bin) {
        Ok(out) => Ok(out),
        Err(XoodyakError::InvalidBufferLength) => Err(SpongeError::InvalidBufferLength),
        Err(XoodyakError::InvalidParameterLength) => Err(SpongeError::InvalidParameterLength),
        Err(XoodyakError::KeyRequired) => Err(SpongeError::KeyRequired),
        Err(XoodyakError::TagMismatch) => Err(SpongeError::TagMismatch),
    }
}

/// `XoodyakKeyed::aead_encrypt_to_vec`, which sizes its buffer as the
/// input's length plus the tag's: its source encrypts the input, then
/// squeezes a 16-byte tag and places it after the ciphertext; it succeeds.
/// That sum must not overflow.
#[verifier::external_body]
pub(crate) fn keyed_aead_encrypt(k: &mut XoodyakKeyed, bin: &[u8]) -> (r: Result<Vec<u8>, SpongeError>)
    requires
        bin@.len() + 16 <= usize::MAX,
    ensures
        r is Ok,
        *final(k) == aead_sealed(*old(k), bin@).0,
        r matches Ok(out) ==> out@ == aead_sealed(*old(k), bin@).1 + aead_sealed(*old(k), bin@).2,
        r matches Ok(out) ==> out@.len() == bin@.len() + 16,
{
    match k.aead_encrypt_to_vec(Some(bin)) {
        Ok(out) => Ok(out),
        Err(XoodyakError::InvalidBufferLength) => Err(SpongeError::InvalidBufferLength),
        Err(XoodyakError::InvalidParameterLength) => Err(SpongeError::InvalidParameterLength),
        Err(XoodyakError::KeyRequired) => Err(SpongeError::KeyRequired),
        Err(XoodyakError::TagMismatch) => Err(SpongeError::TagMismatch),
    }
}

/// `XoodyakKeyed::aead_encrypt_to_vec_detached`: its source encrypts the
/// input into a buffer of the input's length, then squeezes the 16-byte tag,
/// returned apart; it succeeds.
#[verifier::external_body]
pub(crate) fn keyed_aead_encrypt_detached(k: &mut XoodyakKeyed, bin: &[u8]) -> (r: Result<
    (Vec<u8>, [u8; 16]),
    SpongeError,
>)
    ensures
        r is Ok,
        *final(k) == aead_sealed(*old(k), bin@).0,
        r matches Ok(pair) ==> pair.0@ == aead_sealed(*old(k), bin@).1,
        r matches Ok(pair) ==> pair.1@ == aead_sealed(*old(k), bin@).2,
        r matches Ok(pair) ==> pair.0@.len() == bin@.len(),
{
    match k.aead_encrypt_to_vec_detached(Some(bin)) {
        Ok((out, tag)) => Ok((out, tag.into())),
        Err(XoodyakError::InvalidBufferLength) => Err(SpongeError::InvalidBufferLength),
        Err(XoodyakError::InvalidParameterLength) => Err(SpongeError::InvalidParameterLength),
        Err(XoodyakError::KeyRequired) => Err(SpongeError::KeyRequired),
        Err(XoodyakError::TagMismatch) => Err(SpongeError::TagMismatch),
    }
}

/// `XoodyakKeyed::aead_decrypt_to_vec` of a ciphertext followed by its
/// 16-byte tag (an input shorter than a tag is not passed here): its source
/// decrypts the ciphertext, squeezes a tag and compares it with
/// the given one byte by byte; on a match it hands the plaintext back,
/// otherwise it fails with `TagMismatch`. The state moves on either way.
/// Since decryption retraces encryption from the same state (see
/// `keyed_decrypt`), what `aead_encrypt` sealed from this state opens to its
/// plaintext and leaves the state that sealing left.
#[verifier::external_body]
pub(crate) fn keyed_aead_decrypt(k: &mut XoodyakKeyed, bin: &[u8]) -> (r: Result<Vec<u8>, SpongeError>)
    requires
        bin@.len() >= 16,
    ensures
        *final(k) == aead_opened(*old(k), ciphertext_part(bin@)).0,
        r is Ok <==> aead_opened(*old(k), ciphertext_part(bin@)).2 == tag_part(bin@),
        r matches Ok(out) ==> out@ == aead_opened(*old(k), ciphertext_part(bin@)).1,
        r matches Ok(out) ==> out@.len() + 16 == bin@.len(),
        r matches Err(e) ==> e == SpongeError::TagMismatch,
        forall|m: Seq<u8>|
            #![trigger aead_sealed(*old(k), m)]
            aead_sealed(*old(k), m).1 + aead_sealed(*old(k), m).2 == bin@ ==> (r is Ok && r->Ok_0@
                == m && *final(k) == aead_sealed(*old(k), m).0),
{
    match k.aead_decrypt_to_vec(bin) {
        Ok(out) => Ok(out),
        Err(XoodyakError::InvalidBufferLength) => Err(SpongeError::InvalidBufferLength),
        Err(XoodyakError::InvalidParameterLength) => Err(SpongeError::InvalidParameterLength),
        Err(XoodyakError::KeyRequired) => Err(SpongeError::KeyRequired),
        Err(XoodyakError::TagMismatch) => Err(SpongeError::TagMismatch),
    }
}

/// `XoodyakKeyed::aead_decrypt_to_vec_detached` of a ciphertext and a
/// separate 16-byte tag: as `keyed_aead_decrypt`, with the tag given apart; what
/// `aead_encrypt_detached` sealed from this state opens to its plaintext.
#[verifier::external_body]
pub(crate) fn keyed_aead_decrypt_detached(k: &mut XoodyakKeyed, bin: &[u8], tag: [u8; 16]) -> (r:
    Result<Vec<u8>, SpongeError>)
    ensures
        *final(k) == aead_opened(*old(k), bin@).0,
        r is Ok <==> aead_opened(*old(k), bin@).2 == tag@,
        r matches Ok(out) ==> out@ == aead_opened(*old(k), bin@).1,
        r matches Ok(out) ==> out@.len() == bin@.len(),
        r matches Err(e) ==> e == SpongeError::TagMismatch,
        forall|m: Seq<u8>|
            #![trigger aead_sealed(*old(k), m)]
            aead_sealed(*old(k), m).1 == bin@ && aead_sealed(*old(k), m).2 == tag@ ==> (r is Ok
                && r->Ok_0@ == m && *final(k) == aead_sealed(*old(k), m).0),
{
    match k.aead_decrypt_to_vec_detached(XoodyakTag::from(tag), Some(bin)) {
        Ok(out) => Ok(out),
        Err(XoodyakError::InvalidBufferLength) => Err(SpongeError::InvalidBufferLength),
        Err(XoodyakError::InvalidParameterLength) => Err(SpongeError::InvalidParameterLength),
        Err(XoodyakError::KeyRequired) => Err(SpongeError::KeyRequired),
        Err(XoodyakError::TagMismatch) => Err(SpongeError::TagMismatch),
    }
}

/// `XoodyakKeyed::ratchet`: the new state is `keyed_ratcheted`.
#[verifier::external_body]
pub(crate) fn keyed_ratchet(k: &mut XoodyakKeyed)
    ensures
        *final(k) == keyed_ratcheted(*old(k)),
{
    k.ratchet()
}

} // verus!
