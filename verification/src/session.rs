//! A Xoodyak session: unkeyed (hashing) or keyed (encryption,
//! authentication, ratcheting), with every operation stated as a function
//! from the state before to the state after and the result.

use vstd::prelude::*;
use xoodyak::{XoodyakHash, XoodyakKeyed};
use crate::error::{spec_map_xoodyak_err, map_xoodyak_err, Error, Operation};
use crate::sponge::{
    aead_opened, aead_sealed, auth_tag_bytes, ciphertext_part, hash_absorb, hash_squeeze,
    hash_squeeze_key, keyed_aead_decrypt, keyed_aead_decrypt_detached, keyed_aead_encrypt,
    keyed_aead_encrypt_detached, keyed_decrypt, keyed_encrypt, keyed_ratchet, keyed_squeeze,
    keyed_squeeze_key, hash_absorbed, hash_duplicate,
    hash_key_squeezed, hash_new, hash_squeezed, keyed_absorb, keyed_absorbed, keyed_decrypted,
    keyed_duplicate, keyed_encrypted, keyed_key_squeezed, keyed_new, keyed_ratcheted,
    keyed_squeezed, keyed_started, opt_bytes, opt_len, tag_part,
};

verus! {

/// The state of a session: hash mode without a key, or keyed mode.
pub enum XoodyakState {
    Unkeyed(XoodyakHash),
    Keyed(XoodyakKeyed),
}

/// A Xoodyak session.
pub struct Xoodyak {
    state: XoodyakState,
}

impl View for Xoodyak {
    type V = XoodyakState;

    closed spec fn view(&self) -> XoodyakState {
        self.state
    }
}

/// The bytes of a byte-vector result.
pub open spec fn bytes_result(r: Result<Vec<u8>, Error>) -> Result<Seq<u8>, Error> {
    match r {
        Ok(v) => Ok(v@),
        Err(e) => Err(e),
    }
}

/// The bytes of a result that pairs a ciphertext with its tag.
pub open spec fn pair_result(r: Result<(Vec<u8>, Vec<u8>), Error>) -> Result<
    (Seq<u8>, Seq<u8>),
    Error,
> {
    match r {
        Ok(p) => Ok((p.0@, p.1@)),
        Err(e) => Err(e),
    }
}

/// Whether a nonce, key id or counter is given.
pub open spec fn has_keyed_arguments(
    nonce: Option<Seq<u8>>,
    key_id: Option<Seq<u8>>,
    counter: Option<Seq<u8>>,
) -> bool {
    nonce is Some || key_id is Some || counter is Some
}

/// The length of an optional byte string, zero when it is absent.
pub open spec fn opt_seq_len(o: Option<Seq<u8>>) -> nat {
    match o {
        Some(b) => b.len(),
        None => 0,
    }
}

/// Length in bytes of the key derived from key material that is too long to
/// fit beside the nonce and key id.
pub const DERIVED_KEY_LEN: usize = 16;

/// The key derived from key material `key` that does not fit: a keyed state
/// is started with the empty key, absorbs `key`, and `DERIVED_KEY_LEN` key
/// bytes are squeezed from it.
pub open spec fn derived_key(key: Seq<u8>) -> Seq<u8> {
    keyed_key_squeezed(
        keyed_absorbed(keyed_started(Seq::empty(), None, None, None), key),
        DERIVED_KEY_LEN as nat,
    ).1
}

/// (Re)initialisation with optional key, nonce, key id and counter:
/// `Ok(Some(state))` for the state the session takes, `Ok(None)` for a fresh
/// hash-mode state (which is not named), or the error, on which the session
/// keeps its state.
///
/// With a key, of any length, the state becomes keyed. Xoodyak's keyed state
/// takes the key, one length byte, the key id and the nonce together within
/// its absorb rate of 44 bytes. Key material that fits is used as it is; key
/// material that does not is replaced by `derived_key` of it, of
/// `DERIVED_KEY_LEN` bytes. Only a key id and a nonce that leave no room even
/// for the derived key are refused, with `InvalidParameterLength`. Without a
/// key, the state becomes a fresh hash-mode one, unless a nonce, key id or
/// counter is given.
pub open spec fn initialized(
    key: Option<Seq<u8>>,
    nonce: Option<Seq<u8>>,
    key_id: Option<Seq<u8>>,
    counter: Option<Seq<u8>>,
) -> Result<Option<XoodyakState>, Error> {
    match key {
        Some(k) => if k.len() + 1 + opt_seq_len(key_id) + opt_seq_len(nonce) <= 44 {
            Ok(Some(XoodyakState::Keyed(keyed_started(k, nonce, key_id, counter))))
        } else if DERIVED_KEY_LEN + 1 + opt_seq_len(key_id) + opt_seq_len(nonce) <= 44 {
            Ok(Some(XoodyakState::Keyed(keyed_started(derived_key(k), nonce, key_id, counter))))
        } else {
            Err(Error::InvalidParameterLength)
        },
        None => if has_keyed_arguments(nonce, key_id, counter) {
            Err(Error::KeyedArgumentsWithoutKey)
        } else {
            Ok(None)
        },
    }
}

/// A key of any length is accepted: on its own, or with a key id and a nonce
/// of at most 27 bytes together, it keys the session.
pub proof fn lemma_any_key_length(
    key: Seq<u8>,
    nonce: Option<Seq<u8>>,
    key_id: Option<Seq<u8>>,
    counter: Option<Seq<u8>>,
)
    requires
        opt_seq_len(key_id) + opt_seq_len(nonce) <= 27,
    ensures
        initialized(Some(key), nonce, key_id, counter) matches Ok(Some(st)) && st is Keyed,
{
}

/// Derives `DERIVED_KEY_LEN` key bytes from key material of any length.
pub fn derive_key(key: &[u8]) -> (d: Vec<u8>)
    ensures
        d@ == derived_key(key@),
        d@ == keyed_key_squeezed(
            keyed_absorbed(keyed_started(Seq::empty(), None, None, None), key@),
            16,
        ).1,
        d@.len() == DERIVED_KEY_LEN,
{
    let empty: [u8; 0] = [];
    assert(empty@ =~= Seq::<u8>::empty());
    match keyed_new(&empty, None, None, None) {
        Ok(mut st) => {
            keyed_absorb(&mut st, key);
            keyed_squeeze_key(&mut st, DERIVED_KEY_LEN)
        },
        Err(_) => Vec::new(),
    }
}

/// The state after absorbing `bin`, in either mode.
pub open spec fn absorbed(s: XoodyakState, bin: Seq<u8>) -> XoodyakState {
    match s {
        XoodyakState::Unkeyed(h) => XoodyakState::Unkeyed(hash_absorbed(h, bin)),
        XoodyakState::Keyed(k) => XoodyakState::Keyed(keyed_absorbed(k, bin)),
    }
}

/// The state after squeezing `len` bytes, and the bytes, in either mode.
pub open spec fn squeezed(s: XoodyakState, len: nat) -> (XoodyakState, Seq<u8>) {
    match s {
        XoodyakState::Unkeyed(h) => (
            XoodyakState::Unkeyed(hash_squeezed(h, len).0),
            hash_squeezed(h, len).1,
        ),
        XoodyakState::Keyed(k) => (
            XoodyakState::Keyed(keyed_squeezed(k, len).0),
            keyed_squeezed(k, len).1,
        ),
    }
}

/// The state after squeezing `len` key bytes, and the bytes, in either mode.
pub open spec fn key_squeezed(s: XoodyakState, len: nat) -> (XoodyakState, Seq<u8>) {
    match s {
        XoodyakState::Unkeyed(h) => (
            XoodyakState::Unkeyed(hash_key_squeezed(h, len).0),
            hash_key_squeezed(h, len).1,
        ),
        XoodyakState::Keyed(k) => (
            XoodyakState::Keyed(keyed_key_squeezed(k, len).0),
            keyed_key_squeezed(k, len).1,
        ),
    }
}

/// Encryption of `bin`: keyed mode only.
pub open spec fn encrypted(s: XoodyakState, bin: Seq<u8>) -> (XoodyakState, Result<Seq<u8>, Error>) {
    match s {
        XoodyakState::Unkeyed(_) => (s, Err(Error::KeyedModeOnly(Operation::Encrypt))),
        XoodyakState::Keyed(k) => (
            XoodyakState::Keyed(keyed_encrypted(k, bin).0),
            Ok(keyed_encrypted(k, bin).1),
        ),
    }
}

/// Decryption of `bin`: keyed mode only.
pub open spec fn decrypted(s: XoodyakState, bin: Seq<u8>) -> (XoodyakState, Result<Seq<u8>, Error>) {
    match s {
        XoodyakState::Unkeyed(_) => (s, Err(Error::KeyedModeOnly(Operation::Decrypt))),
        XoodyakState::Keyed(k) => (
            XoodyakState::Keyed(keyed_decrypted(k, bin).0),
            Ok(keyed_decrypted(k, bin).1),
        ),
    }
}

/// Authenticated encryption of `bin`, the tag placed after the ciphertext:
/// keyed mode only.
pub open spec fn aead_encrypted(s: XoodyakState, bin: Seq<u8>) -> (XoodyakState, Result<Seq<u8>, Error>) {
    match s {
        XoodyakState::Unkeyed(_) => (s, Err(Error::KeyedModeOnly(Operation::AeadEncrypt))),
        XoodyakState::Keyed(k) => (
            XoodyakState::Keyed(aead_sealed(k, bin).0),
            Ok(aead_sealed(k, bin).1 + aead_sealed(k, bin).2),
        ),
    }
}

/// Authenticated decryption of a ciphertext followed by its tag: keyed mode
/// only; an input shorter than a tag is refused and keeps the state; a tag
/// that does not match fails after the state has moved on.
pub open spec fn aead_decrypted(s: XoodyakState, bin: Seq<u8>) -> (XoodyakState, Result<Seq<u8>, Error>) {
    match s {
        XoodyakState::Unkeyed(_) => (s, Err(Error::KeyedModeOnly(Operation::AeadDecrypt))),
        XoodyakState::Keyed(k) => if bin.len() < 16 {
            (s, Err(Error::CiphertextTooShort))
        } else {
            let opened = aead_opened(k, ciphertext_part(bin));
            (
                XoodyakState::Keyed(opened.0),
                if opened.2 == tag_part(bin) {
                    Ok(opened.1)
                } else {
                    Err(Error::TagMismatch)
                },
            )
        },
    }
}

/// Authenticated encryption of `bin` with the tag returned apart: keyed
/// mode only.
pub open spec fn aead_encrypted_detached(s: XoodyakState, bin: Seq<u8>) -> (XoodyakState, Result<
    (Seq<u8>, Seq<u8>),
    Error,
>) {
    match s {
        XoodyakState::Unkeyed(_) => (
            s,
            Err(Error::KeyedModeOnly(Operation::AeadEncryptDetached)),
        ),
        XoodyakState::Keyed(k) => (
            XoodyakState::Keyed(aead_sealed(k, bin).0),
            Ok((aead_sealed(k, bin).1, aead_sealed(k, bin).2)),
        ),
    }
}

/// Authenticated decryption of `bin` with a separate tag: keyed mode only;
/// a tag that is not 16 bytes long is refused and keeps the state; a tag
/// that does not match fails after the state has moved on.
pub open spec fn aead_decrypted_detached(s: XoodyakState, bin: Seq<u8>, tag: Seq<u8>) -> (
    XoodyakState,
    Result<Seq<u8>, Error>,
) {
    match s {
        XoodyakState::Unkeyed(_) => (
            s,
            Err(Error::KeyedModeOnly(Operation::AeadDecryptDetached)),
        ),
        XoodyakState::Keyed(k) => if tag.len() != 16 {
            (s, Err(Error::InvalidTagLength))
        } else {
            let opened = aead_opened(k, bin);
            (
                XoodyakState::Keyed(opened.0),
                if opened.2 == tag {
                    Ok(opened.1)
                } else {
                    Err(Error::TagMismatch)
                },
            )
        },
    }
}

/// Ratcheting: keyed mode only.
pub open spec fn ratcheted(s: XoodyakState) -> (XoodyakState, Result<(), Error>) {
    match s {
        XoodyakState::Unkeyed(_) => (s, Err(Error::KeyedModeOnly(Operation::Ratchet))),
        XoodyakState::Keyed(k) => (XoodyakState::Keyed(keyed_ratcheted(k)), Ok(())),
    }
}

/// Keying with key material that fits beside the nonce and key id uses the
/// key as it is: the session takes the state that the outside keyed
/// constructor builds from exactly these arguments.
pub proof fn law_key_used_as_given(
    key: Seq<u8>,
    nonce: Option<Seq<u8>>,
    key_id: Option<Seq<u8>>,
    counter: Option<Seq<u8>>,
)
    requires
        key.len() + 1 + opt_seq_len(key_id) + opt_seq_len(nonce) <= 44,
    ensures
        initialized(Some(key), nonce, key_id, counter) == Ok::<Option<XoodyakState>, Error>(
            Some(XoodyakState::Keyed(keyed_started(key, nonce, key_id, counter))),
        ),
{
}

/// Keying with key material that does not fit, where a 16-byte key does,
/// uses the 16 key bytes squeezed from an empty-keyed state after absorbing
/// the key material.
pub proof fn law_long_key_derived(
    key: Seq<u8>,
    nonce: Option<Seq<u8>>,
    key_id: Option<Seq<u8>>,
    counter: Option<Seq<u8>>,
)
    requires
        key.len() + 1 + opt_seq_len(key_id) + opt_seq_len(nonce) > 44,
        16 + 1 + opt_seq_len(key_id) + opt_seq_len(nonce) <= 44,
    ensures
        initialized(Some(key), nonce, key_id, counter) == Ok::<Option<XoodyakState>, Error>(
            Some(
                XoodyakState::Keyed(
                    keyed_started(
                        keyed_key_squeezed(
                            keyed_absorbed(keyed_started(Seq::empty(), None, None, None), key),
                            16,
                        ).1,
                        nonce,
                        key_id,
                        counter,
                    ),
                ),
            ),
        ),
{
}

/// Absorbing moves the state on by the outside absorb, in either mode.
pub proof fn law_absorb(s: XoodyakState, bin: Seq<u8>)
    ensures
        s matches XoodyakState::Unkeyed(h) ==> absorbed(s, bin) == XoodyakState::Unkeyed(
            hash_absorbed(h, bin),
        ),
        s matches XoodyakState::Keyed(k) ==> absorbed(s, bin) == XoodyakState::Keyed(
            keyed_absorbed(k, bin),
        ),
{
}

/// Two squeezes in a row: the first gives the outside squeeze's bytes from
/// the state, and the second gives the outside squeeze's bytes from the
/// state that the first left, in either mode; the same for key squeezes.
pub proof fn law_squeeze_moves_state(s: XoodyakState, a: nat, b: nat)
    ensures
        s matches XoodyakState::Unkeyed(h) ==> {
            &&& squeezed(s, a).1 == hash_squeezed(h, a).1
            &&& squeezed(squeezed(s, a).0, b).1 == hash_squeezed(hash_squeezed(h, a).0, b).1
            &&& squeezed(squeezed(s, a).0, b).0 == XoodyakState::Unkeyed(
                hash_squeezed(hash_squeezed(h, a).0, b).0,
            )
            &&& key_squeezed(s, a).1 == hash_key_squeezed(h, a).1
            &&& key_squeezed(key_squeezed(s, a).0, b).1 == hash_key_squeezed(
                hash_key_squeezed(h, a).0,
                b,
            ).1
        },
        s matches XoodyakState::Keyed(k) ==> {
            &&& squeezed(s, a).1 == keyed_squeezed(k, a).1
            &&& squeezed(squeezed(s, a).0, b).1 == keyed_squeezed(keyed_squeezed(k, a).0, b).1
            &&& squeezed(squeezed(s, a).0, b).0 == XoodyakState::Keyed(
                keyed_squeezed(keyed_squeezed(k, a).0, b).0,
            )
            &&& key_squeezed(s, a).1 == keyed_key_squeezed(k, a).1
            &&& key_squeezed(key_squeezed(s, a).0, b).1 == keyed_key_squeezed(
                keyed_key_squeezed(k, a).0,
                b,
            ).1
        },
{
}

/// Two encryptions in a row from a keyed state: the first gives the outside
/// encryption of the first message from that state, the second the outside
/// encryption of the second message from the state the first left; the same
/// for decryptions. Unkeyed sessions refuse both and keep their state.
pub proof fn law_encrypt_decrypt_move_state(s: XoodyakState, m1: Seq<u8>, m2: Seq<u8>)
    ensures
        s matches XoodyakState::Keyed(k) ==> {
            let e1 = keyed_encrypted(k, m1);
            let e2 = keyed_encrypted(e1.0, m2);
            let d1 = keyed_decrypted(k, m1);
            let d2 = keyed_decrypted(d1.0, m2);
            &&& encrypted(s, m1).1 == Ok::<Seq<u8>, Error>(e1.1)
            &&& encrypted(encrypted(s, m1).0, m2) == (
                XoodyakState::Keyed(e2.0),
                Ok::<Seq<u8>, Error>(e2.1),
            )
            &&& decrypted(s, m1).1 == Ok::<Seq<u8>, Error>(d1.1)
            &&& decrypted(decrypted(s, m1).0, m2) == (
                XoodyakState::Keyed(d2.0),
                Ok::<Seq<u8>, Error>(d2.1),
            )
        },
        s is Unkeyed ==> encrypted(s, m1).0 == s && encrypted(s, m1).1 is Err && decrypted(
            s,
            m1,
        ).0 == s && decrypted(s, m1).1 is Err,
{
}

/// Authenticated encryption from a keyed state is the outside encryption of
/// the message from that state, followed by 16 bytes squeezed from the state
/// the encryption left, which the session then holds; the detached form
/// gives the same two parts apart. Authenticated decryption decrypts the
/// ciphertext from the state the session holds, squeezes 16 bytes, and
/// succeeds exactly when they equal the given tag.
pub proof fn law_aead(s: XoodyakState, m: Seq<u8>, bin: Seq<u8>, tag: Seq<u8>)
    ensures
        s matches XoodyakState::Keyed(k) ==> {
            let e = keyed_encrypted(k, m);
            let t = keyed_squeezed(e.0, 16);
            &&& aead_encrypted(s, m) == (
                XoodyakState::Keyed(t.0),
                Ok::<Seq<u8>, Error>(e.1 + t.1),
            )
            &&& aead_encrypted_detached(s, m) == (
                XoodyakState::Keyed(t.0),
                Ok::<(Seq<u8>, Seq<u8>), Error>((e.1, t.1)),
            )
        },
        s matches XoodyakState::Keyed(k) ==> bin.len() >= 16 ==> {
            let d = keyed_decrypted(k, bin.take(bin.len() - 16));
            let t = keyed_squeezed(d.0, 16);
            &&& aead_decrypted(s, bin).0 == XoodyakState::Keyed(t.0)
            &&& (aead_decrypted(s, bin).1 is Ok <==> t.1 == bin.skip(bin.len() - 16))
            &&& (aead_decrypted(s, bin).1 matches Ok(p) ==> p == d.1)
        },
        s matches XoodyakState::Keyed(k) ==> tag.len() == 16 ==> {
            let d = keyed_decrypted(k, bin);
            let t = keyed_squeezed(d.0, 16);
            &&& aead_decrypted_detached(s, bin, tag).0 == XoodyakState::Keyed(t.0)
            &&& (aead_decrypted_detached(s, bin, tag).1 is Ok <==> t.1 == tag)
            &&& (aead_decrypted_detached(s, bin, tag).1 matches Ok(p) ==> p == d.1)
        },
{
}

/// Ratcheting a keyed state applies the outside ratchet exactly once per
/// call: two calls apply it twice. Unkeyed sessions refuse it.
pub proof fn law_ratchet_once(s: XoodyakState)
    ensures
        s matches XoodyakState::Keyed(k) ==> {
            &&& ratcheted(s) == (XoodyakState::Keyed(keyed_ratcheted(k)), Ok::<(), Error>(()))
            &&& ratcheted(ratcheted(s).0).0 == XoodyakState::Keyed(
                keyed_ratcheted(keyed_ratcheted(k)),
            )
        },
        s is Unkeyed ==> ratcheted(s).0 == s && ratcheted(s).1 is Err,
{
}

/// A call on a session, with its arguments.
pub enum Call {
    Absorb(Seq<u8>),
    Squeeze(nat),
    SqueezeKey(nat),
    Encrypt(Seq<u8>),
    Decrypt(Seq<u8>),
    AeadEncrypt(Seq<u8>),
    AeadDecrypt(Seq<u8>),
    AeadEncryptDetached(Seq<u8>),
    AeadDecryptDetached(Seq<u8>, Seq<u8>),
    Ratchet,
}

/// What a call answers.
pub enum Answer {
    Nothing,
    Bytes(Seq<u8>),
    BytesResult(Result<Seq<u8>, Error>),
    PairResult(Result<(Seq<u8>, Seq<u8>), Error>),
    UnitResult(Result<(), Error>),
}

/// The state after one call, and its answer, as the methods of `Xoodyak`
/// state them.
pub open spec fn step(s: XoodyakState, c: Call) -> (XoodyakState, Answer) {
    match c {
        Call::Absorb(bin) => (absorbed(s, bin), Answer::Nothing),
        Call::Squeeze(len) => (squeezed(s, len).0, Answer::Bytes(squeezed(s, len).1)),
        Call::SqueezeKey(len) => (key_squeezed(s, len).0, Answer::Bytes(key_squeezed(s, len).1)),
        Call::Encrypt(bin) => (encrypted(s, bin).0, Answer::BytesResult(encrypted(s, bin).1)),
        Call::Decrypt(bin) => (decrypted(s, bin).0, Answer::BytesResult(decrypted(s, bin).1)),
        Call::AeadEncrypt(bin) => (
            aead_encrypted(s, bin).0,
            Answer::BytesResult(aead_encrypted(s, bin).1),
        ),
        Call::AeadDecrypt(bin) => (
            aead_decrypted(s, bin).0,
            Answer::BytesResult(aead_decrypted(s, bin).1),
        ),
        Call::AeadEncryptDetached(bin) => (
            aead_encrypted_detached(s, bin).0,
            Answer::PairResult(aead_encrypted_detached(s, bin).1),
        ),
        Call::AeadDecryptDetached(bin, tag) => (
            aead_decrypted_detached(s, bin, tag).0,
            Answer::BytesResult(aead_decrypted_detached(s, bin, tag).1),
        ),
        Call::Ratchet => (ratcheted(s).0, Answer::UnitResult(ratcheted(s).1)),
    }
}

/// The state after a sequence of calls, and their answers in order.
pub open spec fn run(s: XoodyakState, calls: Seq<Call>) -> (XoodyakState, Seq<Answer>)
    decreases calls.len(),
{
    if calls.len() == 0 {
        (s, Seq::empty())
    } else {
        let (s1, a) = step(s, calls[0]);
        let (s2, rest) = run(s1, calls.drop_first());
        (s2, seq![a] + rest)
    }
}

/// Sessions whose states are equal, such as a session and its copy, or two
/// sessions keyed with the same arguments (`initialized` does not depend on
/// the state before), answer any sequence of calls alike and end in equal
/// states.
pub proof fn lemma_copies_answer_alike(s1: XoodyakState, s2: XoodyakState, calls: Seq<Call>)
    requires
        s1 == s2,
    ensures
        run(s1, calls) == run(s2, calls),
{
}

/// Authenticated encryption with the tag attached gives the ciphertext that
/// the detached form gives, followed by its tag, and leaves the same state.
pub proof fn lemma_combined_is_detached(s: XoodyakState, m: Seq<u8>)
    ensures
        aead_encrypted(s, m).0 == aead_encrypted_detached(s, m).0,
        aead_encrypted(s, m).1 is Ok <==> aead_encrypted_detached(s, m).1 is Ok,
        aead_encrypted_detached(s, m).1 matches Ok(p) ==> aead_encrypted(s, m).1 == Ok::<
            Seq<u8>,
            Error,
        >(p.0 + p.1),
{
}

impl Default for XoodyakState {
    /// A fresh hash-mode state.
    fn default() -> (s: XoodyakState)
        ensures
            s is Unkeyed,
    {
        XoodyakState::Unkeyed(hash_new())
    }
}

impl Default for Xoodyak {
    /// An unkeyed session with a fresh hash-mode state.
    fn default() -> (x: Xoodyak)
        ensures
            x@ is Unkeyed,
    {
        Xoodyak { state: XoodyakState::default() }
    }
}

impl Xoodyak {
    /// An unkeyed session with a fresh hash-mode state.
    pub fn new() -> (x: Xoodyak)
        ensures
            x@ is Unkeyed,
    {
        Xoodyak { state: XoodyakState::Unkeyed(hash_new()) }
    }

    /// A session whose state equals this one's; the two go on independently.
    pub fn duplicate(&self) -> (x: Xoodyak)
        ensures
            x@ == self@,
    {
        let state = match &self.state {
            XoodyakState::Unkeyed(h) => XoodyakState::Unkeyed(hash_duplicate(h)),
            XoodyakState::Keyed(k) => XoodyakState::Keyed(keyed_duplicate(k)),
        };
        Xoodyak { state }
    }

    /// (Re)initialises the session: keyed when a key is given, with the
    /// optional nonce, key id and counter; unkeyed otherwise, where none of
    /// those may be given. A key too long to fit beside the nonce and key id
    /// is replaced by the key derived from it; see `initialized`.
    pub fn initialize(
        &mut self,
        key: Option<&[u8]>,
        nonce: Option<&[u8]>,
        key_id: Option<&[u8]>,
        counter: Option<&[u8]>,
    ) -> (r: Result<(), Error>)
        requires
            key matches Some(k) ==> k@.len() + 1 + opt_len(key_id) + opt_len(nonce) <= usize::MAX,
            key is Some ==> DERIVED_KEY_LEN + 1 + opt_len(key_id) + opt_len(nonce) <= usize::MAX,
        ensures
            r is Ok <==> initialized(
                opt_bytes(key),
                opt_bytes(nonce),
                opt_bytes(key_id),
                opt_bytes(counter),
            ) is Ok,
            r matches Err(e) ==> initialized(
                opt_bytes(key),
                opt_bytes(nonce),
                opt_bytes(key_id),
                opt_bytes(counter),
            ) == Err::<Option<XoodyakState>, Error>(e),
            r is Err ==> final(self)@ == old(self)@,
            initialized(
                opt_bytes(key),
                opt_bytes(nonce),
                opt_bytes(key_id),
                opt_bytes(counter),
            ) matches Ok(Some(st)) ==> final(self)@ == st,
            initialized(
                opt_bytes(key),
                opt_bytes(nonce),
                opt_bytes(key_id),
                opt_bytes(counter),
            ) is Ok && key is None ==> (final(self)@ is Unkeyed),
            key matches Some(k) ==> k@.len() + 1 + opt_len(key_id) + opt_len(nonce) <= 44 ==> (r is Ok
                && final(self)@ == XoodyakState::Keyed(
                keyed_started(k@, opt_bytes(nonce), opt_bytes(key_id), opt_bytes(counter)),
            )),
            key matches Some(k) ==> k@.len() + 1 + opt_len(key_id) + opt_len(nonce) > 44 && 16 + 1
                + opt_len(key_id) + opt_len(nonce) <= 44 ==> (r is Ok && final(self)@
                == XoodyakState::Keyed(
                keyed_started(
                    keyed_key_squeezed(
                        keyed_absorbed(keyed_started(Seq::empty(), None, None, None), k@),
                        16,
                    ).1,
                    opt_bytes(nonce),
                    opt_bytes(key_id),
                    opt_bytes(counter),
                ),
            )),
    {
        match key {
            Some(k) => {
                match keyed_new(k, nonce, key_id, counter) {
                    Ok(keyed) => {
                        self.state = XoodyakState::Keyed(keyed);
                        Ok(())
                    },
                    Err(_) => {
                        let derived = derive_key(k);
                        match keyed_new(derived.as_slice(), nonce, key_id, counter) {
                            Ok(keyed) => {
                                self.state = XoodyakState::Keyed(keyed);
                                Ok(())
                            },
                            Err(e) => Err(map_xoodyak_err(e)),
                        }
                    },
                }
            },
            None => {
                if nonce.is_some() || key_id.is_some() || counter.is_some() {
                    return Err(Error::KeyedArgumentsWithoutKey);
                }
                self.state = XoodyakState::Unkeyed(hash_new());
                Ok(())
            },
        }
    }

    /// Makes this session's state a copy of `other`'s.
    pub fn initialize_copy(&mut self, other: &Xoodyak) -> (r: Result<(), Error>)
        ensures
            r is Ok,
            final(self)@ == other@,
    {
        let copy = other.duplicate();
        self.state = copy.state;
        Ok(())
    }

    /// Absorbs `bin` into the state.
    pub fn absorb(&mut self, bin: &[u8])
        ensures
            final(self)@ == absorbed(old(self)@, bin@),
            old(self)@ matches XoodyakState::Unkeyed(h) ==> final(self)@ == XoodyakState::Unkeyed(
                hash_absorbed(h, bin@),
            ),
            old(self)@ matches XoodyakState::Keyed(k) ==> final(self)@ == XoodyakState::Keyed(
                keyed_absorbed(k, bin@),
            ),
    {
        match &mut self.state {
            XoodyakState::Unkeyed(h) => hash_absorb(h, bin),
            XoodyakState::Keyed(k) => keyed_absorb(k, bin),
        }
    }
    /// Squeezes `len` bytes out of the state.
    pub fn squeeze(&mut self, len: usize) -> (out: Vec<u8>)
        ensures
            (final(self)@, out@) == squeezed(old(self)@, len as nat),
            out@.len() == len,
            old(self)@ matches XoodyakState::Unkeyed(h) ==> (final(self)@ == XoodyakState::Unkeyed(
                hash_squeezed(h, len as nat).0,
            ) && out@ == hash_squeezed(h, len as nat).1),
            old(self)@ matches XoodyakState::Keyed(k) ==> (final(self)@ == XoodyakState::Keyed(
                keyed_squeezed(k, len as nat).0,
            ) && out@ == keyed_squeezed(k, len as nat).1),
    {
        match &mut self.state {
            XoodyakState::Unkeyed(h) => hash_squeeze(h, len),
            XoodyakState::Keyed(k) => keyed_squeeze(k, len),
        }
    }

    /// Squeezes `len` key bytes out of the state.
    pub fn squeeze_key(&mut self, len: usize) -> (out: Vec<u8>)
        ensures
            (final(self)@, out@) == key_squeezed(old(self)@, len as nat),
            out@.len() == len,
            old(self)@ matches XoodyakState::Unkeyed(h) ==> (final(self)@ == XoodyakState::Unkeyed(
                hash_key_squeezed(h, len as nat).0,
            ) && out@ == hash_key_squeezed(h, len as nat).1),
            old(self)@ matches XoodyakState::Keyed(k) ==> (final(self)@ == XoodyakState::Keyed(
                keyed_key_squeezed(k, len as nat).0,
            ) && out@ == keyed_key_squeezed(k, len as nat).1),
    {
        match &mut self.state {
            XoodyakState::Unkeyed(h) => hash_squeeze_key(h, len),
            XoodyakState::Keyed(k) => keyed_squeeze_key(k, len),
        }
    }

    /// Encrypts `bin` into a ciphertext of the same length.
    pub fn encrypt(&mut self, bin: &[u8]) -> (r: Result<Vec<u8>, Error>)
        ensures
            (final(self)@, bytes_result(r)) == encrypted(old(self)@, bin@),
            old(self)@ matches XoodyakState::Keyed(k) ==> (final(self)@ == XoodyakState::Keyed(
                keyed_encrypted(k, bin@).0,
            ) && bytes_result(r) == Ok::<Seq<u8>, Error>(keyed_encrypted(k, bin@).1)),
            old(self)@ is Unkeyed ==> (final(self)@ == old(self)@ && r is Err),
            r matches Ok(c) ==> c@.len() == bin@.len(),
    {
        match &mut self.state {
            XoodyakState::Unkeyed(_) => Err(Error::KeyedModeOnly(Operation::Encrypt)),
            XoodyakState::Keyed(k) => match keyed_encrypt(k, bin) {
                Ok(out) => Ok(out),
                Err(e) => Err(map_xoodyak_err(e)),
            },
        }
    }

    /// Decrypts `bin` into a plaintext of the same length. A ciphertext that
    /// `encrypt` made from a state equal to this one's decrypts to its
    /// plaintext, and leaves this session in the state the encrypting one
    /// reached.
    pub fn decrypt(&mut self, bin: &[u8]) -> (r: Result<Vec<u8>, Error>)
        ensures
            (final(self)@, bytes_result(r)) == decrypted(old(self)@, bin@),
            old(self)@ matches XoodyakState::Keyed(k) ==> (final(self)@ == XoodyakState::Keyed(
                keyed_decrypted(k, bin@).0,
            ) && bytes_result(r) == Ok::<Seq<u8>, Error>(keyed_decrypted(k, bin@).1)),
            old(self)@ is Unkeyed ==> (final(self)@ == old(self)@ && r is Err),
            r matches Ok(p) ==> p@.len() == bin@.len(),
            forall|m: Seq<u8>|
                #![trigger encrypted(old(self)@, m)]
                encrypted(old(self)@, m).1 == Ok::<Seq<u8>, Error>(bin@) ==> (final(self)@
                    == encrypted(old(self)@, m).0 && bytes_result(r) == Ok::<Seq<u8>, Error>(m)),
    {
        match &mut self.state {
            XoodyakState::Unkeyed(_) => Err(Error::KeyedModeOnly(Operation::Decrypt)),
            XoodyakState::Keyed(k) => match keyed_decrypt(k, bin) {
                Ok(out) => Ok(out),
                Err(e) => Err(map_xoodyak_err(e)),
            },
        }
    }

    /// Encrypts `bin` and appends a 16-byte authentication tag.
    pub fn aead_encrypt(&mut self, bin: &[u8]) -> (r: Result<Vec<u8>, Error>)
        requires
            bin@.len() + 16 <= usize::MAX,
        ensures
            (final(self)@, bytes_result(r)) == aead_encrypted(old(self)@, bin@),
            old(self)@ matches XoodyakState::Keyed(k) ==> (final(self)@ == XoodyakState::Keyed(
                keyed_squeezed(keyed_encrypted(k, bin@).0, 16).0,
            ) && bytes_result(r) == Ok::<Seq<u8>, Error>(
                keyed_encrypted(k, bin@).1 + keyed_squeezed(keyed_encrypted(k, bin@).0, 16).1,
            )),
            old(self)@ is Unkeyed ==> (final(self)@ == old(self)@ && r is Err),
            r matches Ok(c) ==> c@.len() == bin@.len() + 16,
    {
        match &mut self.state {
            XoodyakState::Unkeyed(_) => Err(Error::KeyedModeOnly(Operation::AeadEncrypt)),
            XoodyakState::Keyed(k) => match keyed_aead_encrypt(k, bin) {
                Ok(out) => Ok(out),
                Err(e) => Err(map_xoodyak_err(e)),
            },
        }
    }

    /// Verifies the tag at the end of `bin` and decrypts the ciphertext
    /// before it. What `aead_encrypt` sealed from a state equal to this
    /// one's (at least a tag long, as all it seals are) opens to its
    /// plaintext, and leaves this session in the state the sealing one
    /// reached.
    pub fn aead_decrypt(&mut self, bin: &[u8]) -> (r: Result<Vec<u8>, Error>)
        ensures
            (final(self)@, bytes_result(r)) == aead_decrypted(old(self)@, bin@),
            old(self)@ matches XoodyakState::Keyed(k) ==> bin@.len() >= 16 ==> (final(self)@
                == XoodyakState::Keyed(
                keyed_squeezed(keyed_decrypted(k, bin@.take(bin@.len() - 16)).0, 16).0,
            ) && (r is Ok <==> keyed_squeezed(
                keyed_decrypted(k, bin@.take(bin@.len() - 16)).0,
                16,
            ).1 == bin@.skip(bin@.len() - 16)) && (r matches Ok(p) ==> p@ == keyed_decrypted(
                k,
                bin@.take(bin@.len() - 16),
            ).1)),
            old(self)@ matches XoodyakState::Keyed(k) ==> bin@.len() < 16 ==> (final(self)@ == old(
                self,
            )@ && r == Err::<Vec<u8>, Error>(Error::CiphertextTooShort)),
            r matches Ok(p) ==> p@.len() + 16 == bin@.len(),
            forall|m: Seq<u8>|
                #![trigger aead_encrypted(old(self)@, m)]
                bin@.len() >= 16 && aead_encrypted(old(self)@, m).1 == Ok::<Seq<u8>, Error>(bin@)
                    ==> (final(self)@
                    == aead_encrypted(old(self)@, m).0 && bytes_result(r) == Ok::<Seq<u8>, Error>(
                    m,
                )),
    {
        match &mut self.state {
            XoodyakState::Unkeyed(_) => Err(Error::KeyedModeOnly(Operation::AeadDecrypt)),
            XoodyakState::Keyed(k) => {
                if bin.len() < auth_tag_bytes() {
                    return Err(Error::CiphertextTooShort);
                }
                match keyed_aead_decrypt(k, bin) {
                    Ok(out) => Ok(out),
                    Err(e) => Err(map_xoodyak_err(e)),
                }
            },
        }
    }

    /// Encrypts `bin` and returns the ciphertext and the 16-byte
    /// authentication tag apart.
    pub fn aead_encrypt_detached(&mut self, bin: &[u8]) -> (r: Result<(Vec<u8>, Vec<u8>), Error>)
        ensures
            (final(self)@, pair_result(r)) == aead_encrypted_detached(old(self)@, bin@),
            old(self)@ matches XoodyakState::Keyed(k) ==> (final(self)@ == XoodyakState::Keyed(
                keyed_squeezed(keyed_encrypted(k, bin@).0, 16).0,
            ) && pair_result(r) == Ok::<(Seq<u8>, Seq<u8>), Error>(
                (keyed_encrypted(k, bin@).1, keyed_squeezed(keyed_encrypted(k, bin@).0, 16).1),
            )),
            old(self)@ is Unkeyed ==> (final(self)@ == old(self)@ && r is Err),
            r matches Ok(p) ==> p.0@.len() == bin@.len() && p.1@.len() == 16,
    {
        match &mut self.state {
            XoodyakState::Unkeyed(_) => Err(Error::KeyedModeOnly(Operation::AeadEncryptDetached)),
            XoodyakState::Keyed(k) => match keyed_aead_encrypt_detached(k, bin) {
                Ok((ct, tag)) => {
                    let tag_vec = tag_to_vec(&tag);
                    Ok((ct, tag_vec))
                },
                Err(e) => Err(map_xoodyak_err(e)),
            },
        }
    }

    /// Verifies the separate tag `tag`, which must be 16 bytes long, and
    /// decrypts `bin`. What `aead_encrypt_detached` sealed from a state
    /// equal to this one's (with a 16-byte tag, as all it seals have) opens
    /// to its plaintext, and leaves this session in the state the sealing
    /// one reached.
    pub fn aead_decrypt_detached(&mut self, bin: &[u8], tag: &[u8]) -> (r: Result<Vec<u8>, Error>)
        ensures
            (final(self)@, bytes_result(r)) == aead_decrypted_detached(old(self)@, bin@, tag@),
            old(self)@ matches XoodyakState::Keyed(k) ==> tag@.len() == 16 ==> (final(self)@
                == XoodyakState::Keyed(keyed_squeezed(keyed_decrypted(k, bin@).0, 16).0) && (r is Ok
                <==> keyed_squeezed(keyed_decrypted(k, bin@).0, 16).1 == tag@) && (r matches Ok(p)
                ==> p@ == keyed_decrypted(k, bin@).1)),
            old(self)@ matches XoodyakState::Keyed(k) ==> tag@.len() != 16 ==> (final(self)@ == old(
                self,
            )@ && r == Err::<Vec<u8>, Error>(Error::InvalidTagLength)),
            r matches Ok(p) ==> p@.len() == bin@.len(),
            forall|m: Seq<u8>|
                #![trigger aead_encrypted_detached(old(self)@, m)]
                tag@.len() == 16 && aead_encrypted_detached(old(self)@, m).1 == Ok::<(Seq<u8>, Seq<u8>), Error>(
                    (bin@, tag@),
                ) ==> (final(self)@ == aead_encrypted_detached(old(self)@, m).0 && bytes_result(r)
                    == Ok::<Seq<u8>, Error>(m)),
    {
        match &mut self.state {
            XoodyakState::Unkeyed(_) => Err(Error::KeyedModeOnly(Operation::AeadDecryptDetached)),
            XoodyakState::Keyed(k) => {
                if tag.len() != auth_tag_bytes() {
                    return Err(Error::InvalidTagLength);
                }
                let t = tag_array(tag);
                match keyed_aead_decrypt_detached(k, bin, t) {
                    Ok(out) => Ok(out),
                    Err(e) => Err(map_xoodyak_err(e)),
                }
            },
        }
    }

    /// Ratchets the state, so that earlier states cannot be recovered from
    /// later ones.
    pub fn ratchet(&mut self) -> (r: Result<(), Error>)
        ensures
            (final(self)@, r) == ratcheted(old(self)@),
            old(self)@ matches XoodyakState::Keyed(k) ==> (final(self)@ == XoodyakState::Keyed(
                keyed_ratcheted(k),
            ) && r is Ok),
            old(self)@ is Unkeyed ==> (final(self)@ == old(self)@ && r is Err),
    {
        match &mut self.state {
            XoodyakState::Unkeyed(_) => Err(Error::KeyedModeOnly(Operation::Ratchet)),
            XoodyakState::Keyed(k) => {
                keyed_ratchet(k);
                Ok(())
            },
        }
    }
}

/// The 16 bytes of a tag as a vector.
fn tag_to_vec(tag: &[u8; 16]) -> (v: Vec<u8>)
    ensures
        v@ == tag@,
{
    let mut v: Vec<u8> = Vec::new();
    let mut i: usize = 0;
    while i < 16
        invariant
            i <= 16,
            v@ == tag@.take(i as int),
        decreases 16 - i,
    {
        v.push(tag[i]);
        i += 1;
        assert(v@ =~= tag@.take(i as int));
    }
    assert(tag@.take(16) =~= tag@);
    v
}

/// A tag of 16 bytes as an array.
fn tag_array(tag: &[u8]) -> (t: [u8; 16])
    requires
        tag@.len() == 16,
    ensures
        t@ == tag@,
{
    let mut t = [0u8; 16];
    let mut i: usize = 0;
    while i < 16
        invariant
            i <= 16,
            tag@.len() == 16,
            t@.len() == 16,
            t@.take(i as int) == tag@.take(i as int),
        decreases 16 - i,
    {
        t[i] = tag[i];
        i += 1;
        assert(t@.take(i as int) =~= tag@.take(i as int));
    }
    assert(t@.take(16) =~= t@);
    assert(tag@.take(16) =~= tag@);
    t
}

} // verus!
