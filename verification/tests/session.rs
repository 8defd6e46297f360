use xoodyak::{XoodyakCommon, XoodyakHash, XoodyakKeyed};
use xoodyak_ext::{
    derive_key, map_xoodyak_err, Error, ErrorClass, Operation, SpongeError, Xoodyak,
    DERIVED_KEY_LEN,
};

const KEY: &[u8] = b"my-secure-key-16";
const NONCE: &[u8] = b"0123456789abcdef";

fn keyed(key: &[u8], nonce: Option<&[u8]>) -> Xoodyak {
    let mut x = Xoodyak::new();
    x.initialize(Some(key), nonce, None, None).unwrap();
    x
}

#[test]
fn unkeyed_squeeze_matches_hash_mode() {
    let mut x = Xoodyak::new();
    x.absorb(b"Hello, world!");
    let out = x.squeeze(32);
    let mut h = XoodyakHash::new();
    h.absorb(b"Hello, world!");
    let mut expected = vec![0u8; 32];
    h.squeeze(&mut expected);
    assert_eq!(out, expected);
    assert_eq!(out.len(), 32);
}

#[test]
fn squeeze_any_length() {
    let mut x = Xoodyak::new();
    assert_eq!(x.squeeze(0).len(), 0);
    assert_eq!(x.squeeze(7).len(), 7);
    assert_eq!(x.squeeze_key(50).len(), 50);
}

#[test]
fn keyed_squeeze_key_differs_from_squeeze() {
    let mut a = keyed(KEY, None);
    let mut b = keyed(KEY, None);
    a.absorb(b"data");
    b.absorb(b"data");
    assert_ne!(a.squeeze(16), b.squeeze_key(16));
}

#[test]
fn keyed_squeeze_matches_keyed_mode() {
    let mut x = keyed(KEY, Some(NONCE));
    x.absorb(b"context");
    let out = x.squeeze(24);
    let mut k = XoodyakKeyed::new(KEY, Some(NONCE), None, None).unwrap();
    k.absorb(b"context");
    let mut expected = vec![0u8; 24];
    k.squeeze(&mut expected);
    assert_eq!(out, expected);
}

#[test]
fn encrypt_decrypt_roundtrip() {
    let mut alice = keyed(KEY, None);
    let mut bob = keyed(KEY, None);
    let ct = alice.encrypt(b"super secret message").unwrap();
    assert_eq!(ct.len(), 20);
    assert_ne!(&ct[..], &b"super secret message"[..]);
    assert_eq!(bob.decrypt(&ct).unwrap(), b"super secret message".to_vec());
}

#[test]
fn stateful_session_stays_in_sync() {
    let mut alice = keyed(KEY, Some(NONCE));
    let mut bob = keyed(KEY, Some(NONCE));
    let ct1 = alice.encrypt(b"Message 1").unwrap();
    assert_eq!(bob.decrypt(&ct1).unwrap(), b"Message 1".to_vec());
    let ct2 = alice.encrypt(b"Message 2").unwrap();
    assert_eq!(bob.decrypt(&ct2).unwrap(), b"Message 2".to_vec());
    assert_ne!(ct1, ct2);
}

#[test]
fn aead_roundtrip_with_associated_data() {
    let mut alice = keyed(KEY, Some(NONCE));
    alice.absorb(b"Associated Data (unencrypted header)");
    let sealed = alice.aead_encrypt(b"confidential message").unwrap();
    assert_eq!(sealed.len(), 20 + 16);
    let mut bob = keyed(KEY, Some(NONCE));
    bob.absorb(b"Associated Data (unencrypted header)");
    assert_eq!(bob.aead_decrypt(&sealed).unwrap(), b"confidential message".to_vec());
}

#[test]
fn aead_tampered_ciphertext_is_refused() {
    let mut alice = keyed(KEY, Some(NONCE));
    let mut sealed = alice.aead_encrypt(b"confidential message").unwrap();
    sealed[0] ^= 1;
    let mut bob = keyed(KEY, Some(NONCE));
    let err = bob.aead_decrypt(&sealed).unwrap_err();
    assert_eq!(err, Error::TagMismatch);
    assert_eq!(err.class(), ErrorClass::VerificationError);
    assert_eq!(err.message(), "tag mismatch");
}

#[test]
fn aead_different_associated_data_is_refused() {
    let mut alice = keyed(KEY, Some(NONCE));
    alice.absorb(b"header A");
    let sealed = alice.aead_encrypt(b"msg").unwrap();
    let mut bob = keyed(KEY, Some(NONCE));
    bob.absorb(b"header B");
    assert_eq!(bob.aead_decrypt(&sealed), Err(Error::TagMismatch));
}

#[test]
fn aead_short_input_is_refused() {
    let mut bob = keyed(KEY, None);
    let err = bob.aead_decrypt(&[0u8; 15]).unwrap_err();
    assert_eq!(err, Error::CiphertextTooShort);
    assert_eq!(err.class(), ErrorClass::ArgumentError);
    assert_eq!(err.message(), "ciphertext is too short to contain a tag");
    // the state was kept: a proper exchange still works afterwards
    let mut alice = keyed(KEY, None);
    let sealed = alice.aead_encrypt(b"").unwrap();
    assert_eq!(sealed.len(), 16);
    assert_eq!(bob.aead_decrypt(&sealed).unwrap(), Vec::<u8>::new());
}

#[test]
fn aead_detached_roundtrip() {
    let mut alice = keyed(KEY, Some(NONCE));
    alice.absorb(b"metadata");
    let (ct, tag) = alice.aead_encrypt_detached(b"confidential message").unwrap();
    assert_eq!(ct.len(), 20);
    assert_eq!(tag.len(), 16);
    let mut bob = keyed(KEY, Some(NONCE));
    bob.absorb(b"metadata");
    assert_eq!(bob.aead_decrypt_detached(&ct, &tag).unwrap(), b"confidential message".to_vec());
}

#[test]
fn aead_detached_matches_combined() {
    let mut a = keyed(KEY, Some(NONCE));
    let mut b = keyed(KEY, Some(NONCE));
    let combined = a.aead_encrypt(b"payload").unwrap();
    let (ct, tag) = b.aead_encrypt_detached(b"payload").unwrap();
    let mut joined = ct.clone();
    joined.extend_from_slice(&tag);
    assert_eq!(combined, joined);
}

#[test]
fn aead_detached_bad_tag() {
    let mut alice = keyed(KEY, Some(NONCE));
    let (ct, mut tag) = alice.aead_encrypt_detached(b"msg").unwrap();
    tag[15] ^= 0x80;
    let mut bob = keyed(KEY, Some(NONCE));
    assert_eq!(bob.aead_decrypt_detached(&ct, &tag), Err(Error::TagMismatch));
}

#[test]
fn aead_detached_tag_length_is_checked() {
    let mut bob = keyed(KEY, Some(NONCE));
    let err = bob.aead_decrypt_detached(b"abc", &[0u8; 15]).unwrap_err();
    assert_eq!(err, Error::InvalidTagLength);
    assert_eq!(err.message(), "tag must be 16 bytes");
    assert_eq!(err.class(), ErrorClass::ArgumentError);
}

#[test]
fn keyed_operations_refused_without_key() {
    let mut x = Xoodyak::new();
    assert_eq!(x.encrypt(b"m"), Err(Error::KeyedModeOnly(Operation::Encrypt)));
    assert_eq!(x.decrypt(b"m"), Err(Error::KeyedModeOnly(Operation::Decrypt)));
    assert_eq!(x.aead_encrypt(b"m"), Err(Error::KeyedModeOnly(Operation::AeadEncrypt)));
    assert_eq!(x.aead_decrypt(b"m"), Err(Error::KeyedModeOnly(Operation::AeadDecrypt)));
    assert_eq!(
        x.aead_encrypt_detached(b"m"),
        Err(Error::KeyedModeOnly(Operation::AeadEncryptDetached))
    );
    assert_eq!(
        x.aead_decrypt_detached(b"m", &[0u8; 16]),
        Err(Error::KeyedModeOnly(Operation::AeadDecryptDetached))
    );
    let err = x.ratchet().unwrap_err();
    assert_eq!(err, Error::KeyedModeOnly(Operation::Ratchet));
    assert_eq!(err.class(), ErrorClass::KeyedModeError);
    assert_eq!(err.message(), "ratchet is only supported in keyed mode");
    assert_eq!(
        Error::KeyedModeOnly(Operation::Encrypt).message(),
        "encrypt is only supported in keyed mode"
    );
}

#[test]
fn keyed_arguments_without_key_are_refused() {
    let mut x = Xoodyak::new();
    let err = x.initialize(None, Some(NONCE), None, None).unwrap_err();
    assert_eq!(err, Error::KeyedArgumentsWithoutKey);
    assert_eq!(err.class(), ErrorClass::ArgumentError);
    assert_eq!(
        err.message(),
        "nonce, key_id, and counter can only be used in keyed mode (when key is provided)"
    );
    assert_eq!(x.initialize(None, None, Some(b"id"), None), Err(Error::KeyedArgumentsWithoutKey));
    assert_eq!(x.initialize(None, None, None, Some(b"1")), Err(Error::KeyedArgumentsWithoutKey));
    assert_eq!(x.initialize(None, None, None, None), Ok(()));
}

#[test]
fn keys_of_any_length_are_accepted() {
    for len in [0usize, 1, 16, 43, 44, 45, 64, 100, 1000] {
        let key: Vec<u8> = (0..len).map(|i| i as u8).collect();
        let mut alice = Xoodyak::new();
        let mut bob = Xoodyak::new();
        assert_eq!(alice.initialize(Some(&key), None, None, None), Ok(()), "key length {}", len);
        bob.initialize(Some(&key), None, None, None).unwrap();
        let ct = alice.encrypt(b"super secret message").unwrap();
        assert_eq!(ct.len(), 20);
        assert_eq!(bob.decrypt(&ct).unwrap(), b"super secret message".to_vec());
    }
}

#[test]
fn long_keys_with_a_nonce_are_accepted() {
    let key = [1u8; 28];
    // 28 + 1 + 16 = 45 does not fit: the derived key is used
    let mut x = Xoodyak::new();
    assert_eq!(x.initialize(Some(&key), Some(NONCE), None, None), Ok(()));
    let derived = derive_key(&key);
    let mut y = Xoodyak::new();
    y.initialize(Some(&derived), Some(NONCE), None, None).unwrap();
    assert_eq!(x.squeeze(16), y.squeeze(16));
    // 27 + 1 + 16 = 44 fits: the key is used as it is
    let mut z = Xoodyak::new();
    z.initialize(Some(&key[..27]), Some(NONCE), None, None).unwrap();
    let mut reference = XoodyakKeyed::new(&key[..27], Some(NONCE), None, None).unwrap();
    let mut expected = vec![0u8; 16];
    reference.squeeze(&mut expected);
    assert_eq!(z.squeeze(16), expected);
}

#[test]
fn derived_key_is_squeezed_from_an_empty_keyed_state() {
    let key = [9u8; 50];
    let mut k = XoodyakKeyed::new(&[], None, None, None).unwrap();
    k.absorb(&key);
    let mut expected = vec![0u8; DERIVED_KEY_LEN];
    k.squeeze_key(&mut expected);
    let derived = derive_key(&key);
    assert_eq!(derived, expected);
    assert_eq!(derived.len(), 16);
    assert_ne!(derive_key(&[9u8; 51]), derived);
}

#[test]
fn long_key_id_and_nonce_are_refused() {
    let mut x = Xoodyak::new();
    // the key does not fit, and 16 + 1 + 12 + 16 = 45 leaves no room for the derived key
    let err = x.initialize(Some(&[1u8; 30]), Some(NONCE), Some(&[2u8; 12]), None).unwrap_err();
    assert_eq!(err, Error::InvalidParameterLength);
    assert_eq!(err.message(), "invalid parameter length");
    assert_eq!(err.class(), ErrorClass::ArgumentError);
    // a short key that fits is still used: 2 + 1 + 12 + 16 = 31
    assert_eq!(x.initialize(Some(&[1u8; 2]), Some(NONCE), Some(&[2u8; 12]), None), Ok(()));
    // a nonce with no room even for a short key
    assert_eq!(x.initialize(Some(&[1u8; 2]), Some(&[0u8; 42]), None, None), Err(Error::InvalidParameterLength));
}

#[test]
fn failed_initialize_keeps_state() {
    let mut x = keyed(KEY, Some(NONCE));
    let mut y = keyed(KEY, Some(NONCE));
    assert!(x.initialize(Some(&[0u8; 4]), Some(&[0u8; 40]), None, None).is_err());
    assert_eq!(x.encrypt(b"same").unwrap(), y.encrypt(b"same").unwrap());
}

#[test]
fn key_id_and_counter_change_the_state() {
    let mut plain = keyed(KEY, Some(NONCE));
    let mut with_id = Xoodyak::new();
    with_id.initialize(Some(KEY), Some(NONCE), Some(b"kid"), Some(b"7")).unwrap();
    assert_ne!(plain.squeeze(16), with_id.squeeze(16));
    let mut reference = XoodyakKeyed::new(KEY, Some(NONCE), Some(b"kid"), Some(b"7")).unwrap();
    let mut again = Xoodyak::new();
    again.initialize(Some(KEY), Some(NONCE), Some(b"kid"), Some(b"7")).unwrap();
    let mut expected = vec![0u8; 16];
    reference.squeeze(&mut expected);
    assert_eq!(again.squeeze(16), expected);
}

#[test]
fn ratchet_changes_the_keyed_state() {
    let mut a = keyed(KEY, None);
    let mut b = keyed(KEY, None);
    a.absorb(b"some context");
    b.absorb(b"some context");
    assert_eq!(a.ratchet(), Ok(()));
    assert_ne!(a.squeeze(32), b.squeeze(32));
    let mut c = keyed(KEY, None);
    let mut d = keyed(KEY, None);
    c.ratchet().unwrap();
    d.ratchet().unwrap();
    assert_eq!(c.squeeze(32), d.squeeze(32));
}

#[test]
fn copies_agree_then_diverge() {
    let mut x = Xoodyak::new();
    x.absorb(b"initial setup data");
    let mut checkpoint = Xoodyak::new();
    checkpoint.initialize_copy(&x).unwrap();
    let mut y = x.duplicate();
    assert_eq!(x.squeeze(16), checkpoint.squeeze(16));
    y.absorb(b"branch A");
    checkpoint.absorb(b"branch B");
    assert_ne!(y.squeeze(16), checkpoint.squeeze(16));
}

#[test]
fn copies_of_keyed_sessions_decrypt_alike() {
    let mut alice = keyed(KEY, Some(NONCE));
    let bob = keyed(KEY, Some(NONCE));
    let mut bob2 = bob.duplicate();
    let ct = alice.encrypt(b"hello").unwrap();
    assert_eq!(bob2.decrypt(&ct).unwrap(), b"hello".to_vec());
}

#[test]
fn reinitialize_to_unkeyed() {
    let mut x = keyed(KEY, None);
    x.initialize(None, None, None, None).unwrap();
    assert_eq!(x.encrypt(b"m"), Err(Error::KeyedModeOnly(Operation::Encrypt)));
    let mut fresh = Xoodyak::default();
    assert_eq!(x.squeeze(8), fresh.squeeze(8));
}

#[test]
fn outside_errors_map_one_for_one() {
    assert_eq!(map_xoodyak_err(SpongeError::InvalidBufferLength), Error::InvalidBufferLength);
    assert_eq!(map_xoodyak_err(SpongeError::InvalidParameterLength), Error::InvalidParameterLength);
    assert_eq!(map_xoodyak_err(SpongeError::KeyRequired), Error::KeyRequired);
    assert_eq!(map_xoodyak_err(SpongeError::TagMismatch), Error::TagMismatch);
    assert_eq!(Error::InvalidBufferLength.message(), "invalid buffer length");
    assert_eq!(Error::KeyRequired.message(), "key required");
    assert_eq!(Error::KeyRequired.class(), ErrorClass::ArgumentError);
    assert_eq!(Error::InvalidBufferLength.class(), ErrorClass::ArgumentError);
}

#[test]
fn decrypt_with_wrong_key_gives_other_plaintext() {
    let mut alice = keyed(KEY, None);
    let mut eve = keyed(b"another-key", None);
    let ct = alice.encrypt(b"secret").unwrap();
    assert_ne!(eve.decrypt(&ct).unwrap(), b"secret".to_vec());
}
