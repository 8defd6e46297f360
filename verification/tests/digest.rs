use xoodyak::{XoodyakCommon, XoodyakHash};
use xoodyak_ext::{DigestContext, DIGEST_BLOCK_LEN, DIGEST_LEN};

fn digest_of_parts(parts: &[&[u8]]) -> Vec<u8> {
    let mut ctx = DigestContext::new();
    for part in parts {
        ctx.update(part);
    }
    ctx.finish()
}

fn reference_digest(data: &[u8]) -> Vec<u8> {
    let mut h = XoodyakHash::new();
    if !data.is_empty() {
        h.absorb(data);
    }
    let mut out = vec![0u8; 32];
    h.squeeze(&mut out);
    out
}

#[test]
fn digest_has_fixed_length() {
    assert_eq!(DIGEST_LEN, 32);
    assert_eq!(DIGEST_BLOCK_LEN, 16);
    assert_eq!(digest_of_parts(&[b"Hello, world!"]).len(), 32);
    assert_eq!(digest_of_parts(&[]).len(), 32);
}

#[test]
fn digest_split_updates_match_single_update() {
    let whole = digest_of_parts(&[b"Hello, world!"]);
    let split = digest_of_parts(&[b"Hello, ", b"world!"]);
    assert_eq!(whole, split);
}

#[test]
fn digest_independent_of_cuts_across_block_boundaries() {
    let data: Vec<u8> = (0u8..=99).collect();
    let whole = digest_of_parts(&[&data]);
    let bytewise: Vec<&[u8]> = data.chunks(1).collect();
    assert_eq!(digest_of_parts(&bytewise), whole);
    let odd: Vec<&[u8]> = data.chunks(7).collect();
    assert_eq!(digest_of_parts(&odd), whole);
    let blocks: Vec<&[u8]> = data.chunks(16).collect();
    assert_eq!(digest_of_parts(&blocks), whole);
    assert_eq!(digest_of_parts(&[&data[..16], &[], &data[16..]]), whole);
}

#[test]
fn digest_matches_one_absorb_of_whole_input() {
    for len in [0usize, 1, 15, 16, 17, 31, 32, 33, 48, 100] {
        let data: Vec<u8> = (0..len).map(|i| (i * 31 + 7) as u8).collect();
        assert_eq!(digest_of_parts(&[&data]), reference_digest(&data), "length {}", len);
    }
}

#[test]
fn digest_differs_for_different_inputs() {
    assert_ne!(digest_of_parts(&[b"abc"]), digest_of_parts(&[b"abd"]));
    assert_ne!(digest_of_parts(&[b""]), digest_of_parts(&[b"\0"]));
}

#[test]
fn digest_empty_update_changes_nothing() {
    let a = digest_of_parts(&[b"xyz", b""]);
    let b = digest_of_parts(&[b"", b"xyz"]);
    assert_eq!(a, b);
    assert_eq!(a, digest_of_parts(&[b"xyz"]));
}
