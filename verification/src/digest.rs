//! A digest context that feeds a byte stream to a hash-mode Xoodyak state in
//! blocks of `DIGEST_BLOCK_LEN` bytes, however the stream is cut into
//! updates, and squeezes a `DIGEST_LEN`-byte digest at the end.

use vstd::prelude::*;
use vstd::slice::slice_subrange;
use xoodyak::XoodyakHash;
use crate::sponge::{
    hash_absorb, hash_absorb_more, hash_absorbed, hash_absorbed_more, hash_new, hash_squeeze,
    hash_squeezed,
};

verus! {

/// Size of the blocks in which the context feeds its input to the hash.
pub const DIGEST_BLOCK_LEN: usize = 16;

/// Length of a digest, in bytes.
pub const DIGEST_LEN: usize = 32;

/// The input that does not yet fill a block: the first `len` bytes of
/// `buffer`, always fewer than a block.
struct PendingBytes {
    buffer: [u8; 16],
    len: usize,
}

impl PendingBytes {
    /// Fewer pending bytes than a block.
    #[verifier::type_invariant]
    spec fn inv(&self) -> bool {
        self.len < 16
    }
}

/// A hash-mode state, the input that does not yet fill a block, and
/// whether a block was absorbed yet.
pub struct DigestContext {
    hash: XoodyakHash,
    pending: PendingBytes,
    first_block_absorbed: bool,
}

/// What a digest context holds: the hash state, the bytes waiting for a
/// full block, and whether a block has reached the hash.
#[verifier::ext_equal]
pub struct DigestView {
    pub hash: XoodyakHash,
    pub pending: Seq<u8>,
    pub started: bool,
}

impl View for DigestContext {
    type V = DigestView;

    closed spec fn view(&self) -> DigestView {
        DigestView {
            hash: self.hash,
            pending: self.pending.buffer@.take(self.pending.len as int),
            started: self.first_block_absorbed,
        }
    }
}

impl DigestContext {
    /// A context with a fresh hash-mode state and nothing pending.
    pub fn new() -> (ctx: DigestContext)
        ensures
            ctx@.pending == Seq::<u8>::empty(),
            !ctx@.started,
    {
        let ctx = DigestContext {
            hash: hash_new(),
            pending: PendingBytes { buffer: [0u8; 16], len: 0 },
            first_block_absorbed: false,
        };
        assert(ctx@.pending =~= Seq::<u8>::empty());
        ctx
    }

    /// Copies `n` bytes of `data` from `pos` into the buffer after the
    /// pending bytes, which must leave room for them.
    fn fill_buffer(&mut self, data: &[u8], pos: usize, n: usize)
        requires
            old(self).pending.len + n <= 16,
            pos + n <= data@.len(),
        ensures
            final(self).hash == old(self).hash,
            final(self).pending.len == old(self).pending.len,
            final(self).first_block_absorbed == old(self).first_block_absorbed,
            final(self).pending.buffer@.take(old(self).pending.len + n) == old(self)@.pending + data@.subrange(
                pos as int,
                pos + n,
            ),
    {
        let ghost pending = self@.pending;
        let mut i: usize = 0;
        assert(self.pending.buffer@.take(self.pending.len + 0) =~= pending + data@.subrange(pos as int, pos + 0));
        while i < n
            invariant
                self.pending.len + n <= 16,
                pos + n <= data@.len(),
                pos + n <= data.len(),
                i <= n,
                self.hash == old(self).hash,
                self.pending.len == old(self).pending.len,
                self.first_block_absorbed == old(self).first_block_absorbed,
                pending == old(self)@.pending,
                pending.len() == self.pending.len,
                self.pending.buffer@.len() == 16,
                self.pending.buffer@.take(self.pending.len + i) == pending + data@.subrange(pos as int, pos + i),
            decreases n - i,
        {
            let ghost prev = self.pending.buffer@;
            self.pending.buffer[self.pending.len + i] = data[pos + i];
            assert(self.pending.buffer@ == prev.update(self.pending.len + i, data@[pos + i]));
            assert(self.pending.buffer@.take(self.pending.len + i + 1) =~= prev.take(self.pending.len + i).push(
                data@[pos + i],
            ));
            assert(data@.subrange(pos as int, pos + i + 1) =~= data@.subrange(pos as int, pos + i).push(
                data@[pos + i],
            ));
            i += 1;
            assert(self.pending.buffer@.take(self.pending.len + i) =~= pending + data@.subrange(
                pos as int,
                pos + i,
            ));
        }
    }

    /// Appends `data` to the stream: every block that fills up reaches the
    /// hash, the rest waits in the buffer.
    pub fn update(&mut self, data: &[u8])
        ensures
            final(self)@ == fed(old(self)@, data@),
            final(self)@.pending.len() < 16,
    {
        let mut pos: usize = 0;
        assert(data@.skip(0) =~= data@);
        while pos < data.len()
            invariant
                pos <= data.len(),
                fed(self@, data@.skip(pos as int)) == fed(old(self)@, data@),
            decreases data.len() - pos,
        {
            proof {
                use_type_invariant(&self.pending);
            }
            let ghost v = self@;
            let space = DIGEST_BLOCK_LEN - self.pending.len;
            if data.len() - pos >= space {
                let ghost chunk = data@.subrange(pos as int, pos + space);
                self.fill_buffer(data, pos, space);
                assert(self.pending.buffer@ =~= v.pending + chunk);
                proof {
                    lemma_absorb_one_block(v.hash, v.started, v.pending + chunk);
                }
                if !self.first_block_absorbed {
                    hash_absorb(&mut self.hash, &self.pending.buffer);
                    self.first_block_absorbed = true;
                } else {
                    hash_absorb_more(&mut self.hash, &self.pending.buffer, 16);
                }
                self.pending.len = 0;
                proof {
                    let all = v.pending + chunk;
                    assert(whole_blocks_len(all.len()) == 16);
                    assert(all.take(16) =~= all);
                    assert(all.skip(16) =~= Seq::<u8>::empty());
                    assert(self.pending.buffer@.take(0) =~= Seq::<u8>::empty());
                    assert(self@ =~= fed(v, chunk));
                    lemma_update_concat(v, chunk, data@.skip(pos + space));
                    assert(chunk + data@.skip(pos + space) =~= data@.skip(pos as int));
                }
                pos += space;
            } else {
                let ghost rest = data@.skip(pos as int);
                let n = data.len() - pos;
                self.fill_buffer(data, pos, n);
                assert(data@.subrange(pos as int, pos + n) =~= rest);
                self.pending.len = self.pending.len + n;
                proof {
                    let all = v.pending + rest;
                    assert(rest.take(n as int) =~= rest);
                    assert(whole_blocks_len(all.len()) == 0);
                    assert(all.take(0) =~= Seq::<u8>::empty());
                    assert(all.skip(0) =~= all);
                    assert(self@ =~= fed(v, rest));
                    assert(data@.skip(data.len() as int) =~= Seq::<u8>::empty());
                    lemma_update_empty(self@);
                }
                pos = data.len();
            }
        }
        proof {
            use_type_invariant(&self.pending);
            assert(data@.skip(data.len() as int) =~= Seq::<u8>::empty());
            lemma_update_empty(self@);
        }
    }

    /// Feeds the pending bytes to the hash as a last block and squeezes the
    /// digest; nothing is left pending.
    pub fn finish(&mut self) -> (digest: Vec<u8>)
        ensures
            digest@ == finished(old(self)@).1,
            digest@.len() == DIGEST_LEN,
            final(self)@.hash == finished(old(self)@).0,
            final(self)@.pending == Seq::<u8>::empty(),
            old(self)@.pending.len() == 0 ==> digest@ == hash_squeezed(old(self)@.hash, 32).1,
            old(self)@.pending.len() > 0 && !old(self)@.started ==> digest@ == hash_squeezed(
                hash_absorbed(old(self)@.hash, old(self)@.pending),
                32,
            ).1,
            old(self)@.pending.len() > 0 && old(self)@.started ==> digest@ == hash_squeezed(
                hash_absorbed_more(old(self)@.hash, old(self)@.pending, 16),
                32,
            ).1,
            final(self)@.started == (old(self)@.started || old(self)@.pending.len() > 0),
    {
        proof {
            use_type_invariant(&self.pending);
        }
        let ghost v = self@;
        if self.pending.len > 0 {
            let part = slice_subrange(&self.pending.buffer, 0, self.pending.len);
            proof {
                assert(part@ =~= v.pending);
                assert(v.pending.take(v.pending.len() as int) =~= v.pending);
                lemma_absorb_one_block(v.hash, v.started, v.pending);
            }
            if !self.first_block_absorbed {
                hash_absorb(&mut self.hash, part);
                self.first_block_absorbed = true;
            } else {
                hash_absorb_more(&mut self.hash, part, 16);
            }
            self.pending.len = 0;
        }
        assert(self@.pending =~= Seq::<u8>::empty());
        hash_squeeze(&mut self.hash, DIGEST_LEN)
    }
}

/// The hash state after `data` is fed to `h` in blocks of
/// `DIGEST_BLOCK_LEN` bytes, the last one possibly shorter: the first block
/// by `absorb` unless a block was absorbed before, every other by
/// `absorb_more` at the block rate.
pub open spec fn absorb_blocks(h: XoodyakHash, started: bool, data: Seq<u8>) -> XoodyakHash
    decreases data.len(),
{
    if data.len() == 0 {
        h
    } else {
        let n: int = if data.len() < 16 { data.len() as int } else { 16 };
        let block = data.take(n);
        let h2 = if started {
            hash_absorbed_more(h, block, 16)
        } else {
            hash_absorbed(h, block)
        };
        absorb_blocks(h2, true, data.skip(n))
    }
}

/// The length of the longest prefix of `len` bytes that is made of whole
/// blocks.
pub open spec fn whole_blocks_len(len: nat) -> nat {
    (len - len % 16) as nat
}

/// What a context holds after an update with `data`: all whole blocks of
/// the pending bytes followed by `data` reach the hash, the rest waits.
pub open spec fn fed(v: DigestView, data: Seq<u8>) -> DigestView {
    let all = v.pending + data;
    let full = whole_blocks_len(all.len());
    DigestView {
        hash: absorb_blocks(v.hash, v.started, all.take(full as int)),
        pending: all.skip(full as int),
        started: v.started || full > 0,
    }
}

/// What a context holds after a sequence of updates, in order.
pub open spec fn fed_all(v: DigestView, updates: Seq<Seq<u8>>) -> DigestView
    decreases updates.len(),
{
    if updates.len() == 0 {
        v
    } else {
        fed_all(fed(v, updates[0]), updates.drop_first())
    }
}

/// The state after finishing, and the digest: the pending bytes reach the
/// hash as a last block, then `DIGEST_LEN` bytes are squeezed.
pub open spec fn finished(v: DigestView) -> (XoodyakHash, Seq<u8>) {
    hash_squeezed(absorb_blocks(v.hash, v.started, v.pending), 32)
}

/// How blocks reach the hash: from a context with nothing pending, a first
/// block of 16 bytes is absorbed with `absorb` and every later one with
/// `absorb_more` at rate 16; fewer than 16 bytes only wait.
pub proof fn law_blocks_reach_hash(v: DigestView, x: Seq<u8>, y: Seq<u8>)
    requires
        v.pending.len() == 0,
        x.len() == 16,
        y.len() == 16,
    ensures
        !v.started ==> fed(v, x + y).hash == hash_absorbed_more(hash_absorbed(v.hash, x), y, 16),
        v.started ==> fed(v, x).hash == hash_absorbed_more(v.hash, x, 16),
        fed(v, x + y).pending.len() == 0,
        fed(v, x + y).started,
        fed(v, x.take(15)).hash == v.hash,
        fed(v, x.take(15)).pending == x.take(15),
        fed(v, x.take(15)).started == v.started,
{
    let xy = x + y;
    assert(v.pending + xy =~= xy);
    assert(xy.take(32) =~= xy);
    assert(xy.skip(32) =~= Seq::<u8>::empty());
    assert(xy.take(16) =~= x);
    assert(xy.skip(16) =~= y);
    lemma_absorb_one_block(hash_absorbed(v.hash, x), true, y);
    assert(absorb_blocks(v.hash, false, xy) == absorb_blocks(hash_absorbed(v.hash, x), true, y));
    assert(v.pending + x =~= x);
    assert(x.take(16) =~= x);
    assert(x.skip(16) =~= Seq::<u8>::empty());
    lemma_absorb_one_block(v.hash, v.started, x);
    let z = x.take(15);
    assert(v.pending + z =~= z);
    assert(z.take(0) =~= Seq::<u8>::empty());
    assert(z.skip(0) =~= z);
    assert(fed(v, xy) =~= DigestView {
        hash: absorb_blocks(v.hash, v.started, xy),
        pending: Seq::empty(),
        started: true,
    });
    assert(fed(v, x) =~= DigestView {
        hash: absorb_blocks(v.hash, v.started, x),
        pending: Seq::empty(),
        started: true,
    });
    assert(fed(v, z) =~= DigestView { hash: v.hash, pending: z, started: v.started });
}

/// The digest is the 32 bytes squeezed from the hash after the pending
/// bytes, if any, reach it as a last block (by `absorb` when no block did
/// before, by `absorb_more` at rate 16 otherwise).
pub proof fn law_digest_squeezed(v: DigestView)
    requires
        v.pending.len() < 16,
    ensures
        v.pending.len() == 0 ==> finished(v) == hash_squeezed(v.hash, 32),
        v.pending.len() > 0 && !v.started ==> finished(v) == hash_squeezed(
            hash_absorbed(v.hash, v.pending),
            32,
        ),
        v.pending.len() > 0 && v.started ==> finished(v) == hash_squeezed(
            hash_absorbed_more(v.hash, v.pending, 16),
            32,
        ),
{
    if v.pending.len() > 0 {
        lemma_absorb_one_block(v.hash, v.started, v.pending);
    }
}

/// Feeding whole blocks and then more bytes is feeding them all at once.
proof fn lemma_absorb_blocks_split(h: XoodyakHash, started: bool, x: Seq<u8>, y: Seq<u8>)
    requires
        x.len() % 16 == 0,
    ensures
        absorb_blocks(h, started, x + y) == absorb_blocks(
            absorb_blocks(h, started, x),
            started || x.len() > 0,
            y,
        ),
    decreases x.len(),
{
    if x.len() == 0 {
        assert(x + y =~= y);
    } else {
        let h2 = if started {
            hash_absorbed_more(h, x.take(16), 16)
        } else {
            hash_absorbed(h, x.take(16))
        };
        assert((x + y).take(16) =~= x.take(16));
        assert((x + y).skip(16) =~= x.skip(16) + y);
        lemma_absorb_blocks_split(h2, true, x.skip(16), y);
    }
}

/// A single nonempty block of at most `DIGEST_BLOCK_LEN` bytes is absorbed
/// in one step.
proof fn lemma_absorb_one_block(h: XoodyakHash, started: bool, block: Seq<u8>)
    requires
        0 < block.len() <= 16,
    ensures
        absorb_blocks(h, started, block) == (if started {
            hash_absorbed_more(h, block, 16)
        } else {
            hash_absorbed(h, block)
        }),
{
    let n: int = if block.len() < 16 { block.len() as int } else { 16 };
    assert(block.take(n) =~= block);
    let h2 = if started {
        hash_absorbed_more(h, block, 16)
    } else {
        hash_absorbed(h, block)
    };
    assert(block.skip(n).len() == 0);
    assert(absorb_blocks(h2, true, block.skip(n)) == h2);
}

/// Updates compose: an update with `a` followed by one with `b` leaves the
/// context as a single update with `a` followed by `b` does.
pub proof fn lemma_update_concat(v: DigestView, a: Seq<u8>, b: Seq<u8>)
    ensures
        fed(fed(v, a), b) == fed(v, a + b),
{
    let all1 = v.pending + a;
    let full1 = whole_blocks_len(all1.len());
    let v1 = fed(v, a);
    let all2 = v1.pending + b;
    let full2 = whole_blocks_len(all2.len());
    let all = v.pending + (a + b);
    let full = whole_blocks_len(all.len());
    assert(all =~= all1.take(full1 as int) + all2);
    assert(full == full1 + full2);
    assert(all.take(full as int) =~= all1.take(full1 as int) + all2.take(full2 as int));
    assert(all.skip(full as int) =~= all2.skip(full2 as int));
    lemma_absorb_blocks_split(v.hash, v.started, all1.take(full1 as int), all2.take(full2 as int));
    assert(fed(fed(v, a), b) =~= fed(v, a + b));
}

/// Feeding nothing changes nothing, for a context whose pending bytes do not
/// fill a block.
pub proof fn lemma_update_empty(v: DigestView)
    requires
        v.pending.len() < 16,
    ensures
        fed(v, Seq::empty()) == v,
{
    let all = v.pending + Seq::<u8>::empty();
    assert(all =~= v.pending);
    assert(whole_blocks_len(all.len()) == 0);
    assert(all.take(0) =~= Seq::<u8>::empty());
    assert(all.skip(0) =~= v.pending);
    assert(fed(v, Seq::empty()) =~= v);
}

/// However the input is cut into updates, the context ends as it would after
/// one update with the whole input.
pub proof fn lemma_updates_flatten(v: DigestView, updates: Seq<Seq<u8>>)
    requires
        v.pending.len() < 16,
    ensures
        fed_all(v, updates) == fed(v, updates.flatten()),
    decreases updates.len(),
{
    if updates.len() == 0 {
        lemma_update_empty(v);
    } else {
        let v1 = fed(v, updates[0]);
        let all = v.pending + updates[0];
        assert(all.skip(whole_blocks_len(all.len()) as int).len() < 16);
        lemma_updates_flatten(v1, updates.drop_first());
        lemma_update_concat(v, updates[0], updates.drop_first().flatten());
        assert(updates.flatten() == updates[0] + updates.drop_first().flatten());
    }
}

/// However the input is cut into updates, finishing gives the digest that
/// one update with the whole input would give.
pub proof fn lemma_digest_ignores_cuts(v: DigestView, updates: Seq<Seq<u8>>)
    requires
        v.pending.len() < 16,
    ensures
        finished(fed_all(v, updates)) == finished(fed(v, updates.flatten())),
{
    lemma_updates_flatten(v, updates);
}

} // verus!
