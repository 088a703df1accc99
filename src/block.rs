//! Blocks, the accumulator, the hash subkey, and the validated view over a
//! run of whole blocks that bulk absorption takes.
use vstd::prelude::*;
use crate::gf128::{ghash, lemma_ghash_split};

verus! {

/// The size of a block, in bytes.
pub const BLOCK_LEN: usize = 16;

/// The element that the 16 bytes at `off` in `s` stand for, read big-endian.
pub open spec fn block_at(s: Seq<u8>, off: int) -> u128 {
    (s[off] as u128) << 120u32 | (s[off + 1] as u128) << 112u32 | (s[off + 2] as u128) << 104u32
        | (s[off + 3] as u128) << 96u32 | (s[off + 4] as u128) << 88u32 | (s[off + 5] as u128)
        << 80u32 | (s[off + 6] as u128) << 72u32 | (s[off + 7] as u128) << 64u32 | (s[off
        + 8] as u128) << 56u32 | (s[off + 9] as u128) << 48u32 | (s[off + 10] as u128) << 40u32
        | (s[off + 11] as u128) << 32u32 | (s[off + 12] as u128) << 24u32 | (s[off + 13] as u128)
        << 16u32 | (s[off + 14] as u128) << 8u32 | (s[off + 15] as u128)
}

/// The blocks that `s` holds, one for every 16 bytes.
pub open spec fn blocks_of(s: Seq<u8>) -> Seq<u128> {
    Seq::new((s.len() / 16) as nat, |k: int| block_at(s, 16 * k))
}

/// The `i`-th byte (big-endian) of the 16 that stand for `v`.
pub open spec fn byte_of(v: u128, i: int) -> u8 {
    (v >> ((120 - 8 * i) as u32)) as u8
}

/// Cutting a block-aligned run at a block boundary cuts its blocks there.
pub proof fn lemma_blocks_of_concat(b1: Seq<u8>, b2: Seq<u8>)
    requires
        b1.len() % 16 == 0,
    ensures
        blocks_of(b1 + b2) == blocks_of(b1) + blocks_of(b2),
{
    let s = b1 + b2;
    assert(s.len() / 16 == b1.len() / 16 + b2.len() / 16) by (nonlinear_arith)
        requires
            s.len() == b1.len() + b2.len(),
            b1.len() % 16 == 0,
    ;
    assert forall|k: int| 0 <= k < blocks_of(s).len() implies #[trigger] blocks_of(s)[k] == (
    blocks_of(b1) + blocks_of(b2))[k] by {
        let n1 = b1.len() / 16;
        if k < n1 {
            assert(16 * k + 16 <= b1.len()) by (nonlinear_arith)
                requires
                    k < b1.len() / 16,
                    0 <= k,
            ;
            assert forall|j: int| 0 <= j < 16 implies #[trigger] s[16 * k + j] == b1[16 * k + j] by {}
        } else {
            let k2 = k - n1;
            assert(16 * k == b1.len() + 16 * k2 && 16 * k2 + 16 <= b2.len()) by (nonlinear_arith)
                requires
                    k2 == k - n1,
                    n1 == b1.len() / 16,
                    b1.len() % 16 == 0,
                    k2 < b2.len() / 16,
                    k >= n1,
            ;
            assert forall|j: int| 0 <= j < 16 implies #[trigger] s[16 * k + j] == b2[16 * k2 + j] by {}
        }
    }
    assert(blocks_of(s) =~= blocks_of(b1) + blocks_of(b2));
}

/// Absorbing a block-aligned run `b1` followed by a run `b2` in one bulk call
/// ends where absorbing `b1`, then `b2`, ends.
pub proof fn lemma_absorb_split(xi: u128, h: u128, b1: Seq<u8>, b2: Seq<u8>)
    requires
        b1.len() % 16 == 0,
    ensures
        ghash(xi, h, blocks_of(b1 + b2)) == ghash(ghash(xi, h, blocks_of(b1)), h, blocks_of(b2)),
{
    lemma_blocks_of_concat(b1, b2);
    lemma_ghash_split(xi, h, blocks_of(b1), blocks_of(b2));
}

/// Reads the block at `off` in `s`.
pub fn load_block(s: &[u8], off: usize) -> (r: u128)
    requires
        off + 16 <= s@.len(),
    ensures
        r == block_at(s@, off as int),
{
    (s[off] as u128) << 120u32 | (s[off + 1] as u128) << 112u32 | (s[off + 2] as u128) << 104u32
        | (s[off + 3] as u128) << 96u32 | (s[off + 4] as u128) << 88u32 | (s[off + 5] as u128)
        << 80u32 | (s[off + 6] as u128) << 72u32 | (s[off + 7] as u128) << 64u32 | (s[off
        + 8] as u128) << 56u32 | (s[off + 9] as u128) << 48u32 | (s[off + 10] as u128) << 40u32
        | (s[off + 11] as u128) << 32u32 | (s[off + 12] as u128) << 24u32 | (s[off + 13] as u128)
        << 16u32 | (s[off + 14] as u128) << 8u32 | (s[off + 15] as u128)
}

/// The accumulator: the running GHASH state, one element of GF(2^128).
#[derive(Clone, Copy, Debug, PartialEq, Eq)]
pub struct Xi(pub u128);

impl Xi {
    /// The state every GCM operation starts from.
    pub fn zero() -> (r: Xi)
        ensures
            r.0 == 0,
    {
        Xi(0)
    }

    /// The state that the 16 bytes `b` stand for.
    pub fn from_bytes(b: [u8; 16]) -> (r: Xi)
        ensures
            r.0 == block_at(b@, 0),
    {
        Xi(load_block(b.as_slice(), 0))
    }

    /// The 16 bytes of the state, big-endian: read out at finalization.
    pub fn to_bytes(&self) -> (r: [u8; 16])
        ensures
            forall|i: int| 0 <= i < 16 ==> #[trigger] r@[i] == byte_of(self.0, i),
    {
        let mut r: [u8; 16] = [0u8; 16];
        let mut i: usize = 0;
        while i < 16
            invariant
                i <= 16,
                r@.len() == 16,
                forall|j: int| 0 <= j < i ==> #[trigger] r@[j] == byte_of(self.0, j),
            decreases 16 - i,
        {
            r[i] = (self.0 >> ((120 - 8 * i) as u32)) as u8;
            i = i + 1;
        }
        r
    }
}

/// The hash subkey H, from which a key's table is built.
#[derive(Clone, Copy, Debug, PartialEq, Eq)]
pub struct KeyValue(pub u128);

impl KeyValue {
    /// The subkey that the 16 bytes `b` stand for.
    pub fn from_bytes(b: [u8; 16]) -> (r: KeyValue)
        ensures
            r.0 == block_at(b@, 0),
    {
        KeyValue(load_block(b.as_slice(), 0))
    }
}

/// Why a byte run was refused as input to bulk absorption.
#[derive(Clone, Copy, Debug, PartialEq, Eq)]
pub enum InvalidLength {
    /// The run holds no block.
    Empty,
    /// The run's length is not a multiple of the block size.
    Unaligned,
}

/// A run of bytes known to hold one whole block or more, and nothing else.
#[derive(Clone, Copy)]
pub struct Blocks<'a> {
    bytes: &'a [u8],
}

impl<'a> Blocks<'a> {
    /// The bytes of the run.
    pub closed spec fn bytes(&self) -> Seq<u8> {
        self.bytes@
    }

    /// Holds of every value of this type: the run is non-empty and
    /// block-aligned.
    pub closed spec fn wf(&self) -> bool {
        self.bytes@.len() > 0 && self.bytes@.len() % 16 == 0
    }

    /// The blocks of the run.
    pub open spec fn blocks(&self) -> Seq<u128> {
        blocks_of(self.bytes())
    }

    /// Checks that `bytes` is a non-empty run of whole blocks: an empty run
    /// is `Empty`, one whose length is not a multiple of 16 is `Unaligned`.
    pub fn new(bytes: &'a [u8]) -> (r: Result<Blocks<'a>, InvalidLength>)
        ensures
            bytes@.len() == 0 <==> r == Err::<Blocks<'a>, InvalidLength>(InvalidLength::Empty),
            (bytes@.len() > 0 && bytes@.len() % 16 != 0) <==> r == Err::<Blocks<'a>, InvalidLength>(
                InvalidLength::Unaligned,
            ),
            r.is_ok() <==> (bytes@.len() > 0 && bytes@.len() % 16 == 0),
            r matches Ok(b) ==> b.wf() && b.bytes() == bytes@ && b.blocks().len() > 0,
    {
        if bytes.len() == 0 {
            Err(InvalidLength::Empty)
        } else if bytes.len() % BLOCK_LEN != 0 {
            Err(InvalidLength::Unaligned)
        } else {
            Ok(Blocks { bytes })
        }
    }

    /// The number of blocks in the run.
    pub fn len(&self) -> (r: usize)
        requires
            self.wf(),
        ensures
            r == self.blocks().len(),
            r > 0,
    {
        self.bytes.len() / BLOCK_LEN
    }

    /// Reads block `k` of the run.
    pub fn block(&self, k: usize) -> (r: u128)
        requires
            self.wf(),
            k < self.blocks().len(),
        ensures
            r == self.blocks()[k as int],
    {
        let n: usize = self.bytes.len();
        assert(16 * k + 16 <= self.bytes@.len()) by (nonlinear_arith)
            requires
                k < self.bytes@.len() / 16,
        ;
        load_block(self.bytes, 16 * k)
    }
}

} // verus!
