//! The portable backend: needs no CPU feature, and keeps H itself as its table.
use vstd::prelude::*;
use crate::block::{block_at, load_block, Blocks, KeyValue, Xi, BLOCK_LEN};
use crate::gf128::{ghash, gf_mul, lemma_ghash_one, lemma_ghash_split, multiply};

verus! {

/// A key of the portable backend.
#[derive(Clone, Copy, Debug)]
pub struct FallbackKey {
    h: u128,
}

impl FallbackKey {
    /// The hash subkey this key multiplies by.
    pub closed spec fn subkey(&self) -> u128 {
        self.h
    }

    /// Builds the key for subkey `value`.
    pub fn new(value: KeyValue) -> (r: FallbackKey)
        ensures
            r.subkey() == value.0,
    {
        FallbackKey { h: value.0 }
    }

    fn step(&self, xi: &mut Xi, a: u128)
        ensures
            final(xi).0 == gf_mul(old(xi).0 ^ a, self.subkey()),
    {
        xi.0 = multiply(xi.0 ^ a, self.h);
    }

    /// Absorbs one block: `xi := (xi ^ a) * H`.
    pub fn update_block(&self, xi: &mut Xi, a: [u8; BLOCK_LEN])
        ensures
            final(xi).0 == gf_mul(old(xi).0 ^ block_at(a@, 0), self.subkey()),
    {
        self.step(xi, load_block(a.as_slice(), 0));
    }

    /// Absorbs every block of `input` in order.
    pub fn update_blocks(&self, xi: &mut Xi, input: &Blocks)
        requires
            input.wf(),
        ensures
            final(xi).0 == ghash(old(xi).0, self.subkey(), input.blocks()),
    {
        let n = input.len();
        let ghost xi0 = xi.0;
        let mut k: usize = 0;
        assert(input.blocks().take(0) =~= Seq::<u128>::empty());
        while k < n
            invariant
                input.wf(),
                n == input.blocks().len(),
                k <= n,
                xi.0 == ghash(xi0, self.h, input.blocks().take(k as int)),
            decreases n - k,
        {
            let a = input.block(k);
            proof {
                lemma_ghash_split(xi0, self.h, input.blocks().take(k as int), seq![a]);
                lemma_ghash_one(xi.0, self.h, a);
                assert(input.blocks().take(k as int) + seq![a] =~= input.blocks().take(k + 1));
            }
            self.step(xi, a);
            k = k + 1;
        }
        assert(input.blocks().take(n as int) =~= input.blocks());
    }
}

} // verus!
