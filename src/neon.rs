//! The table-driven backend that a NEON capability token unlocks. Its table
//! holds the 128 multiples `H * x^i`, built once when the key is set up, so
//! that each multiplication is a run of table lookups and XORs.
use vstd::prelude::*;
use crate::block::{block_at, load_block, Blocks, KeyValue, Xi, BLOCK_LEN};
use crate::cpu::Neon;
use crate::gf128::{
    ghash, gf_mul, h_power, has_coeff, lemma_ghash_one, lemma_ghash_split, mul_by_x,
    partial_product,
};

verus! {

/// A key of the NEON backend: owns the table built from H.
#[derive(Clone, Debug)]
pub struct Key {
    h_table: Vec<u128>,
}

impl Key {
    /// The hash subkey the table was built from: its first entry.
    pub closed spec fn subkey(&self) -> u128 {
        self.h_table@[0]
    }

    /// The table holds `H * x^i` at index `i`, for each of the 128 indexes.
    pub closed spec fn wf(&self) -> bool {
        &&& self.h_table@.len() == 128
        &&& forall|i: int| 0 <= i < 128 ==> #[trigger] self.h_table@[i] == h_power(self.subkey(), i as nat)
    }

    /// Builds the table for subkey `value`; the token shows that the feature
    /// this backend is meant for was found present.
    pub fn new(value: KeyValue, _cpu: Neon) -> (r: Key)
        ensures
            r.wf(),
            r.subkey() == value.0,
    {
        let h = value.0;
        let mut h_table: Vec<u128> = Vec::with_capacity(128);
        let mut v: u128 = h;
        let mut i: usize = 0;
        while i < 128
            invariant
                i <= 128,
                h_table@.len() == i,
                v == h_power(h, i as nat),
                forall|j: int| 0 <= j < i ==> #[trigger] h_table@[j] == h_power(h, j as nat),
            decreases 128 - i,
        {
            h_table.push(v);
            v = mul_by_x(v);
            i = i + 1;
        }
        Key { h_table }
    }

    fn multiply(&self, x: u128) -> (r: u128)
        requires
            self.wf(),
        ensures
            r == gf_mul(x, self.subkey()),
    {
        let mut z: u128 = 0;
        let mut i: u32 = 0;
        while i < 128
            invariant
                self.wf(),
                i <= 128,
                z == partial_product(x, self.subkey(), i as nat),
            decreases 128 - i,
        {
            if has_coeff(x, i) {
                z = z ^ self.h_table[i as usize];
            }
            i = i + 1;
        }
        z
    }

    fn step(&self, xi: &mut Xi, a: u128)
        requires
            self.wf(),
        ensures
            final(xi).0 == gf_mul(old(xi).0 ^ a, self.subkey()),
    {
        xi.0 = self.multiply(xi.0 ^ a);
    }

    /// Absorbs one block: `xi := (xi ^ a) * H`.
    pub fn update_block(&self, xi: &mut Xi, a: [u8; BLOCK_LEN])
        requires
            self.wf(),
        ensures
            final(xi).0 == gf_mul(old(xi).0 ^ block_at(a@, 0), self.subkey()),
    {
        self.step(xi, load_block(a.as_slice(), 0));
    }

    /// Absorbs every block of `input` in order.
    pub fn update_blocks(&self, xi: &mut Xi, input: &Blocks)
        requires
            self.wf(),
            input.wf(),
        ensures
            final(xi).0 == ghash(old(xi).0, self.subkey(), input.blocks()),
    {
        let n = input.len();
        let ghost h = self.subkey();
        let ghost xi0 = xi.0;
        let mut k: usize = 0;
        assert(input.blocks().take(0) =~= Seq::<u128>::empty());
        while k < n
            invariant
                self.wf(),
                input.wf(),
                h == self.subkey(),
                n == input.blocks().len(),
                k <= n,
                xi.0 == ghash(xi0, h, input.blocks().take(k as int)),
            decreases n - k,
        {
            let a = input.block(k);
            proof {
                lemma_ghash_split(xi0, h, input.blocks().take(k as int), seq![a]);
                lemma_ghash_one(xi.0, h, a);
                assert(input.blocks().take(k as int) + seq![a] =~= input.blocks().take(k + 1));
            }
            self.step(xi, a);
            k = k + 1;
        }
        assert(input.blocks().take(n as int) =~= input.blocks());
    }
}

} // verus!
