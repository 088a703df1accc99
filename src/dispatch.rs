//! Selection of a backend, once per key, and routing of every absorption to
//! the backend that built the key's table.
use vstd::prelude::*;
use crate::block::{block_at, blocks_of, Blocks, InvalidLength, KeyValue, Xi, BLOCK_LEN};
use crate::cpu::Neon;
use crate::fallback::FallbackKey;
use crate::gf128::{ghash, gf_mul};
use crate::neon;

verus! {

/// Which backend a key was built by.
#[derive(Clone, Copy, Debug, PartialEq, Eq, Structural)]
pub enum Implementation {
    Neon,
    Fallback,
}

/// A key of whichever backend was selected: the variant fixes both the table
/// layout and the kernel, so the two can never be mixed.
#[derive(Clone, Debug)]
pub enum DynKey {
    Neon(neon::Key),
    Fallback(FallbackKey),
}

impl DynKey {
    /// The hash subkey the key multiplies by.
    pub open spec fn subkey(&self) -> u128 {
        match self {
            DynKey::Neon(k) => k.subkey(),
            DynKey::Fallback(k) => k.subkey(),
        }
    }

    /// The backend that built the key.
    pub open spec fn backend(&self) -> Implementation {
        match self {
            DynKey::Neon(_) => Implementation::Neon,
            DynKey::Fallback(_) => Implementation::Fallback,
        }
    }

    pub open spec fn wf(&self) -> bool {
        match self {
            DynKey::Neon(k) => k.wf(),
            DynKey::Fallback(_) => true,
        }
    }

    /// The backend chosen for the tokens at hand: the most specialised one
    /// whose token is present, the portable one otherwise.
    pub open spec fn preferred(neon: Option<Neon>) -> Implementation {
        if neon.is_some() {
            Implementation::Neon
        } else {
            Implementation::Fallback
        }
    }

    /// Selects the backend for the tokens at hand and builds its table from
    /// subkey `value`.
    pub fn new(value: KeyValue, neon: Option<Neon>) -> (r: DynKey)
        ensures
            r.wf(),
            r.subkey() == value.0,
            r.backend() == Self::preferred(neon),
    {
        match neon {
            Some(cpu) => DynKey::Neon(neon::Key::new(value, cpu)),
            None => DynKey::Fallback(FallbackKey::new(value)),
        }
    }

    /// Tells which backend the key was built by.
    pub fn implementation(&self) -> (r: Implementation)
        ensures
            r == self.backend(),
    {
        match self {
            DynKey::Neon(_) => Implementation::Neon,
            DynKey::Fallback(_) => Implementation::Fallback,
        }
    }

    /// Absorbs one block: `xi := (xi ^ a) * H`.
    pub fn update_block(&self, xi: &mut Xi, a: [u8; BLOCK_LEN])
        requires
            self.wf(),
        ensures
            final(xi).0 == gf_mul(old(xi).0 ^ block_at(a@, 0), self.subkey()),
    {
        match self {
            DynKey::Neon(k) => k.update_block(xi, a),
            DynKey::Fallback(k) => k.update_block(xi, a),
        }
    }

    /// Absorbs every block of `input` in order.
    pub fn update_blocks(&self, xi: &mut Xi, input: &Blocks)
        requires
            self.wf(),
            input.wf(),
        ensures
            final(xi).0 == ghash(old(xi).0, self.subkey(), input.blocks()),
    {
        match self {
            DynKey::Neon(k) => k.update_blocks(xi, input),
            DynKey::Fallback(k) => k.update_blocks(xi, input),
        }
    }

    /// Absorbs the blocks of `bytes` in order. An empty or unaligned run is
    /// refused with the matching error, and `xi` is left as it was.
    pub fn update_bytes(&self, xi: &mut Xi, bytes: &[u8]) -> (r: Result<(), InvalidLength>)
        requires
            self.wf(),
        ensures
            bytes@.len() == 0 <==> r == Err::<(), InvalidLength>(InvalidLength::Empty),
            (bytes@.len() > 0 && bytes@.len() % 16 != 0) <==> r == Err::<(), InvalidLength>(
                InvalidLength::Unaligned,
            ),
            r.is_ok() ==> final(xi).0 == ghash(old(xi).0, self.subkey(), blocks_of(bytes@)),
            r.is_err() ==> *final(xi) == *old(xi),
    {
        match Blocks::new(bytes) {
            Ok(input) => {
                self.update_blocks(xi, &input);
                Ok(())
            },
            Err(e) => Err(e),
        }
    }
}

/// Every backend computes the same GHASH: two keys built from one subkey,
/// whatever backends built them, take a state through the same blocks to the
/// same state.
pub proof fn lemma_backends_agree(value: KeyValue, a: DynKey, b: DynKey, xi: u128, blocks: Seq<u128>)
    requires
        a.subkey() == value.0,
        b.subkey() == value.0,
    ensures
        ghash(xi, a.subkey(), blocks) == ghash(xi, b.subkey(), blocks),
{
}

} // verus!
