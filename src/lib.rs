//! GHASH, the universal hash of Galois/Counter Mode, over GF(2^128).
//!
//! A key is built once from the hash subkey H; the backend that builds its
//! table is fixed for the key's lifetime, and every absorption routes to it.
use vstd::prelude::*;

pub mod block;
pub mod cpu;
pub mod dispatch;
pub mod fallback;
pub mod gf128;
pub mod neon;

verus! {

} // verus!
