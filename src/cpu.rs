//! Capability tokens: witnesses that a CPU feature was found present.
use vstd::prelude::*;

verus! {

/// Witness that the NEON SIMD extension was found present on this CPU. Its
/// field is private, so a value comes only from `Neon::detected`.
#[derive(Clone, Copy, Debug)]
pub struct Neon {
    _private: (),
}

impl Neon {
    /// Turns the answer of the runtime feature probe into a token: one exists
    /// exactly when the probe found the feature.
    pub fn detected(present: bool) -> (r: Option<Neon>)
        ensures
            r.is_some() == present,
    {
        if present {
            Some(Neon { _private: () })
        } else {
            None
        }
    }
}

} // verus!
