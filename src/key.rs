//! The node's long-term signing identity.

use vstd::prelude::*;

use crate::crypto::{ed25519_public_key, ed25519_public_of, ed25519_sign, ed25519_signature_of};
use crate::data_struct::{PubKey, Signature};

verus! {

/// A signing key: its secret seed and the verifying key derived from it.
pub struct Identity {
    seed: [u8; 32],
    public: PubKey,
}

impl Identity {
    /// The secret seed.
    pub closed spec fn seed(&self) -> Seq<u8> {
        self.seed@
    }

    /// The verifying key, derived from the seed.
    pub closed spec fn public(&self) -> PubKey {
        self.public
    }

    #[verifier::type_invariant]
    spec fn wf(&self) -> bool {
        self.public.bytes@ == ed25519_public_of(self.seed@)
    }

    /// The identity whose secret is `seed` (persisted, or freshly drawn).
    pub fn from_seed(seed: [u8; 32]) -> (r: Self)
        ensures
            r.seed() == seed@,
            r.public().bytes@ == ed25519_public_of(seed@),
    {
        let public = ed25519_public_key(&seed);
        Identity { seed, public }
    }

    pub fn verifying_key(&self) -> (r: PubKey)
        ensures
            r == self.public(),
            r.bytes@ == ed25519_public_of(self.seed()),
    {
        proof {
            use_type_invariant(self);
        }
        self.public
    }

    pub fn sign(&self, msg: &[u8]) -> (r: Signature)
        ensures
            r.bytes@ == ed25519_signature_of(self.seed(), msg@),
    {
        ed25519_sign(&self.seed, msg)
    }
}

} // verus!
