//! The verifier's decision on a proof.
use crate::circuit::{CircuitError, CompiledCircuit};
use crate::field::{is_canonical, ORDER};
use vstd::prelude::*;

verus! {

/// A proof as the commitment backend produces it: the opaque artifact, and
/// the public-input values it carries, in the circuit's registration order.
pub struct Proof {
    pub bytes: Vec<u8>,
    pub public_inputs: Vec<u64>,
}

/// Whether a proof of `c` carrying `public_inputs` is accepted, when the
/// commitment backend found its openings valid (`openings_valid`) or not.
pub open spec fn accepts(c: &CompiledCircuit, public_inputs: Seq<u64>, openings_valid: bool) -> bool {
    &&& openings_valid
    &&& public_inputs.len() == c.public_inputs@.len()
    &&& forall|k: int| 0 <= k < public_inputs.len() ==> is_canonical(#[trigger] public_inputs[k])
}

impl CompiledCircuit {
    /// Accepts `proof` when it carries one canonical field value per public
    /// input of this circuit and the commitment backend found its openings
    /// valid against this circuit's verification data; otherwise fails with
    /// `InvalidProof`.
    pub fn verify(&self, proof: &Proof, openings_valid: bool) -> (r: Result<(), CircuitError>)
        ensures
            r is Ok <==> accepts(self, proof.public_inputs@, openings_valid),
            r is Err ==> r == Err::<(), CircuitError>(CircuitError::InvalidProof),
    {
        if !openings_valid || proof.public_inputs.len() != self.public_inputs.len() {
            return Err(CircuitError::InvalidProof);
        }
        let mut k: usize = 0;
        while k < proof.public_inputs.len()
            invariant
                0 <= k <= proof.public_inputs@.len(),
                forall|j: int| 0 <= j < k ==> is_canonical(#[trigger] proof.public_inputs@[j]),
            decreases proof.public_inputs@.len() - k,
        {
            if proof.public_inputs[k] >= ORDER {
                return Err(CircuitError::InvalidProof);
            }
            k = k + 1;
        }
        Ok(())
    }
}

} // verus!
