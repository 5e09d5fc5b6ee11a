//! The witness table: concrete values for the wires and proof slots of a
//! circuit, filled before proving.
use crate::circuit::{CircuitError, CompiledCircuit, ProofSlot, Wire};
use crate::identity::{CircuitShape, ShapeView};
use crate::verification::{accepts, Proof};
use crate::field::{is_canonical, ORDER};
use vstd::prelude::*;

verus! {

/// A proof prepared for binding into an outer witness: the public inputs it
/// carries, the identity of the circuit it was judged against, and whether
/// [`CompiledCircuit::verify`] accepted it there. A slot takes it only when
/// that identity is the one the slot records.
pub struct InnerProof {
    public_inputs: Vec<u64>,
    verifies: bool,
    circuit: CircuitShape,
}

impl InnerProof {
    /// The public inputs the proof carries.
    pub closed spec fn carried(&self) -> Seq<u64> {
        self.public_inputs@
    }

    /// Whether the proof verifies against the circuit it was prepared against.
    pub closed spec fn valid(&self) -> bool {
        self.verifies
    }

    /// The identity of the circuit the proof was prepared against.
    pub closed spec fn circuit(&self) -> ShapeView {
        self.circuit.view()
    }

    /// The identity of the circuit the proof was prepared against.
    pub fn circuit_shape(&self) -> (r: &CircuitShape)
        ensures
            r.view() == self.circuit(),
    {
        &self.circuit
    }

    /// The public inputs the proof carries.
    pub fn public_inputs(&self) -> (r: &Vec<u64>)
        ensures
            r@ == self.carried(),
    {
        &self.public_inputs
    }

    /// Whether the proof verifies against the circuit it was prepared against.
    pub fn verifies(&self) -> (r: bool)
        ensures
            r == self.valid(),
    {
        self.verifies
    }

    /// Prepares `proof`, a proof of `inner`, for binding into an outer
    /// witness: it records `inner`'s identity, and verifies exactly when
    /// `inner.verify` accepts it.
    pub fn from_proof(inner: &CompiledCircuit, proof: &Proof, openings_valid: bool) -> (r: InnerProof)
        ensures
            r.carried() == proof.public_inputs@,
            r.valid() == accepts(inner, proof.public_inputs@, openings_valid),
            r.circuit() == inner.shape_view(),
    {
        let verdict = inner.verify(proof, openings_valid);
        let mut public_inputs: Vec<u64> = Vec::new();
        let mut k: usize = 0;
        while k < proof.public_inputs.len()
            invariant
                0 <= k <= proof.public_inputs@.len(),
                public_inputs@ == proof.public_inputs@.take(k as int),
            decreases proof.public_inputs@.len() - k,
        {
            public_inputs.push(proof.public_inputs[k]);
            k = k + 1;
            proof {
                assert(public_inputs@ =~= proof.public_inputs@.take(k as int));
            }
        }
        assert(public_inputs@ =~= proof.public_inputs@);
        InnerProof { public_inputs, verifies: verdict.is_ok(), circuit: inner.shape() }
    }
}

/// A partial assignment of field values to wires, and of proofs to slots.
/// A later `set` of the same wire replaces the earlier value.
pub struct Witness {
    pub values: Vec<Option<u64>>,
    pub proofs: Vec<Option<InnerProof>>,
}

impl Witness {
    pub open spec fn wf(&self) -> bool {
        forall|i: int| 0 <= i < self.values@.len() && #[trigger] self.values@[i] is Some
            ==> is_canonical(self.values@[i]->0)
    }

    /// Whether every assigned value is a canonical field element.
    pub fn is_well_formed(&self) -> (r: bool)
        ensures
            r == self.wf(),
    {
        let mut i: usize = 0;
        while i < self.values.len()
            invariant
                0 <= i <= self.values@.len(),
                forall|k: int| 0 <= k < i && #[trigger] self.values@[k] is Some ==> is_canonical(self.values@[k]->0),
            decreases self.values@.len() - i,
        {
            match self.values[i] {
                Some(x) => if x >= ORDER {
                    return false;
                },
                None => {},
            }
            i = i + 1;
        }
        true
    }

    /// An empty table for a circuit of `num_wires` wires and `num_slots` slots.
    pub fn new(num_wires: usize, num_slots: usize) -> (r: Witness)
        ensures
            r.wf(),
            r.values@ == Seq::new(num_wires as nat, |i: int| None::<u64>),
            r.proofs@.len() == num_slots,
            forall|j: int| 0 <= j < num_slots ==> #[trigger] r.proofs@[j] is None,
    {
        let mut values: Vec<Option<u64>> = Vec::new();
        let mut i: usize = 0;
        while i < num_wires
            invariant
                0 <= i <= num_wires,
                values@ == Seq::new(i as nat, |k: int| None::<u64>),
            decreases num_wires - i,
        {
            values.push(None);
            i = i + 1;
            proof {
                assert(values@ =~= Seq::new(i as nat, |k: int| None::<u64>));
            }
        }
        let mut proofs: Vec<Option<InnerProof>> = Vec::new();
        let mut j: usize = 0;
        while j < num_slots
            invariant
                0 <= j <= num_slots,
                proofs@.len() == j,
                forall|k: int| 0 <= k < j ==> #[trigger] proofs@[k] is None,
            decreases num_slots - j,
        {
            proofs.push(None);
            j = j + 1;
        }
        Witness { values, proofs }
    }

    /// Assigns `value` to `w`. Fails on a wire outside the table or a value
    /// that is not a canonical field element.
    pub fn set(&mut self, w: Wire, value: u64) -> (r: Result<(), CircuitError>)
        requires
            old(self).wf(),
        ensures
            final(self).wf(),
            final(self).proofs@ == old(self).proofs@,
            w.index < old(self).values@.len() && is_canonical(value) ==> {
                &&& r is Ok
                &&& final(self).values@ == old(self).values@.update(w.index as int, Some(value))
            },
            !(w.index < old(self).values@.len() && is_canonical(value)) ==> {
                &&& r == Err::<(), CircuitError>(CircuitError::CallerMisuse)
                &&& final(self).values@ == old(self).values@
            },
    {
        if w.index >= self.values.len() || value >= ORDER {
            return Err(CircuitError::CallerMisuse);
        }
        self.values[w.index] = Some(value);
        Ok(())
    }

    /// Binds `proof` to `slot`, and assigns its public inputs to the slot's
    /// wires. Fails on a slot outside the table, a proof whose number of
    /// public inputs is not the slot's, or a public input that is not a
    /// canonical field element.
    pub fn set_proof(&mut self, slot: ProofSlot, proof: InnerProof) -> (r: Result<(), CircuitError>)
        requires
            old(self).wf(),
        ensures
            final(self).wf(),
            binds(old(self), slot, &proof) ==> {
                &&& r is Ok
                &&& final(self).values@ == Seq::new(
                    old(self).values@.len(),
                    |i: int|
                        if slot.first_wire <= i < slot.first_wire + slot.arity {
                            Some(proof.carried()[i - slot.first_wire])
                        } else {
                            old(self).values@[i]
                        },
                )
                &&& final(self).proofs@ == old(self).proofs@.update(slot.index as int, Some(proof))
            },
            !binds(old(self), slot, &proof) ==> {
                &&& r == Err::<(), CircuitError>(CircuitError::CallerMisuse)
                &&& final(self).values@ == old(self).values@
                &&& final(self).proofs@ == old(self).proofs@
            },
    {
        if slot.index >= self.proofs.len() || proof.public_inputs.len() != slot.arity
            || slot.first_wire > self.values.len() || slot.arity > self.values.len() - slot.first_wire {
            return Err(CircuitError::CallerMisuse);
        }
        let mut j: usize = 0;
        while j < proof.public_inputs.len()
            invariant
                0 <= j <= proof.public_inputs@.len(),
                forall|a: int| 0 <= a < j ==> is_canonical(#[trigger] proof.public_inputs@[a]),
                self.wf(),
                self.values@ == old(self).values@,
                self.proofs@ == old(self).proofs@,
            decreases proof.public_inputs@.len() - j,
        {
            if proof.public_inputs[j] >= ORDER {
                return Err(CircuitError::CallerMisuse);
            }
            j = j + 1;
        }
        let mut k: usize = 0;
        while k < slot.arity
            invariant
                0 <= k <= slot.arity,
                proof.public_inputs@.len() == slot.arity,
                slot.first_wire + slot.arity <= self.values.len(),
                self.values@.len() == old(self).values@.len(),
                self.proofs@ == old(self).proofs@,
                self.wf(),
                forall|a: int| 0 <= a < slot.arity ==> is_canonical(#[trigger] proof.public_inputs@[a]),
                forall|i: int| 0 <= i < self.values@.len() ==> #[trigger] self.values@[i] == if slot.first_wire <= i < slot.first_wire + k {
                    Some(proof.carried()[i - slot.first_wire])
                } else {
                    old(self).values@[i]
                },
            decreases slot.arity - k,
        {
            let x = proof.public_inputs[k];
            let idx: usize = slot.first_wire + k;
            self.values[idx] = Some(x);
            k = k + 1;
        }
        assert(self.values@ =~= Seq::new(
            old(self).values@.len(),
            |i: int|
                if slot.first_wire <= i < slot.first_wire + slot.arity {
                    Some(proof.carried()[i - slot.first_wire])
                } else {
                    old(self).values@[i]
                },
        ));
        self.proofs[slot.index] = Some(proof);
        Ok(())
    }
}

/// Whether `w.set_proof(slot, proof)` succeeds.
pub open spec fn binds(w: &Witness, slot: ProofSlot, proof: &InnerProof) -> bool {
    &&& slot.index < w.proofs@.len()
    &&& proof.carried().len() == slot.arity
    &&& slot.first_wire + slot.arity <= w.values@.len()
    &&& forall|k: int| 0 <= k < proof.carried().len() ==> is_canonical(#[trigger] proof.carried()[k])
}

} // verus!
