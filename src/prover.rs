//! The prover's witness check: completes a witness along the gates, refuses
//! it when a value is missing or a constraint fails, and yields the full
//! assignment and the public inputs that the commitment backend then proves.
use crate::circuit::{gate_in_range, gate_out, gate_output, CircuitError, CompiledCircuit, Gate, ProofSlot};
use crate::field::{field_add, field_mul, ORDER};
use crate::laws::{extends, law_accepted_witness_satisfies, law_proved_public_inputs_accepted, satisfies};
use crate::verification::accepts;
use crate::witness::{InnerProof, Witness};
use vstd::prelude::*;

verus! {

/// Applies one gate to the partial assignment `v`: its inputs must be known,
/// and its output, if already assigned, must agree.
pub open spec fn step(g: Gate, v: Seq<Option<u64>>) -> Result<Seq<Option<u64>>, CircuitError> {
    if !gate_in_range(g, v.len() as int) {
        Err(CircuitError::CallerMisuse)
    } else {
        match gate_output(g, v) {
            None => Err(CircuitError::UnsatisfiedWitness),
            Some(x) => if v[gate_out(g) as int] is Some && v[gate_out(g) as int]->0 != x {
                Err(CircuitError::ConstraintViolation)
            } else {
                Ok(v.update(gate_out(g) as int, Some(x)))
            },
        }
    }
}

/// Applies the gates in order, stopping at the first failure.
pub open spec fn run(gates: Seq<Gate>, v: Seq<Option<u64>>) -> Result<Seq<Option<u64>>, CircuitError>
    decreases gates.len(),
{
    if gates.len() == 0 {
        Ok(v)
    } else {
        match run(gates.drop_last(), v) {
            Ok(u) => step(gates.last(), u),
            Err(e) => Err(e),
        }
    }
}

/// Every entry of `v` is assigned.
pub open spec fn all_assigned(v: Seq<Option<u64>>) -> bool {
    forall|i: int| 0 <= i < v.len() ==> #[trigger] v[i] is Some
}

/// The circuit's public inputs and slot wires are wires of the circuit, as
/// [`CompiledCircuit::wf`] guarantees.
pub open spec fn shape_ok(c: &CompiledCircuit) -> bool {
    &&& forall|k: int| 0 <= k < c.public_inputs@.len() ==> #[trigger] c.public_inputs@[k] < c.num_wires
    &&& forall|j: int| 0 <= j < c.slots@.len() ==> (#[trigger] c.slots@[j]).first_wire + c.slots@[j].arity <= c.num_wires
}

/// The proof `p` bound to slot `j` of `c` verifies, and was prepared against
/// the circuit that the slot checks.
pub open spec fn bound_ok(c: &CompiledCircuit, j: int, p: InnerProof) -> bool {
    p.valid() && p.circuit() == c.embedded@[j].view()
}

/// The proof `p` bound to slot `s` carries, in order, the values that the
/// full assignment `full` gives the slot's wires.
pub open spec fn slot_matches(s: ProofSlot, p: InnerProof, full: Seq<u64>) -> bool {
    &&& p.carried().len() == s.arity
    &&& forall|k: int| 0 <= k < s.arity ==> full[s.first_wire + k] == #[trigger] p.carried()[k]
}

/// What proving `c` on `w` gives: the full assignment, or the error.
pub open spec fn outcome(c: &CompiledCircuit, w: &Witness) -> Result<Seq<u64>, CircuitError> {
    if w.values@.len() != c.num_wires || w.proofs@.len() != c.slots@.len() || c.embedded@.len()
        != c.slots@.len() || !shape_ok(c) {
        Err(CircuitError::CallerMisuse)
    } else {
        match run(c.gates@, w.values@) {
            Err(e) => Err(e),
            Ok(v) => if !all_assigned(v) {
                Err(CircuitError::UnsatisfiedWitness)
            } else if exists|j: int| 0 <= j < w.proofs@.len() && #[trigger] w.proofs@[j] is None {
                Err(CircuitError::UnsatisfiedWitness)
            } else if exists|j: int| 0 <= j < w.proofs@.len() && !bound_ok(c, j, (#[trigger] w.proofs@[j])->0) {
                Err(CircuitError::ConstraintViolation)
            } else if exists|j: int|
                0 <= j < w.proofs@.len() && !slot_matches(
                    c.slots@[j],
                    (#[trigger] w.proofs@[j])->0,
                    v.map_values(|o: Option<u64>| o->0),
                ) {
                Err(CircuitError::ConstraintViolation)
            } else {
                Ok(v.map_values(|o: Option<u64>| o->0))
            },
        }
    }
}

/// The values of the public inputs of `c` under the full assignment `full`,
/// in registration order.
pub open spec fn public_values(c: &CompiledCircuit, full: Seq<u64>) -> Seq<u64> {
    c.public_inputs@.map_values(|k: usize| full[k as int])
}

/// A witness accepted by the prover's check: every wire's value, and the
/// public inputs in registration order.
pub struct Assignment {
    pub values: Vec<u64>,
    pub public_inputs: Vec<u64>,
}

proof fn lemma_run_err(gates: Seq<Gate>, v: Seq<Option<u64>>, i: int, e: CircuitError)
    requires
        0 <= i <= gates.len(),
        run(gates.take(i), v) == Err::<Seq<Option<u64>>, CircuitError>(e),
    ensures
        run(gates, v) == Err::<Seq<Option<u64>>, CircuitError>(e),
    decreases gates.len() - i,
{
    if i < gates.len() {
        assert(gates.take(i + 1).drop_last() =~= gates.take(i));
        lemma_run_err(gates, v, i + 1, e);
    } else {
        assert(gates.take(i) =~= gates);
    }
}

/// Stores `x` as the value of wire `out`, unless `out` holds another value.
fn store(v: &mut Vec<Option<u64>>, out: usize, x: u64) -> (r: Result<(), CircuitError>)
    requires
        out < old(v)@.len(),
    ensures
        old(v)@[out as int] is Some && old(v)@[out as int]->0 != x ==> {
            &&& r == Err::<(), CircuitError>(CircuitError::ConstraintViolation)
            &&& final(v)@ == old(v)@
        },
        !(old(v)@[out as int] is Some && old(v)@[out as int]->0 != x) ==> {
            &&& r is Ok
            &&& final(v)@ == old(v)@.update(out as int, Some(x))
        },
{
    match v[out] {
        Some(y) => if y != x {
            return Err(CircuitError::ConstraintViolation);
        },
        None => {},
    }
    v[out] = Some(x);
    Ok(())
}

/// Applies gate `g` to `v` in place, as [`step`] says.
fn apply_gate(g: Gate, v: &mut Vec<Option<u64>>) -> (r: Result<(), CircuitError>)
    ensures
        step(g, old(v)@) is Ok ==> r is Ok && final(v)@ == step(g, old(v)@)->Ok_0,
        step(g, old(v)@) is Err ==> r == Err::<(), CircuitError>(step(g, old(v)@)->Err_0),
{
    let n = v.len();
    match g {
        Gate::Add { lhs, rhs, out } => {
            if lhs >= n || rhs >= n || out >= n {
                return Err(CircuitError::CallerMisuse);
            }
            match (v[lhs], v[rhs]) {
                (Some(a), Some(b)) => store(v, out, field_add(a, b)),
                _ => Err(CircuitError::UnsatisfiedWitness),
            }
        },
        Gate::Mul { lhs, rhs, out } => {
            if lhs >= n || rhs >= n || out >= n {
                return Err(CircuitError::CallerMisuse);
            }
            match (v[lhs], v[rhs]) {
                (Some(a), Some(b)) => store(v, out, field_mul(a, b)),
                _ => Err(CircuitError::UnsatisfiedWitness),
            }
        },
        Gate::Constant { out, value } => {
            if out >= n || value >= ORDER {
                return Err(CircuitError::CallerMisuse);
            }
            store(v, out, value)
        },
    }
}

impl CompiledCircuit {
    /// Checks `w` against the circuit: applies the gates in order to complete
    /// it, then asks that every wire and slot be assigned, every embedded
    /// proof verify, and each slot's wires hold the public inputs of the proof
    /// bound to it. On success returns the full assignment and the public
    /// inputs; the commitment backend proves from these. A circuit whose
    /// public inputs or slots name unknown wires is refused as misuse.
    pub fn prove(&self, w: &Witness) -> (r: Result<Assignment, CircuitError>)
        ensures
            outcome(self, w) is Ok ==> {
                &&& r is Ok
                &&& r->Ok_0.values@ == outcome(self, w)->Ok_0
                &&& r->Ok_0.public_inputs@ == public_values(self, outcome(self, w)->Ok_0)
            },
            outcome(self, w) is Err ==> r == Err::<Assignment, CircuitError>(outcome(self, w)->Err_0),
            self.wf() && r is Ok ==> satisfies(self.gates@, r->Ok_0.values@) && extends(w.values@, r->Ok_0.values@),
            self.wf() && w.wf() && r is Ok ==> accepts(self, r->Ok_0.public_inputs@, true),
    {
        if w.values.len() != self.num_wires || w.proofs.len() != self.slots.len() || self.embedded.len()
            != self.slots.len() {
            return Err(CircuitError::CallerMisuse);
        }
        let mut q: usize = 0;
        while q < self.public_inputs.len()
            invariant
                0 <= q <= self.public_inputs@.len(),
                forall|k: int| 0 <= k < q ==> #[trigger] self.public_inputs@[k] < self.num_wires,
            decreases self.public_inputs@.len() - q,
        {
            if self.public_inputs[q] >= self.num_wires {
                return Err(CircuitError::CallerMisuse);
            }
            q = q + 1;
        }
        let mut z: usize = 0;
        while z < self.slots.len()
            invariant
                0 <= z <= self.slots@.len(),
                forall|k: int| 0 <= k < self.public_inputs@.len() ==> #[trigger] self.public_inputs@[k] < self.num_wires,
                forall|j: int| 0 <= j < z ==> (#[trigger] self.slots@[j]).first_wire + self.slots@[j].arity <= self.num_wires,
            decreases self.slots@.len() - z,
        {
            let sl = self.slots[z];
            if sl.first_wire > self.num_wires || sl.arity > self.num_wires - sl.first_wire {
                return Err(CircuitError::CallerMisuse);
            }
            z = z + 1;
        }
        assert(shape_ok(self));
        let mut v: Vec<Option<u64>> = Vec::new();
        let mut k: usize = 0;
        while k < w.values.len()
            invariant
                0 <= k <= w.values@.len(),
                shape_ok(self),
                self.embedded@.len() == self.slots@.len(),
                w.values@.len() == self.num_wires,
                w.proofs@.len() == self.slots@.len(),
                v@ == w.values@.take(k as int),
            decreases w.values@.len() - k,
        {
            v.push(w.values[k]);
            k = k + 1;
            proof {
                assert(v@ =~= w.values@.take(k as int));
            }
        }
        assert(v@ =~= w.values@);
        assert(self.gates@.take(0) =~= Seq::<Gate>::empty());
        let mut i: usize = 0;
        while i < self.gates.len()
            invariant
                0 <= i <= self.gates@.len(),
                v@.len() == self.num_wires,
                shape_ok(self),
                self.embedded@.len() == self.slots@.len(),
                w.values@.len() == self.num_wires,
                w.proofs@.len() == self.slots@.len(),
                run(self.gates@.take(i as int), w.values@) == Ok::<Seq<Option<u64>>, CircuitError>(v@),
            decreases self.gates@.len() - i,
        {
            let g = self.gates[i];
            proof {
                assert(self.gates@.take(i + 1).drop_last() =~= self.gates@.take(i as int));
                assert(self.gates@.take(i + 1).last() == g);
            }
            match apply_gate(g, &mut v) {
                Err(e) => {
                    proof {
                        lemma_run_err(self.gates@, w.values@, i + 1, e);
                    }
                    return Err(e);
                },
                Ok(()) => {},
            }
            i = i + 1;
        }
        assert(self.gates@.take(self.gates@.len() as int) =~= self.gates@);
        let mut j: usize = 0;
        while j < v.len()
            invariant
                0 <= j <= v@.len(),
                shape_ok(self),
                self.embedded@.len() == self.slots@.len(),
                w.values@.len() == self.num_wires,
                w.proofs@.len() == self.slots@.len(),
                run(self.gates@, w.values@) == Ok::<Seq<Option<u64>>, CircuitError>(v@),
                v@.len() == self.num_wires,
                forall|a: int| 0 <= a < j ==> #[trigger] v@[a] is Some,
            decreases v@.len() - j,
        {
            if v[j].is_none() {
                return Err(CircuitError::UnsatisfiedWitness);
            }
            j = j + 1;
        }
        let mut s: usize = 0;
        while s < w.proofs.len()
            invariant
                0 <= s <= w.proofs@.len(),
                all_assigned(v@),
                shape_ok(self),
                self.embedded@.len() == self.slots@.len(),
                w.values@.len() == self.num_wires,
                w.proofs@.len() == self.slots@.len(),
                run(self.gates@, w.values@) == Ok::<Seq<Option<u64>>, CircuitError>(v@),
                v@.len() == self.num_wires,
                forall|a: int| 0 <= a < s ==> #[trigger] w.proofs@[a] is Some,
            decreases w.proofs@.len() - s,
        {
            if w.proofs[s].is_none() {
                return Err(CircuitError::UnsatisfiedWitness);
            }
            s = s + 1;
        }
        let mut t: usize = 0;
        while t < w.proofs.len()
            invariant
                0 <= t <= w.proofs@.len(),
                all_assigned(v@),
                shape_ok(self),
                self.embedded@.len() == self.slots@.len(),
                w.values@.len() == self.num_wires,
                w.proofs@.len() == self.slots@.len(),
                run(self.gates@, w.values@) == Ok::<Seq<Option<u64>>, CircuitError>(v@),
                v@.len() == self.num_wires,
                forall|a: int| 0 <= a < w.proofs@.len() ==> #[trigger] w.proofs@[a] is Some,
                forall|a: int| 0 <= a < t ==> bound_ok(self, a, (#[trigger] w.proofs@[a])->0),
            decreases w.proofs@.len() - t,
        {
            match &w.proofs[t] {
                Some(p) => if !p.verifies() || !p.circuit_shape().same(&self.embedded[t]) {
                    return Err(CircuitError::ConstraintViolation);
                },
                None => {},
            }
            t = t + 1;
        }
        let ghost full = v@.map_values(|o: Option<u64>| o->0);
        let mut values: Vec<u64> = Vec::new();
        let mut a: usize = 0;
        while a < v.len()
            invariant
                0 <= a <= v@.len(),
                v@.len() == self.num_wires,
                all_assigned(v@),
                values@ == full.take(a as int),
                full == v@.map_values(|o: Option<u64>| o->0),
            decreases v@.len() - a,
        {
            match v[a] {
                Some(x) => values.push(x),
                None => {},
            }
            a = a + 1;
            proof {
                assert(values@ =~= full.take(a as int));
            }
        }
        assert(values@ =~= full);
        let mut m: usize = 0;
        while m < w.proofs.len()
            invariant
                0 <= m <= w.proofs@.len(),
                shape_ok(self),
                self.embedded@.len() == self.slots@.len(),
                values@ == full,
                values@.len() == self.num_wires,
                w.proofs@.len() == self.slots@.len(),
                forall|a: int| 0 <= a < w.proofs@.len() ==> #[trigger] w.proofs@[a] is Some,
                forall|a: int| 0 <= a < m ==> slot_matches(self.slots@[a], (#[trigger] w.proofs@[a])->0, full),
                run(self.gates@, w.values@) == Ok::<Seq<Option<u64>>, CircuitError>(v@),
                all_assigned(v@),
                full == v@.map_values(|o: Option<u64>| o->0),
                w.values@.len() == self.num_wires,
                forall|a: int| 0 <= a < w.proofs@.len() ==> bound_ok(self, a, (#[trigger] w.proofs@[a])->0),
            decreases w.proofs@.len() - m,
        {
            let sl = self.slots[m];
            match &w.proofs[m] {
                Some(p) => {
                    assert(w.proofs@[m as int] == Some(*p));
                    let pis = p.public_inputs();
                    if pis.len() != sl.arity {
                        return Err(CircuitError::ConstraintViolation);
                    }
                    let mut k: usize = 0;
                    while k < sl.arity
                        invariant
                            0 <= k <= sl.arity,
                            0 <= m < w.proofs@.len(),
                            w.proofs@.len() == self.slots@.len(),
                            sl == self.slots@[m as int],
                            w.proofs@[m as int] == Some(*p),
                            shape_ok(self),
                            self.embedded@.len() == self.slots@.len(),
                self.embedded@.len() == self.slots@.len(),
                            forall|a: int| 0 <= a < w.proofs@.len() ==> #[trigger] w.proofs@[a] is Some,
                            forall|a: int| 0 <= a < m ==> slot_matches(self.slots@[a], (#[trigger] w.proofs@[a])->0, full),
                            run(self.gates@, w.values@) == Ok::<Seq<Option<u64>>, CircuitError>(v@),
                            all_assigned(v@),
                            full == v@.map_values(|o: Option<u64>| o->0),
                            w.values@.len() == self.num_wires,
                            forall|a: int| 0 <= a < w.proofs@.len() ==> bound_ok(self, a, (#[trigger] w.proofs@[a])->0),

                            sl.first_wire + sl.arity <= self.num_wires,
                            pis@ == p.carried(),
                            pis@.len() == sl.arity,
                            values@ == full,
                            values@.len() == self.num_wires,
                            forall|b: int| 0 <= b < k ==> full[sl.first_wire + b] == #[trigger] pis@[b],
                        decreases sl.arity - k,
                    {
                        let idx: usize = sl.first_wire + k;
                        if values[idx] != pis[k] {
                            return Err(CircuitError::ConstraintViolation);
                        }
                        k = k + 1;
                    }
                },
                None => {},
            }
            m = m + 1;
        }
        let mut public_inputs: Vec<u64> = Vec::new();
        let mut b: usize = 0;
        while b < self.public_inputs.len()
            invariant
                0 <= b <= self.public_inputs@.len(),
                shape_ok(self),
                self.embedded@.len() == self.slots@.len(),
                values@.len() == self.num_wires,
                public_inputs@ == public_values(self, values@).take(b as int),
            decreases self.public_inputs@.len() - b,
        {
            let k = self.public_inputs[b];
            public_inputs.push(values[k]);
            b = b + 1;
            proof {
                assert(public_inputs@ =~= public_values(self, values@).take(b as int));
            }
        }
        assert(public_inputs@ =~= public_values(self, values@));
        proof {
            if self.wf() {
                law_accepted_witness_satisfies(self, w);
                if w.wf() {
                    law_proved_public_inputs_accepted(self, w);
                }
            }
        }
        Ok(Assignment { values, public_inputs })
    }
}

} // verus!
