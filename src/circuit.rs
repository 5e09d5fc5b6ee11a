//! Circuit declaration: wires, constraints, public inputs and embedded
//! proof checks, accumulated by a [`CircuitBuilder`] and frozen into a
//! [`CompiledCircuit`] by [`CircuitBuilder::build`].
use crate::field::{is_canonical, reduce, reduce_spec};
use crate::identity::{CircuitShape, ShapeView};
use vstd::prelude::*;

verus! {

/// The error classes of the library.
#[derive(Clone, Copy, Debug, PartialEq, Eq, Structural)]
pub enum CircuitError {
    /// An unknown wire or slot, a repeated public input, a non-canonical value.
    CallerMisuse,
    /// A wire or an embedded proof that the constraints need has no value.
    UnsatisfiedWitness,
    /// The witness values break a constraint, or an embedded proof is invalid.
    ConstraintViolation,
    /// A proof is rejected by the verifier.
    InvalidProof,
    /// The chosen hash cannot support the requested operation (recursion).
    ConfigurationIncompatible,
}

/// The hash used by the commitment scheme of a circuit.
#[derive(Clone, Copy, Debug, PartialEq, Eq, Structural)]
pub enum HashKind {
    /// An algebraic hash; circuits using it can be verified inside circuits.
    Poseidon,
    /// A bit-oriented hash; circuits using it cannot take part in recursion.
    Keccak,
}

/// Whether proofs of a circuit committed with `h` can be checked in a circuit,
/// and whether a circuit committed with `h` can check other proofs.
pub open spec fn recursion_friendly(h: HashKind) -> bool {
    h == HashKind::Poseidon
}

/// An identifier of an unknown value of a circuit: its allocation index.
#[derive(Clone, Copy, Debug, PartialEq, Eq, Structural)]
pub struct Wire {
    pub index: usize,
}

/// A place in a circuit for a proof of another circuit, checked in circuit.
#[derive(Clone, Copy, Debug, PartialEq, Eq, Structural)]
pub struct ProofSlot {
    /// The position of the slot among the circuit's slots.
    pub index: usize,
    /// How many public inputs a proof of the embedded circuit carries.
    pub arity: usize,
    /// The first of the `arity` consecutive wires of this circuit that hold
    /// the embedded proof's public inputs.
    pub first_wire: usize,
}

impl ProofSlot {
    /// The wire holding the `k`-th public input of the embedded proof; fails
    /// when the embedded proof has no `k`-th public input.
    pub fn public_input(self, k: usize) -> (r: Result<Wire, CircuitError>)
        ensures
            k < self.arity && self.first_wire + k <= usize::MAX ==> r == Ok::<Wire, CircuitError>(
                Wire { index: (self.first_wire + k) as usize },
            ),
            !(k < self.arity && self.first_wire + k <= usize::MAX) ==> r == Err::<Wire, CircuitError>(
                CircuitError::CallerMisuse,
            ),
    {
        if k >= self.arity || self.first_wire > usize::MAX - k {
            return Err(CircuitError::CallerMisuse);
        }
        Ok(Wire { index: self.first_wire + k })
    }
}

/// A constraint, which also defines the value of its output wire.
#[derive(Clone, Copy, Debug, PartialEq, Eq, Structural)]
pub enum Gate {
    /// `out = lhs + rhs`
    Add { lhs: usize, rhs: usize, out: usize },
    /// `out = lhs * rhs`
    Mul { lhs: usize, rhs: usize, out: usize },
    /// `out = value`
    Constant { out: usize, value: u64 },
}

/// The output wire of a gate.
pub open spec fn gate_out(g: Gate) -> usize {
    match g {
        Gate::Add { out, .. } => out,
        Gate::Mul { out, .. } => out,
        Gate::Constant { out, .. } => out,
    }
}

/// Every wire that `g` names is below `n`.
pub open spec fn gate_in_range(g: Gate, n: int) -> bool {
    match g {
        Gate::Add { lhs, rhs, out } => lhs < n && rhs < n && out < n,
        Gate::Mul { lhs, rhs, out } => lhs < n && rhs < n && out < n,
        Gate::Constant { out, value } => out < n && is_canonical(value),
    }
}

/// The value that `g` gives its output, once its inputs are known in `v`.
pub open spec fn gate_output(g: Gate, v: Seq<Option<u64>>) -> Option<u64> {
    match g {
        Gate::Add { lhs, rhs, .. } => if v[lhs as int] is Some && v[rhs as int] is Some {
            Some(reduce_spec(v[lhs as int]->0 + v[rhs as int]->0))
        } else {
            None
        },
        Gate::Mul { lhs, rhs, .. } => if v[lhs as int] is Some && v[rhs as int] is Some {
            Some(reduce_spec(v[lhs as int]->0 * v[rhs as int]->0))
        } else {
            None
        },
        Gate::Constant { value, .. } => Some(value),
    }
}

/// A circuit in the making. Wires are numbered in allocation order; each gate
/// defines a wire allocated with it, from wires allocated before.
pub struct CircuitBuilder {
    pub hash: HashKind,
    pub num_wires: usize,
    pub gates: Vec<Gate>,
    pub public_inputs: Vec<usize>,
    /// The proof slots, in the order they were added.
    pub slots: Vec<ProofSlot>,
    /// For each slot, the circuit whose proofs it checks.
    pub embedded: Vec<CircuitShape>,
}

/// A finalized circuit; nothing changes it after [`CircuitBuilder::build`].
pub struct CompiledCircuit {
    pub hash: HashKind,
    pub num_wires: usize,
    pub gates: Vec<Gate>,
    pub public_inputs: Vec<usize>,
    pub slots: Vec<ProofSlot>,
    pub embedded: Vec<CircuitShape>,
}

/// `g` reads only wires numbered below its output.
pub open spec fn inputs_before_output(g: Gate) -> bool {
    match g {
        Gate::Add { lhs, rhs, out } => lhs < out && rhs < out,
        Gate::Mul { lhs, rhs, out } => lhs < out && rhs < out,
        Gate::Constant { .. } => true,
    }
}

/// The well-formedness shared by builders and compiled circuits: gates name
/// known wires and only earlier ones as inputs, gate outputs increase along
/// the gates, public inputs are known and distinct.
pub open spec fn layout_wf(num_wires: int, gates: Seq<Gate>, public_inputs: Seq<usize>) -> bool {
    &&& forall|k: int| 0 <= k < gates.len() ==> #[trigger] gate_in_range(gates[k], num_wires)
    &&& forall|k: int| 0 <= k < gates.len() ==> #[trigger] inputs_before_output(gates[k])
    &&& forall|k: int, j: int|
        0 <= k < j < gates.len() ==> gate_out(#[trigger] gates[k]) < gate_out(#[trigger] gates[j])
    &&& forall|k: int| 0 <= k < public_inputs.len() ==> #[trigger] public_inputs[k] < num_wires
    &&& forall|k: int, j: int|
        0 <= k < j < public_inputs.len() ==> #[trigger] public_inputs[k] != #[trigger] public_inputs[j]
}

/// Every slot's wires are wires of the circuit, and each slot records its
/// own position.
pub open spec fn slots_in_range(num_wires: int, slots: Seq<ProofSlot>) -> bool {
    forall|j: int| 0 <= j < slots.len() ==> (#[trigger] slots[j]).first_wire + slots[j].arity <= num_wires
        && slots[j].index == j
}

/// Whether `w` is an entry of `s`.
pub open spec fn contains_index(s: Seq<usize>, w: usize) -> bool {
    exists|k: int| 0 <= k < s.len() && s[k] == w
}

impl CircuitBuilder {
    pub open spec fn wf(&self) -> bool {
        &&& layout_wf(self.num_wires as int, self.gates@, self.public_inputs@)
        &&& forall|k: int| 0 <= k < self.gates@.len() ==> gate_out(#[trigger] self.gates@[k]) < self.num_wires
        &&& slots_in_range(self.num_wires as int, self.slots@)
        &&& self.embedded@.len() == self.slots@.len()
    }

    /// An empty circuit whose proofs are committed with `hash`.
    pub fn new(hash: HashKind) -> (r: CircuitBuilder)
        ensures
            r.wf(),
            r.hash == hash,
            r.num_wires == 0,
            r.gates@ == Seq::<Gate>::empty(),
            r.public_inputs@ == Seq::<usize>::empty(),
            r.slots@ == Seq::<ProofSlot>::empty(),
    {
        CircuitBuilder {
            hash,
            num_wires: 0,
            gates: Vec::new(),
            public_inputs: Vec::new(),
            slots: Vec::new(),
            embedded: Vec::new(),
        }
    }

    /// Allocates a fresh wire whose value the witness must supply.
    pub fn add_virtual_target(&mut self) -> (r: Wire)
        requires
            old(self).wf(),
            old(self).num_wires < usize::MAX,
        ensures
            final(self).wf(),
            r.index == old(self).num_wires,
            final(self).num_wires == old(self).num_wires + 1,
            final(self).gates@ == old(self).gates@,
            final(self).public_inputs@ == old(self).public_inputs@,
            final(self).slots@ == old(self).slots@,
            final(self).hash == old(self).hash,
    {
        let r = Wire { index: self.num_wires };
        self.num_wires = self.num_wires + 1;
        proof {
            let gs = self.gates@;
            assert forall|k: int| 0 <= k < gs.len() implies #[trigger] gate_in_range(gs[k], self.num_wires as int) by {
                assert(gate_in_range(gs[k], old(self).num_wires as int));
            }
        }
        r
    }

    /// Appends gate `g`, whose output is a freshly allocated wire.
    fn push_gate(&mut self, g: Gate)
        requires
            old(self).wf(),
            old(self).num_wires < usize::MAX,
            gate_out(g) == old(self).num_wires,
            gate_in_range(g, old(self).num_wires + 1),
            inputs_before_output(g),
        ensures
            final(self).wf(),
            final(self).num_wires == old(self).num_wires + 1,
            final(self).gates@ == old(self).gates@.push(g),
            final(self).public_inputs@ == old(self).public_inputs@,
            final(self).slots@ == old(self).slots@,
            final(self).hash == old(self).hash,
    {
        self.num_wires = self.num_wires + 1;
        self.gates.push(g);
        proof {
            let gs = self.gates@;
            assert forall|k: int| 0 <= k < gs.len() implies #[trigger] gate_in_range(gs[k], self.num_wires as int) by {
                if k < gs.len() - 1 {
                    assert(gate_in_range(old(self).gates@[k], old(self).num_wires as int));
                }
            }
            assert forall|k: int| 0 <= k < gs.len() implies #[trigger] inputs_before_output(gs[k]) by {
                if k < gs.len() - 1 {
                    assert(gs[k] == old(self).gates@[k]);
                }
            }
            assert forall|k: int, j: int| 0 <= k < j < gs.len() implies gate_out(#[trigger] gs[k]) < gate_out(#[trigger] gs[j]) by {
                if j == gs.len() - 1 {
                    assert(gate_out(old(self).gates@[k]) < old(self).num_wires);
                } else {
                    assert(gs[k] == old(self).gates@[k] && gs[j] == old(self).gates@[j]);
                }
            }
            assert forall|k: int| 0 <= k < gs.len() implies gate_out(#[trigger] gs[k]) < self.num_wires by {
                if k < gs.len() - 1 {
                    assert(gs[k] == old(self).gates@[k]);
                }
            }
        }
    }

    /// A wire bound to the constant `value`, reduced modulo the field order.
    pub fn constant(&mut self, value: u64) -> (r: Wire)
        requires
            old(self).wf(),
            old(self).num_wires < usize::MAX,
        ensures
            final(self).wf(),
            r.index == old(self).num_wires,
            final(self).num_wires == old(self).num_wires + 1,
            final(self).gates@ == old(self).gates@.push(
                Gate::Constant { out: r.index, value: reduce_spec(value as int) },
            ),
            final(self).public_inputs@ == old(self).public_inputs@,
            final(self).slots@ == old(self).slots@,
            final(self).hash == old(self).hash,
    {
        let out = self.num_wires;
        let v = reduce(value);
        self.push_gate(Gate::Constant { out, value: v });
        Wire { index: out }
    }

    /// A new wire constrained to `x + y`; fails on a wire this builder never made.
    pub fn add(&mut self, x: Wire, y: Wire) -> (r: Result<Wire, CircuitError>)
        requires
            old(self).wf(),
            old(self).num_wires < usize::MAX,
        ensures
            final(self).wf(),
            final(self).hash == old(self).hash,
            final(self).public_inputs@ == old(self).public_inputs@,
            final(self).slots@ == old(self).slots@,
            x.index < old(self).num_wires && y.index < old(self).num_wires ==> {
                &&& r == Ok::<Wire, CircuitError>(Wire { index: old(self).num_wires })
                &&& final(self).num_wires == old(self).num_wires + 1
                &&& final(self).gates@ == old(self).gates@.push(
                    Gate::Add { lhs: x.index, rhs: y.index, out: old(self).num_wires },
                )
            },
            !(x.index < old(self).num_wires && y.index < old(self).num_wires) ==> {
                &&& r == Err::<Wire, CircuitError>(CircuitError::CallerMisuse)
                &&& final(self).num_wires == old(self).num_wires
                &&& final(self).gates@ == old(self).gates@
            },
    {
        if x.index >= self.num_wires || y.index >= self.num_wires {
            return Err(CircuitError::CallerMisuse);
        }
        let out = self.num_wires;
        self.push_gate(Gate::Add { lhs: x.index, rhs: y.index, out });
        Ok(Wire { index: out })
    }

    /// A new wire constrained to `x * y`; fails on a wire this builder never made.
    pub fn mul(&mut self, x: Wire, y: Wire) -> (r: Result<Wire, CircuitError>)
        requires
            old(self).wf(),
            old(self).num_wires < usize::MAX,
        ensures
            final(self).wf(),
            final(self).hash == old(self).hash,
            final(self).public_inputs@ == old(self).public_inputs@,
            final(self).slots@ == old(self).slots@,
            x.index < old(self).num_wires && y.index < old(self).num_wires ==> {
                &&& r == Ok::<Wire, CircuitError>(Wire { index: old(self).num_wires })
                &&& final(self).num_wires == old(self).num_wires + 1
                &&& final(self).gates@ == old(self).gates@.push(
                    Gate::Mul { lhs: x.index, rhs: y.index, out: old(self).num_wires },
                )
            },
            !(x.index < old(self).num_wires && y.index < old(self).num_wires) ==> {
                &&& r == Err::<Wire, CircuitError>(CircuitError::CallerMisuse)
                &&& final(self).num_wires == old(self).num_wires
                &&& final(self).gates@ == old(self).gates@
            },
    {
        if x.index >= self.num_wires || y.index >= self.num_wires {
            return Err(CircuitError::CallerMisuse);
        }
        let out = self.num_wires;
        self.push_gate(Gate::Mul { lhs: x.index, rhs: y.index, out });
        Ok(Wire { index: out })
    }

    /// Appends `w` to the ordered public inputs. Fails on a wire this builder
    /// never made, or one already public.
    pub fn register_public_input(&mut self, w: Wire) -> (r: Result<(), CircuitError>)
        requires
            old(self).wf(),
        ensures
            final(self).wf(),
            final(self).hash == old(self).hash,
            final(self).num_wires == old(self).num_wires,
            final(self).gates@ == old(self).gates@,
            final(self).slots@ == old(self).slots@,
            w.index < old(self).num_wires && !contains_index(old(self).public_inputs@, w.index) ==> {
                &&& r is Ok
                &&& final(self).public_inputs@ == old(self).public_inputs@.push(w.index)
            },
            !(w.index < old(self).num_wires && !contains_index(old(self).public_inputs@, w.index)) ==> {
                &&& r == Err::<(), CircuitError>(CircuitError::CallerMisuse)
                &&& final(self).public_inputs@ == old(self).public_inputs@
            },
    {
        if w.index >= self.num_wires {
            return Err(CircuitError::CallerMisuse);
        }
        let mut k: usize = 0;
        while k < self.public_inputs.len()
            invariant
                0 <= k <= self.public_inputs@.len(),
                forall|j: int| 0 <= j < k ==> self.public_inputs@[j] != w.index,
                self.wf(),
                w.index < self.num_wires,
                self.hash == old(self).hash,
                self.num_wires == old(self).num_wires,
                self.gates@ == old(self).gates@,
                self.public_inputs@ == old(self).public_inputs@,
                self.slots@ == old(self).slots@,
            decreases self.public_inputs@.len() - k,
        {
            if self.public_inputs[k] == w.index {
                return Err(CircuitError::CallerMisuse);
            }
            k = k + 1;
        }
        self.public_inputs.push(w.index);
        proof {
            let ps = self.public_inputs@;
            let ops = old(self).public_inputs@;
            assert forall|a: int, b: int| 0 <= a < b < ps.len() implies #[trigger] ps[a] != #[trigger] ps[b] by {
                if b < ps.len() - 1 {
                    assert(ps[a] == ops[a] && ps[b] == ops[b]);
                } else {
                    assert(ps[a] == ops[a]);
                }
            }
            assert forall|a: int| 0 <= a < ps.len() implies #[trigger] ps[a] < self.num_wires by {
                if a < ps.len() - 1 {
                    assert(ps[a] == ops[a]);
                }
            }
        }
        Ok(())
    }

    /// Adds a check, inside this circuit, that a proof of `inner` is valid,
    /// and returns the slot to which the witness binds that proof. The slot
    /// records `inner`'s identity; only a proof prepared against a circuit of
    /// that identity passes the check. The
    /// proof's public inputs get fresh wires of this circuit, in order. Both
    /// circuits must use a hash that supports recursion.
    pub fn add_proof_check(&mut self, inner: &CompiledCircuit) -> (r: Result<ProofSlot, CircuitError>)
        requires
            old(self).wf(),
            old(self).num_wires + inner.public_inputs@.len() <= usize::MAX,
        ensures
            final(self).wf(),
            final(self).hash == old(self).hash,
            final(self).gates@ == old(self).gates@,
            final(self).public_inputs@ == old(self).public_inputs@,
            recursion_friendly(old(self).hash) && recursion_friendly(inner.hash) ==> {
                &&& r == Ok::<ProofSlot, CircuitError>(
                    ProofSlot {
                        index: old(self).slots.len(),
                        arity: inner.public_inputs.len(),
                        first_wire: old(self).num_wires,
                    },
                )
                &&& final(self).slots@ == old(self).slots@.push(r->Ok_0)
                &&& final(self).embedded@.len() == old(self).embedded@.len() + 1
                &&& final(self).embedded@.last().view() == inner.shape_view()
                &&& forall|j: int| 0 <= j < old(self).embedded@.len()
                    ==> #[trigger] final(self).embedded@[j] == old(self).embedded@[j]
                &&& final(self).num_wires == old(self).num_wires + inner.public_inputs@.len()
            },
            !(recursion_friendly(old(self).hash) && recursion_friendly(inner.hash)) ==> {
                &&& r == Err::<ProofSlot, CircuitError>(CircuitError::ConfigurationIncompatible)
                &&& final(self).slots@ == old(self).slots@
                &&& final(self).embedded@ == old(self).embedded@
                &&& final(self).num_wires == old(self).num_wires
            },
    {
        if self.hash != HashKind::Poseidon || inner.hash != HashKind::Poseidon {
            return Err(CircuitError::ConfigurationIncompatible);
        }
        let arity = inner.public_inputs.len();
        let slot = ProofSlot { index: self.slots.len(), arity, first_wire: self.num_wires };
        self.slots.push(slot);
        self.embedded.push(inner.shape());
        self.num_wires = self.num_wires + arity;
        proof {
            let gs = self.gates@;
            assert forall|k: int| 0 <= k < gs.len() implies #[trigger] gate_in_range(gs[k], self.num_wires as int) by {
                assert(gate_in_range(gs[k], old(self).num_wires as int));
            }
        }
        Ok(slot)
    }

    /// Freezes the circuit. The result holds exactly what was declared.
    pub fn build(self) -> (r: CompiledCircuit)
        requires
            self.wf(),
        ensures
            r.wf(),
            r.hash == self.hash,
            r.num_wires == self.num_wires,
            r.gates@ == self.gates@,
            r.public_inputs@ == self.public_inputs@,
            r.slots@ == self.slots@,
            r.embedded@ == self.embedded@,
    {
        CompiledCircuit {
            hash: self.hash,
            num_wires: self.num_wires,
            gates: self.gates,
            public_inputs: self.public_inputs,
            slots: self.slots,
            embedded: self.embedded,
        }
    }

    /// The number of wires allocated so far.
    pub fn num_wires(&self) -> (r: usize)
        ensures
            r == self.num_wires,
    {
        self.num_wires
    }

    /// The number of proof slots added so far.
    pub fn num_proof_slots(&self) -> (r: usize)
        ensures
            r == self.slots@.len(),
    {
        self.slots.len()
    }
}

impl CompiledCircuit {
    pub open spec fn wf(&self) -> bool {
        &&& layout_wf(self.num_wires as int, self.gates@, self.public_inputs@)
        &&& slots_in_range(self.num_wires as int, self.slots@)
        &&& self.embedded@.len() == self.slots@.len()
    }

    /// The identities of the circuits whose proofs the slots check.
    pub open spec fn embedded_views(&self) -> Seq<ShapeView> {
        self.embedded@.map_values(|s: CircuitShape| s.view())
    }

    /// The number of wires of the circuit.
    pub fn num_wires(&self) -> (r: usize)
        ensures
            r == self.num_wires,
    {
        self.num_wires
    }

    /// The number of proof slots of the circuit.
    pub fn num_proof_slots(&self) -> (r: usize)
        ensures
            r == self.slots@.len(),
    {
        self.slots.len()
    }

    /// The number of public inputs of the circuit.
    pub fn num_public_inputs(&self) -> (r: usize)
        ensures
            r == self.public_inputs@.len(),
    {
        self.public_inputs.len()
    }
}

} // verus!
