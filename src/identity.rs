//! The identity of a compiled circuit, as recorded by a circuit that checks
//! its proofs and by a proof prepared against it.
use crate::circuit::{CompiledCircuit, Gate, HashKind, ProofSlot};
use vstd::prelude::*;

verus! {

/// What identifies a circuit: its hash, its wires, its gates, its public
/// inputs and its proof slots.
pub type ShapeView = (HashKind, usize, Seq<Gate>, Seq<usize>, Seq<ProofSlot>);

/// A copy of a compiled circuit's identifying data.
pub struct CircuitShape {
    pub hash: HashKind,
    pub num_wires: usize,
    pub gates: Vec<Gate>,
    pub public_inputs: Vec<usize>,
    pub slots: Vec<ProofSlot>,
}

impl CircuitShape {
    pub open spec fn view(&self) -> ShapeView {
        (self.hash, self.num_wires, self.gates@, self.public_inputs@, self.slots@)
    }

    /// Whether two shapes identify the same circuit.
    pub fn same(&self, other: &CircuitShape) -> (r: bool)
        ensures
            r == (self.view() == other.view()),
    {
        self.hash == other.hash && self.num_wires == other.num_wires && same_gates(&self.gates, &other.gates)
            && same_indices(&self.public_inputs, &other.public_inputs) && same_slots(
            &self.slots,
            &other.slots,
        )
    }
}

impl CompiledCircuit {
    /// The identifying data of the circuit.
    pub open spec fn shape_view(&self) -> ShapeView {
        (self.hash, self.num_wires, self.gates@, self.public_inputs@, self.slots@)
    }

    /// A copy of the circuit's identifying data.
    pub fn shape(&self) -> (r: CircuitShape)
        ensures
            r.view() == self.shape_view(),
    {
        CircuitShape {
            hash: self.hash,
            num_wires: self.num_wires,
            gates: copy_vec(&self.gates),
            public_inputs: copy_vec(&self.public_inputs),
            slots: copy_vec(&self.slots),
        }
    }
}

/// A copy of `v`.
pub fn copy_vec<T: Copy>(v: &Vec<T>) -> (r: Vec<T>)
    ensures
        r@ == v@,
{
    let mut r: Vec<T> = Vec::new();
    let mut i: usize = 0;
    while i < v.len()
        invariant
            0 <= i <= v@.len(),
            r@ == v@.take(i as int),
        decreases v@.len() - i,
    {
        r.push(v[i]);
        i = i + 1;
        proof {
            assert(r@ =~= v@.take(i as int));
        }
    }
    assert(r@ =~= v@);
    r
}

fn same_gates(a: &Vec<Gate>, b: &Vec<Gate>) -> (r: bool)
    ensures
        r == (a@ == b@),
{
    if a.len() != b.len() {
        return false;
    }
    let mut i: usize = 0;
    while i < a.len()
        invariant
            0 <= i <= a@.len(),
            a@.len() == b@.len(),
            forall|k: int| 0 <= k < i ==> a@[k] == b@[k],
        decreases a@.len() - i,
    {
        if a[i] != b[i] {
            return false;
        }
        i = i + 1;
    }
    assert(a@ =~= b@);
    true
}

fn same_indices(a: &Vec<usize>, b: &Vec<usize>) -> (r: bool)
    ensures
        r == (a@ == b@),
{
    if a.len() != b.len() {
        return false;
    }
    let mut i: usize = 0;
    while i < a.len()
        invariant
            0 <= i <= a@.len(),
            a@.len() == b@.len(),
            forall|k: int| 0 <= k < i ==> a@[k] == b@[k],
        decreases a@.len() - i,
    {
        if a[i] != b[i] {
            return false;
        }
        i = i + 1;
    }
    assert(a@ =~= b@);
    true
}

fn same_slots(a: &Vec<ProofSlot>, b: &Vec<ProofSlot>) -> (r: bool)
    ensures
        r == (a@ == b@),
{
    if a.len() != b.len() {
        return false;
    }
    let mut i: usize = 0;
    while i < a.len()
        invariant
            0 <= i <= a@.len(),
            a@.len() == b@.len(),
            forall|k: int| 0 <= k < i ==> a@[k] == b@[k],
        decreases a@.len() - i,
    {
        if a[i] != b[i] {
            return false;
        }
        i = i + 1;
    }
    assert(a@ =~= b@);
    true
}

} // verus!
