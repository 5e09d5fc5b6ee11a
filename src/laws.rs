//! Properties of the prover's check, stated over the circuit model and proved.
use crate::circuit::{
    gate_in_range, gate_out, inputs_before_output, layout_wf, CircuitBuilder, CompiledCircuit, Gate,
};
use crate::field::{is_canonical, reduce_spec};
use crate::verification::accepts;
use crate::identity::CircuitShape;
use crate::prover::{all_assigned, bound_ok, outcome, public_values, run, slot_matches, step};
use crate::witness::Witness;
use vstd::prelude::*;

verus! {

/// Gate `g` holds on the full assignment `full`.
pub open spec fn gate_holds(g: Gate, full: Seq<u64>) -> bool {
    match g {
        Gate::Add { lhs, rhs, out } => full[out as int] == reduce_spec(full[lhs as int] + full[rhs as int]),
        Gate::Mul { lhs, rhs, out } => full[out as int] == reduce_spec(full[lhs as int] * full[rhs as int]),
        Gate::Constant { out, value } => full[out as int] == value,
    }
}

/// `full` satisfies every gate.
pub open spec fn satisfies(gates: Seq<Gate>, full: Seq<u64>) -> bool {
    forall|k: int| 0 <= k < gates.len() ==> gate_in_range(#[trigger] gates[k], full.len() as int)
        && gate_holds(gates[k], full)
}

/// `full` agrees with every value assigned in `partial`.
pub open spec fn extends(partial: Seq<Option<u64>>, full: Seq<u64>) -> bool {
    &&& partial.len() == full.len()
    &&& forall|i: int| 0 <= i < partial.len() && #[trigger] partial[i] is Some ==> partial[i]->0 == full[i]
}

/// Every entry assigned in `a` is assigned the same in `b`.
spec fn keeps(a: Seq<Option<u64>>, b: Seq<Option<u64>>) -> bool {
    &&& a.len() == b.len()
    &&& forall|i: int| 0 <= i < a.len() && #[trigger] a[i] is Some ==> b[i] == a[i]
}

/// Gate `g` holds on the partial assignment `u`, all its wires assigned.
spec fn holds_on(g: Gate, u: Seq<Option<u64>>) -> bool {
    match g {
        Gate::Add { lhs, rhs, out } => u[lhs as int] is Some && u[rhs as int] is Some
            && u[out as int] == Some(reduce_spec(u[lhs as int]->0 + u[rhs as int]->0)),
        Gate::Mul { lhs, rhs, out } => u[lhs as int] is Some && u[rhs as int] is Some
            && u[out as int] == Some(reduce_spec(u[lhs as int]->0 * u[rhs as int]->0)),
        Gate::Constant { out, value } => u[out as int] == Some(value),
    }
}

proof fn lemma_holds_kept(g: Gate, a: Seq<Option<u64>>, b: Seq<Option<u64>>)
    requires
        gate_in_range(g, a.len() as int),
        holds_on(g, a),
        keeps(a, b),
    ensures
        holds_on(g, b),
{
    match g {
        Gate::Add { lhs, rhs, out } => {
            assert(a[lhs as int] is Some && a[rhs as int] is Some && a[out as int] is Some);
        },
        Gate::Mul { lhs, rhs, out } => {
            assert(a[lhs as int] is Some && a[rhs as int] is Some && a[out as int] is Some);
        },
        Gate::Constant { out, value } => {
            assert(a[out as int] is Some);
        },
    }
}

proof fn lemma_step_ok(g: Gate, v: Seq<Option<u64>>)
    requires
        step(g, v) is Ok,
    ensures
        keeps(v, step(g, v)->Ok_0),
        gate_in_range(g, v.len() as int),
        holds_on(g, step(g, v)->Ok_0),
{
    let u = step(g, v)->Ok_0;
    match g {
        Gate::Add { lhs, rhs, out } => {
            assert(v[lhs as int] is Some && v[rhs as int] is Some);
            assert(u[lhs as int] == v[lhs as int] && u[rhs as int] == v[rhs as int]);
        },
        Gate::Mul { lhs, rhs, out } => {
            assert(v[lhs as int] is Some && v[rhs as int] is Some);
            assert(u[lhs as int] == v[lhs as int] && u[rhs as int] == v[rhs as int]);
        },
        Gate::Constant { .. } => {},
    }
}

proof fn lemma_run_ok(gates: Seq<Gate>, v: Seq<Option<u64>>)
    requires
        run(gates, v) is Ok,
    ensures
        keeps(v, run(gates, v)->Ok_0),
        forall|k: int| 0 <= k < gates.len() ==> gate_in_range(#[trigger] gates[k], v.len() as int)
            && holds_on(gates[k], run(gates, v)->Ok_0),
    decreases gates.len(),
{
    if gates.len() > 0 {
        let init = gates.drop_last();
        lemma_run_ok(init, v);
        let u0 = run(init, v)->Ok_0;
        let u = run(gates, v)->Ok_0;
        lemma_step_ok(gates.last(), u0);
        assert forall|k: int| 0 <= k < gates.len() implies gate_in_range(#[trigger] gates[k], v.len() as int)
            && holds_on(gates[k], u) by {
            if k < gates.len() - 1 {
                assert(gates[k] == init[k]);
                lemma_holds_kept(gates[k], u0, u);
            }
        }
    }
}

/// Soundness of the prover's check: a witness that it accepts extends to a
/// full assignment that satisfies every gate, and every embedded proof bound
/// to it verifies and carries the values of its slot's wires. So a witness that no such assignment extends is refused.
pub proof fn law_accepted_witness_satisfies(c: &CompiledCircuit, w: &Witness)
    requires
        c.wf(),
    ensures
        outcome(c, w) is Ok ==> {
            let full = outcome(c, w)->Ok_0;
            &&& satisfies(c.gates@, full)
            &&& extends(w.values@, full)
            &&& forall|j: int| 0 <= j < w.proofs@.len() ==> (#[trigger] w.proofs@[j]) is Some
                && bound_ok(c, j, w.proofs@[j]->0) && slot_matches(c.slots@[j], w.proofs@[j]->0, full)
        },
{
    if outcome(c, w) is Ok {
        let full = outcome(c, w)->Ok_0;
        lemma_run_ok(c.gates@, w.values@);
        let u = run(c.gates@, w.values@)->Ok_0;
        assert(all_assigned(u));
        assert forall|k: int| 0 <= k < c.gates@.len() implies gate_in_range(#[trigger] c.gates@[k], full.len() as int)
            && gate_holds(c.gates@[k], full) by {
            assert(holds_on(c.gates@[k], u));
        }
        assert forall|i: int| 0 <= i < w.values@.len() && #[trigger] w.values@[i] is Some
            implies w.values@[i]->0 == full[i] by {
            assert(u[i] == w.values@[i]);
        }
    }
}

/// Wire `i` is the output of one of the gates.
pub open spec fn is_gate_output(gates: Seq<Gate>, i: int) -> bool {
    exists|k: int| 0 <= k < gates.len() && gate_out(#[trigger] gates[k]) == i
}

/// What the prover's check has assigned after the first `k` gates, when the
/// witness `w` is consistent with the satisfying assignment `full`.
spec fn assigned_after(gates: Seq<Gate>, w: Seq<Option<u64>>, full: Seq<u64>, k: int) -> Seq<Option<u64>> {
    Seq::new(
        w.len(),
        |i: int|
            if w[i] is Some || exists|j: int| 0 <= j < k && gate_out(#[trigger] gates[j]) == i {
                Some(full[i])
            } else {
                None
            },
    )
}

proof fn lemma_input_available(
    gates: Seq<Gate>,
    pis: Seq<usize>,
    w: Seq<Option<u64>>,
    full: Seq<u64>,
    k: int,
    x: usize,
)
    requires
        layout_wf(full.len() as int, gates, pis),
        extends(w, full),
        forall|i: int| 0 <= i < w.len() ==> #[trigger] w[i] is Some || is_gate_output(gates, i),
        0 <= k < gates.len(),
        x < gate_out(gates[k]),
    ensures
        assigned_after(gates, w, full, k)[x as int] == Some(full[x as int]),
{
    assert(gate_in_range(gates[k], full.len() as int));
    if w[x as int] is None {
        assert(is_gate_output(gates, x as int));
        let j = choose|j: int| 0 <= j < gates.len() && gate_out(#[trigger] gates[j]) == x;
        if j >= k {
            if j > k {
                assert(gate_out(gates[k]) < gate_out(gates[j]));
            }
        }
        assert(0 <= j < k && gate_out(gates[j]) == x);
    }
}

proof fn lemma_run_prefix(gates: Seq<Gate>, pis: Seq<usize>, w: Seq<Option<u64>>, full: Seq<u64>, k: int)
    requires
        layout_wf(full.len() as int, gates, pis),
        satisfies(gates, full),
        extends(w, full),
        forall|i: int| 0 <= i < w.len() ==> #[trigger] w[i] is Some || is_gate_output(gates, i),
        0 <= k <= gates.len(),
    ensures
        run(gates.take(k), w) == Ok::<Seq<Option<u64>>, crate::circuit::CircuitError>(
            assigned_after(gates, w, full, k),
        ),
    decreases k,
{
    if k == 0 {
        assert(gates.take(0) =~= Seq::<Gate>::empty());
        assert(assigned_after(gates, w, full, 0) =~= w);
    } else {
        lemma_run_prefix(gates, pis, w, full, k - 1);
        assert(gates.take(k).drop_last() =~= gates.take(k - 1));
        let g = gates[k - 1];
        assert(gates.take(k).last() == g);
        let u = assigned_after(gates, w, full, k - 1);
        assert(gate_in_range(g, full.len() as int) && gate_holds(g, full));
        assert(inputs_before_output(g));
        match g {
            Gate::Add { lhs, rhs, out } => {
                lemma_input_available(gates, pis, w, full, k - 1, lhs);
                lemma_input_available(gates, pis, w, full, k - 1, rhs);
            },
            Gate::Mul { lhs, rhs, out } => {
                lemma_input_available(gates, pis, w, full, k - 1, lhs);
                lemma_input_available(gates, pis, w, full, k - 1, rhs);
            },
            Gate::Constant { .. } => {},
        }
        let out = gate_out(g) as int;
        assert(u[out] is Some ==> u[out] == Some(full[out]));
        assert(step(g, u) == Ok::<Seq<Option<u64>>, crate::circuit::CircuitError>(u.update(out, Some(full[out]))));
        assert(u.update(out, Some(full[out])) =~= assigned_after(gates, w, full, k));
    }
}

/// Completeness of the prover's check: take values `full` for every wire
/// that satisfy every gate, and a witness that agrees with them and assigns
/// every wire that is no gate's output. With a verifying proof bound to every
/// slot, the witness is accepted, and the assignment it yields is `full`.
pub proof fn law_satisfying_witness_accepted(c: &CompiledCircuit, w: &Witness, full: Seq<u64>)
    requires
        c.wf(),
        full.len() == c.num_wires,
        satisfies(c.gates@, full),
        extends(w.values@, full),
        forall|i: int| 0 <= i < w.values@.len() ==> #[trigger] w.values@[i] is Some
            || is_gate_output(c.gates@, i),
        w.proofs@.len() == c.slots@.len(),
        forall|j: int| 0 <= j < w.proofs@.len() ==> (#[trigger] w.proofs@[j]) is Some
            && bound_ok(c, j, w.proofs@[j]->0) && slot_matches(c.slots@[j], w.proofs@[j]->0, full),
    ensures
        outcome(c, w) == Ok::<Seq<u64>, crate::circuit::CircuitError>(full),
{
    let gates = c.gates@;
    let wv = w.values@;
    lemma_run_prefix(gates, c.public_inputs@, wv, full, gates.len() as int);
    assert(gates.take(gates.len() as int) =~= gates);
    let v = assigned_after(gates, wv, full, gates.len() as int);
    assert forall|i: int| 0 <= i < v.len() implies #[trigger] v[i] is Some by {
        if wv[i] is None {
            assert(is_gate_output(gates, i));
            let j = choose|j: int| 0 <= j < gates.len() && gate_out(#[trigger] gates[j]) == i;
            assert(0 <= j < gates.len() && gate_out(gates[j]) == i);
        }
    }
    assert(all_assigned(v));
    assert(v.map_values(|o: Option<u64>| o->0) =~= full);
}

/// After the first `k` gates, on a witness assigning every wire that is no
/// gate's output, the check has either failed on a constraint or assigned
/// every wire that the witness or one of those gates gives.
proof fn lemma_run_complete_prefix(gates: Seq<Gate>, pis: Seq<usize>, w: Seq<Option<u64>>, k: int)
    requires
        layout_wf(w.len() as int, gates, pis),
        forall|i: int| 0 <= i < w.len() ==> #[trigger] w[i] is Some || is_gate_output(gates, i),
        0 <= k <= gates.len(),
    ensures
        run(gates.take(k), w) is Err ==> run(gates.take(k), w)->Err_0 == crate::circuit::CircuitError::ConstraintViolation,
        run(gates.take(k), w) is Ok ==> {
            let u = run(gates.take(k), w)->Ok_0;
            &&& u.len() == w.len()
            &&& forall|i: int| 0 <= i < w.len() && (w[i] is Some || exists|j: int| 0 <= j < k && gate_out(#[trigger] gates[j]) == i)
                ==> #[trigger] u[i] is Some
        },
    decreases k,
{
    if k == 0 {
        assert(gates.take(0) =~= Seq::<Gate>::empty());
    } else {
        lemma_run_complete_prefix(gates, pis, w, k - 1);
        assert(gates.take(k).drop_last() =~= gates.take(k - 1));
        let g = gates[k - 1];
        assert(gates.take(k).last() == g);
        if run(gates.take(k - 1), w) is Ok {
            let u = run(gates.take(k - 1), w)->Ok_0;
            assert(gate_in_range(g, w.len() as int));
            assert(inputs_before_output(g));
            assert forall|x: int| 0 <= x < gate_out(g) implies #[trigger] u[x] is Some by {
                if w[x] is None {
                    assert(is_gate_output(gates, x));
                    let j = choose|j: int| 0 <= j < gates.len() && gate_out(#[trigger] gates[j]) == x;
                    if j > k - 1 {
                        assert(gate_out(gates[k - 1]) < gate_out(gates[j]));
                    }
                    assert(0 <= j < k - 1 && gate_out(gates[j]) == x);
                }
            }
            match g {
                Gate::Add { lhs, rhs, out } => {
                    assert(u[lhs as int] is Some && u[rhs as int] is Some);
                },
                Gate::Mul { lhs, rhs, out } => {
                    assert(u[lhs as int] is Some && u[rhs as int] is Some);
                },
                Gate::Constant { .. } => {},
            }
            if run(gates.take(k), w) is Ok {
                let u2 = run(gates.take(k), w)->Ok_0;
                assert forall|i: int| 0 <= i < w.len() && (w[i] is Some || exists|j: int| 0 <= j < k && gate_out(#[trigger] gates[j]) == i)
                    implies #[trigger] u2[i] is Some by {
                    if i != gate_out(g) && !(w[i] is Some) {
                        let j = choose|j: int| 0 <= j < k && gate_out(#[trigger] gates[j]) == i;
                        assert(j != k - 1);
                    }
                }
            }
        }
    }
}

/// A witness can be satisfied: some assignment that agrees with it satisfies
/// every gate, and every embedded proof bound to it verifies and carries the
/// values that assignment gives its slot's wires.
pub open spec fn witness_satisfiable(c: &CompiledCircuit, w: &Witness) -> bool {
    exists|full: Seq<u64>|
        satisfies(c.gates@, full) && extends(w.values@, full) && forall|j: int|
            0 <= j < w.proofs@.len() ==> bound_ok(c, j, (#[trigger] w.proofs@[j])->0) && slot_matches(
                c.slots@[j],
                w.proofs@[j]->0,
                full,
            )
}

/// Soundness, with its error: a witness that assigns every wire that is no
/// gate's output and binds a proof to every slot, but cannot be satisfied,
/// is refused with `ConstraintViolation`.
pub proof fn law_unsatisfiable_witness_violates(c: &CompiledCircuit, w: &Witness)
    requires
        c.wf(),
        w.values@.len() == c.num_wires,
        w.proofs@.len() == c.slots@.len(),
        forall|i: int| 0 <= i < w.values@.len() ==> #[trigger] w.values@[i] is Some
            || is_gate_output(c.gates@, i),
        forall|j: int| 0 <= j < w.proofs@.len() ==> #[trigger] w.proofs@[j] is Some,
        !witness_satisfiable(c, w),
    ensures
        outcome(c, w) == Err::<Seq<u64>, crate::circuit::CircuitError>(crate::circuit::CircuitError::ConstraintViolation),
{
    let gates = c.gates@;
    let wv = w.values@;
    lemma_run_complete_prefix(gates, c.public_inputs@, wv, gates.len() as int);
    assert(gates.take(gates.len() as int) =~= gates);
    if run(gates, wv) is Ok {
        let u = run(gates, wv)->Ok_0;
        assert forall|i: int| 0 <= i < u.len() implies #[trigger] u[i] is Some by {
            if wv[i] is None {
                assert(is_gate_output(gates, i));
                let j = choose|j: int| 0 <= j < gates.len() && gate_out(#[trigger] gates[j]) == i;
                assert(0 <= j < gates.len() && gate_out(gates[j]) == i);
            }
        }
        assert(all_assigned(u));
        if outcome(c, w) is Ok {
            law_accepted_witness_satisfies(c, w);
            let full = outcome(c, w)->Ok_0;
            assert(satisfies(gates, full) && extends(wv, full));
            assert(forall|j: int| 0 <= j < w.proofs@.len() ==> bound_ok(c, j, (#[trigger] w.proofs@[j])->0)
                && slot_matches(c.slots@[j], w.proofs@[j]->0, full));
        }
    }
}

/// The public inputs that the prover's check yields are, in registration
/// order, the values that the witness gave those wires.
pub proof fn law_public_inputs_follow_witness(c: &CompiledCircuit, w: &Witness)
    requires
        c.wf(),
    ensures
        outcome(c, w) is Ok ==> {
            let pis = public_values(c, outcome(c, w)->Ok_0);
            &&& pis.len() == c.public_inputs@.len()
            &&& forall|k: int| 0 <= k < pis.len() && (#[trigger] w.values@[c.public_inputs@[k] as int]) is Some
                ==> pis[k] == w.values@[c.public_inputs@[k] as int]->0
        },
{
    law_accepted_witness_satisfies(c, w);
    if outcome(c, w) is Ok {
        let full = outcome(c, w)->Ok_0;
        let pis = public_values(c, full);
        assert forall|k: int| 0 <= k < pis.len() && (#[trigger] w.values@[c.public_inputs@[k] as int]) is Some
            implies pis[k] == w.values@[c.public_inputs@[k] as int]->0 by {
            assert(c.public_inputs@[k] < c.num_wires);
        }
    }
}

proof fn lemma_run_canonical(gates: Seq<Gate>, v: Seq<Option<u64>>)
    requires
        forall|i: int| 0 <= i < v.len() && #[trigger] v[i] is Some ==> is_canonical(v[i]->0),
    ensures
        run(gates, v) is Ok ==> forall|i: int| 0 <= i < run(gates, v)->Ok_0.len() && #[trigger] run(gates, v)->Ok_0[i] is Some
            ==> is_canonical(run(gates, v)->Ok_0[i]->0),
    decreases gates.len(),
{
    if gates.len() > 0 {
        lemma_run_canonical(gates.drop_last(), v);
    }
}

/// Completeness towards the verifier: the public inputs of a witness that the
/// prover's check accepts are accepted by [`CompiledCircuit::verify`] whenever
/// the commitment backend finds the proof's openings valid.
pub proof fn law_proved_public_inputs_accepted(c: &CompiledCircuit, w: &Witness)
    requires
        c.wf(),
        w.wf(),
    ensures
        outcome(c, w) is Ok ==> accepts(c, public_values(c, outcome(c, w)->Ok_0), true),
{
    if outcome(c, w) is Ok {
        lemma_run_canonical(c.gates@, w.values@);
        lemma_run_ok(c.gates@, w.values@);
        let u = run(c.gates@, w.values@)->Ok_0;
        assert(all_assigned(u));
        let full = outcome(c, w)->Ok_0;
        let pis = public_values(c, full);
        assert forall|k: int| 0 <= k < pis.len() implies is_canonical(#[trigger] pis[k]) by {
            let x = c.public_inputs@[k] as int;
            assert(x < c.num_wires);
            assert(u[x] is Some);
            assert(pis[k] == full[x]);
            assert(full[x] == u[x]->0);
        }
    }
}

/// Recursive soundness: an outer witness that binds, to some slot, a proof
/// that does not verify, or one prepared against another circuit than the
/// slot checks, is refused; when the witness is otherwise complete (every
/// wire that is no gate's output assigned, every slot bound), it is refused
/// with `ConstraintViolation`.
pub proof fn law_invalid_inner_proof_refused(c: &CompiledCircuit, w: &Witness, j: int)
    requires
        c.wf(),
        0 <= j < w.proofs@.len(),
        w.proofs@[j] is Some,
        !bound_ok(c, j, w.proofs@[j]->0),
    ensures
        outcome(c, w) is Err,
        w.values@.len() == c.num_wires && w.proofs@.len() == c.slots@.len() && (forall|i: int|
            0 <= i < w.values@.len() ==> #[trigger] w.values@[i] is Some || is_gate_output(c.gates@, i))
            && (forall|k: int| 0 <= k < w.proofs@.len() ==> #[trigger] w.proofs@[k] is Some) ==> outcome(c, w)
            == Err::<Seq<u64>, crate::circuit::CircuitError>(crate::circuit::CircuitError::ConstraintViolation),
{
    if w.values@.len() == c.num_wires && w.proofs@.len() == c.slots@.len() && (forall|i: int|
        0 <= i < w.values@.len() ==> #[trigger] w.values@[i] is Some || is_gate_output(c.gates@, i))
        && (forall|k: int| 0 <= k < w.proofs@.len() ==> #[trigger] w.proofs@[k] is Some) {
        assert(!witness_satisfiable(c, w));
        law_unsatisfiable_witness_violates(c, w);
    }
}

/// Compilation is deterministic: builders holding the same declarations
/// compile, by [`CircuitBuilder::build`], to circuits that agree in every part
/// of their data, so that any witness gets the same outcome from both.
pub proof fn law_build_deterministic(
    b1: CircuitBuilder,
    b2: CircuitBuilder,
    c1: CompiledCircuit,
    c2: CompiledCircuit,
    w: Witness,
)
    requires
        b1.wf(),
        b2.wf(),
        b1.hash == b2.hash,
        b1.num_wires == b2.num_wires,
        b1.gates@ == b2.gates@,
        b1.public_inputs@ == b2.public_inputs@,
        b1.slots@ == b2.slots@,
        b1.embedded@.map_values(|s: CircuitShape| s.view()) == b2.embedded@.map_values(|s: CircuitShape| s.view()),
        call_ensures(CircuitBuilder::build, (b1,), c1),
        call_ensures(CircuitBuilder::build, (b2,), c2),
    ensures
        c1.hash == c2.hash,
        c1.num_wires == c2.num_wires,
        c1.gates@ == c2.gates@,
        c1.public_inputs@ == c2.public_inputs@,
        c1.slots@ == c2.slots@,
        c1.embedded_views() == c2.embedded_views(),
        outcome(&c1, &w) == outcome(&c2, &w),
{
    assert forall|j: int| 0 <= j < c1.embedded@.len() implies #[trigger] c1.embedded@[j].view() == c2.embedded@[j].view() by {
        assert(c1.embedded_views()[j] == c2.embedded_views()[j]);
    }
    if w.proofs@.len() == c1.slots@.len() {
        assert forall|j: int| 0 <= j < w.proofs@.len() implies #[trigger] bound_ok(&c1, j, w.proofs@[j]->0) == bound_ok(&c2, j, w.proofs@[j]->0) by {
            assert(c1.embedded@[j].view() == c2.embedded@[j].view());
        }
    }
}

} // verus!
