//! Worked circuits: knowledge of `n * 2 * 3 * ... * 100`, proved for
//! `n = 1`, and of the 100th Fibonacci number.
use crate::circuit::{gate_out, CircuitBuilder, CircuitError, Gate, HashKind};
use crate::field::reduce_spec;
use crate::laws::{is_gate_output, law_satisfying_witness_accepted, satisfies};
use crate::prover::Assignment;
use crate::witness::Witness;
use vstd::prelude::*;

verus! {

/// `1 * 2 * ... * n` in the field.
pub open spec fn factorial_mod(n: nat) -> u64
    decreases n,
{
    if n <= 1 {
        1
    } else {
        reduce_spec(factorial_mod((n - 1) as nat) * n)
    }
}

/// Builds the circuit `initial * 2 * 3 * ... * 100` with `initial` and the
/// product as public inputs, and runs the prover's check on `initial = 1`.
/// The public inputs come out as `1` and `100!` in the field.
pub fn example_factorial() -> (r: Result<Assignment, CircuitError>)
    ensures
        r is Ok,
        r->Ok_0.public_inputs@ == seq![1u64, factorial_mod(100)],
        r->Ok_0.values@.len() == 199,
        r->Ok_0.values@[0] == 1,
        forall|k: int| 0 <= k < 99 ==> #[trigger] r->Ok_0.values@[2 * k + 1] == k + 2,
        forall|k: int| 0 <= k < 99 ==> #[trigger] r->Ok_0.values@[2 * k + 2] == factorial_mod((k + 2) as nat),
{
    let mut builder = CircuitBuilder::new(HashKind::Poseidon);
    let initial = builder.add_virtual_target();
    let mut cur = initial;
    let ghost mut full: Seq<u64> = seq![1u64];
    let mut i: u64 = 2;
    while i < 101
        invariant
            2 <= i <= 101,
            builder.wf(),
            builder.hash == HashKind::Poseidon,
            builder.public_inputs@ == Seq::<usize>::empty(),
            builder.slots@ == Seq::<crate::circuit::ProofSlot>::empty(),
            initial.index == 0,
            builder.num_wires == full.len(),
            builder.num_wires == 2 * (i - 2) + 1,
            builder.gates@.len() + 1 == builder.num_wires,
            forall|k: int| 0 <= k < builder.gates@.len() ==> gate_out(#[trigger] builder.gates@[k]) == k + 1,
            satisfies(builder.gates@, full),
            full[0] == 1,
            cur.index < builder.num_wires,
            i > 2 ==> cur.index == builder.num_wires - 1,
            full[cur.index as int] == factorial_mod((i - 1) as nat),
            forall|k: int| 0 <= k < i - 2 ==> #[trigger] full[2 * k + 1] == k + 2,
            forall|k: int| 0 <= k < i - 2 ==> #[trigger] full[2 * k + 2] == factorial_mod((k + 2) as nat),
        decreases 101 - i,
    {
        let ghost old_gates = builder.gates@;
        let ghost old_full = full;
        let c = builder.constant(i);
        let next = match builder.mul(cur, c) {
            Ok(w) => w,
            Err(e) => {
                return Err(e);
            },
        };
        proof {
            let n = old_full.len() as int;
            full = old_full.push(reduce_spec(i as int)).push(reduce_spec(old_full[cur.index as int] * i));
            assert(reduce_spec(i as int) == i);
            assert forall|k: int| 0 <= k < i - 1 implies #[trigger] full[2 * k + 1] == k + 2 by {
                if k < i - 2 {
                    assert(full[2 * k + 1] == old_full[2 * k + 1]);
                }
            }
            assert forall|k: int| 0 <= k < i - 1 implies #[trigger] full[2 * k + 2] == factorial_mod((k + 2) as nat) by {
                if k < i - 2 {
                    assert(full[2 * k + 2] == old_full[2 * k + 2]);
                }
            }
            let gs = builder.gates@;
            assert(gs.len() == old_gates.len() + 2);
            assert(gs[gs.len() - 2] == Gate::Constant { out: n as usize, value: reduce_spec(i as int) });
            assert(gs[gs.len() - 1] == Gate::Mul { lhs: cur.index, rhs: n as usize, out: (n + 1) as usize });
            assert forall|k: int| 0 <= k < gs.len() implies crate::circuit::gate_in_range(#[trigger] gs[k], full.len() as int)
                && crate::laws::gate_holds(gs[k], full) by {
                if k < old_gates.len() {
                    assert(gs[k] == old_gates[k]);
                    assert(crate::circuit::gate_in_range(old_gates[k], n) && crate::laws::gate_holds(old_gates[k], old_full));
                    assert(crate::circuit::gate_in_range(gs[k], builder.num_wires as int));
                }
            }
            assert forall|k: int| 0 <= k < gs.len() implies gate_out(#[trigger] gs[k]) == k + 1 by {
                if k < old_gates.len() {
                    assert(gs[k] == old_gates[k]);
                }
            }
        }
        cur = next;
        i = i + 1;
    }
    match builder.register_public_input(initial) {
        Ok(()) => {},
        Err(e) => {
            return Err(e);
        },
    }
    assert(builder.public_inputs@ =~= seq![0usize]);
    assert(!crate::circuit::contains_index(builder.public_inputs@, cur.index));
    match builder.register_public_input(cur) {
        Ok(()) => {},
        Err(e) => {
            return Err(e);
        },
    }
    let data = builder.build();
    let mut witness = Witness::new(data.num_wires(), data.num_proof_slots());
    match witness.set(initial, 1) {
        Ok(()) => {},
        Err(e) => {
            return Err(e);
        },
    }
    proof {
        let wv = witness.values@;
        assert forall|x: int| 0 <= x < wv.len() implies #[trigger] wv[x] is Some || is_gate_output(data.gates@, x) by {
            if x > 0 {
                assert(gate_out(data.gates@[x - 1]) == x);
            }
        }
        law_satisfying_witness_accepted(&data, &witness, full);
    }
    data.prove(&witness)
}

/// The 100th Fibonacci number, 354224848179261915075, in the field.
pub proof fn lemma_fibonacci_100()
    ensures
        fibonacci_mod(100) == 3736710860384812976u64,
{
    assert(fibonacci_mod(0) == 0u64);
    assert(fibonacci_mod(1) == 1u64);
    assert(fibonacci_mod(2) == 1u64);
    assert(fibonacci_mod(3) == 2u64);
    assert(fibonacci_mod(4) == 3u64);
    assert(fibonacci_mod(5) == 5u64);
    assert(fibonacci_mod(6) == 8u64);
    assert(fibonacci_mod(7) == 13u64);
    assert(fibonacci_mod(8) == 21u64);
    assert(fibonacci_mod(9) == 34u64);
    assert(fibonacci_mod(10) == 55u64);
    assert(fibonacci_mod(11) == 89u64);
    assert(fibonacci_mod(12) == 144u64);
    assert(fibonacci_mod(13) == 233u64);
    assert(fibonacci_mod(14) == 377u64);
    assert(fibonacci_mod(15) == 610u64);
    assert(fibonacci_mod(16) == 987u64);
    assert(fibonacci_mod(17) == 1597u64);
    assert(fibonacci_mod(18) == 2584u64);
    assert(fibonacci_mod(19) == 4181u64);
    assert(fibonacci_mod(20) == 6765u64);
    assert(fibonacci_mod(21) == 10946u64);
    assert(fibonacci_mod(22) == 17711u64);
    assert(fibonacci_mod(23) == 28657u64);
    assert(fibonacci_mod(24) == 46368u64);
    assert(fibonacci_mod(25) == 75025u64);
    assert(fibonacci_mod(26) == 121393u64);
    assert(fibonacci_mod(27) == 196418u64);
    assert(fibonacci_mod(28) == 317811u64);
    assert(fibonacci_mod(29) == 514229u64);
    assert(fibonacci_mod(30) == 832040u64);
    assert(fibonacci_mod(31) == 1346269u64);
    assert(fibonacci_mod(32) == 2178309u64);
    assert(fibonacci_mod(33) == 3524578u64);
    assert(fibonacci_mod(34) == 5702887u64);
    assert(fibonacci_mod(35) == 9227465u64);
    assert(fibonacci_mod(36) == 14930352u64);
    assert(fibonacci_mod(37) == 24157817u64);
    assert(fibonacci_mod(38) == 39088169u64);
    assert(fibonacci_mod(39) == 63245986u64);
    assert(fibonacci_mod(40) == 102334155u64);
    assert(fibonacci_mod(41) == 165580141u64);
    assert(fibonacci_mod(42) == 267914296u64);
    assert(fibonacci_mod(43) == 433494437u64);
    assert(fibonacci_mod(44) == 701408733u64);
    assert(fibonacci_mod(45) == 1134903170u64);
    assert(fibonacci_mod(46) == 1836311903u64);
    assert(fibonacci_mod(47) == 2971215073u64);
    assert(fibonacci_mod(48) == 4807526976u64);
    assert(fibonacci_mod(49) == 7778742049u64);
    assert(fibonacci_mod(50) == 12586269025u64);
    assert(fibonacci_mod(51) == 20365011074u64);
    assert(fibonacci_mod(52) == 32951280099u64);
    assert(fibonacci_mod(53) == 53316291173u64);
    assert(fibonacci_mod(54) == 86267571272u64);
    assert(fibonacci_mod(55) == 139583862445u64);
    assert(fibonacci_mod(56) == 225851433717u64);
    assert(fibonacci_mod(57) == 365435296162u64);
    assert(fibonacci_mod(58) == 591286729879u64);
    assert(fibonacci_mod(59) == 956722026041u64);
    assert(fibonacci_mod(60) == 1548008755920u64);
    assert(fibonacci_mod(61) == 2504730781961u64);
    assert(fibonacci_mod(62) == 4052739537881u64);
    assert(fibonacci_mod(63) == 6557470319842u64);
    assert(fibonacci_mod(64) == 10610209857723u64);
    assert(fibonacci_mod(65) == 17167680177565u64);
    assert(fibonacci_mod(66) == 27777890035288u64);
    assert(fibonacci_mod(67) == 44945570212853u64);
    assert(fibonacci_mod(68) == 72723460248141u64);
    assert(fibonacci_mod(69) == 117669030460994u64);
    assert(fibonacci_mod(70) == 190392490709135u64);
    assert(fibonacci_mod(71) == 308061521170129u64);
    assert(fibonacci_mod(72) == 498454011879264u64);
    assert(fibonacci_mod(73) == 806515533049393u64);
    assert(fibonacci_mod(74) == 1304969544928657u64);
    assert(fibonacci_mod(75) == 2111485077978050u64);
    assert(fibonacci_mod(76) == 3416454622906707u64);
    assert(fibonacci_mod(77) == 5527939700884757u64);
    assert(fibonacci_mod(78) == 8944394323791464u64);
    assert(fibonacci_mod(79) == 14472334024676221u64);
    assert(fibonacci_mod(80) == 23416728348467685u64);
    assert(fibonacci_mod(81) == 37889062373143906u64);
    assert(fibonacci_mod(82) == 61305790721611591u64);
    assert(fibonacci_mod(83) == 99194853094755497u64);
    assert(fibonacci_mod(84) == 160500643816367088u64);
    assert(fibonacci_mod(85) == 259695496911122585u64);
    assert(fibonacci_mod(86) == 420196140727489673u64);
    assert(fibonacci_mod(87) == 679891637638612258u64);
    assert(fibonacci_mod(88) == 1100087778366101931u64);
    assert(fibonacci_mod(89) == 1779979416004714189u64);
    assert(fibonacci_mod(90) == 2880067194370816120u64);
    assert(fibonacci_mod(91) == 4660046610375530309u64);
    assert(fibonacci_mod(92) == 7540113804746346429u64);
    assert(fibonacci_mod(93) == 12200160415121876738u64);
    assert(fibonacci_mod(94) == 1293530150453638846u64);
    assert(fibonacci_mod(95) == 13493690565575515584u64);
    assert(fibonacci_mod(96) == 14787220716029154430u64);
    assert(fibonacci_mod(97) == 9834167212190085693u64);
    assert(fibonacci_mod(98) == 6174643858804655802u64);
    assert(fibonacci_mod(99) == 16008811070994741495u64);
    assert(fibonacci_mod(100) == 3736710860384812976u64);
}


/// The `n`-th Fibonacci number in the field, from `0, 1`.
pub open spec fn fibonacci_mod(n: nat) -> u64
    decreases n,
{
    if n == 0 {
        0
    } else if n == 1 {
        1
    } else {
        reduce_spec(fibonacci_mod((n - 1) as nat) + fibonacci_mod((n - 2) as nat))
    }
}

/// Builds the circuit of 99 additions `x[i + 2] = x[i] + x[i + 1]` with
/// `x[0]`, `x[1]` and `x[100]` as public inputs, and runs the prover's check
/// on `x[0] = 0, x[1] = 1`. The public inputs come out as `0`, `1` and the
/// 100th Fibonacci number in the field.
pub fn example_fibonacci() -> (r: Result<Assignment, CircuitError>)
    ensures
        r is Ok,
        r->Ok_0.public_inputs@ == seq![0u64, 1u64, fibonacci_mod(100)],
        r->Ok_0.public_inputs@ == seq![0u64, 1u64, 3736710860384812976u64],
        r->Ok_0.values@.len() == 101,
        forall|k: int| 0 <= k < 101 ==> #[trigger] r->Ok_0.values@[k] == fibonacci_mod(k as nat),
{
    let mut builder = CircuitBuilder::new(HashKind::Poseidon);
    let initial_a = builder.add_virtual_target();
    let initial_b = builder.add_virtual_target();
    let mut prev = initial_a;
    let mut cur = initial_b;
    let ghost mut full: Seq<u64> = seq![0u64, 1u64];
    let mut i: usize = 0;
    while i < 99
        invariant
            0 <= i <= 99,
            builder.wf(),
            builder.hash == HashKind::Poseidon,
            builder.public_inputs@ == Seq::<usize>::empty(),
            builder.slots@ == Seq::<crate::circuit::ProofSlot>::empty(),
            initial_a.index == 0,
            initial_b.index == 1,
            builder.num_wires == full.len(),
            builder.num_wires == i + 2,
            builder.gates@.len() == i,
            forall|k: int| 0 <= k < builder.gates@.len() ==> gate_out(#[trigger] builder.gates@[k]) == k + 2,
            satisfies(builder.gates@, full),
            full[0] == 0,
            full[1] == 1,
            prev.index == i,
            cur.index == i + 1,
            full[prev.index as int] == fibonacci_mod(i as nat),
            full[cur.index as int] == fibonacci_mod((i + 1) as nat),
            forall|k: int| 0 <= k < full.len() ==> #[trigger] full[k] == fibonacci_mod(k as nat),
        decreases 99 - i,
    {
        let ghost old_gates = builder.gates@;
        let ghost old_full = full;
        let next = match builder.add(prev, cur) {
            Ok(w) => w,
            Err(e) => {
                return Err(e);
            },
        };
        proof {
            let n = old_full.len() as int;
            full = old_full.push(reduce_spec(old_full[prev.index as int] + old_full[cur.index as int]));
            let gs = builder.gates@;
            assert(gs[gs.len() - 1] == Gate::Add { lhs: prev.index, rhs: cur.index, out: n as usize });
            assert forall|k: int| 0 <= k < gs.len() implies crate::circuit::gate_in_range(#[trigger] gs[k], full.len() as int)
                && crate::laws::gate_holds(gs[k], full) by {
                if k < old_gates.len() {
                    assert(gs[k] == old_gates[k]);
                    assert(crate::circuit::gate_in_range(old_gates[k], n) && crate::laws::gate_holds(old_gates[k], old_full));
                    assert(crate::circuit::gate_in_range(gs[k], builder.num_wires as int));
                }
            }
            assert forall|k: int| 0 <= k < gs.len() implies gate_out(#[trigger] gs[k]) == k + 2 by {
                if k < old_gates.len() {
                    assert(gs[k] == old_gates[k]);
                }
            }
            assert(fibonacci_mod((i + 2) as nat) == reduce_spec(
                fibonacci_mod((i + 1) as nat) + fibonacci_mod(i as nat),
            ));
        }
        prev = cur;
        cur = next;
        i = i + 1;
    }
    match builder.register_public_input(initial_a) {
        Ok(()) => {},
        Err(e) => {
            return Err(e);
        },
    }
    assert(builder.public_inputs@ =~= seq![0usize]);
    assert(!crate::circuit::contains_index(builder.public_inputs@, initial_b.index));
    match builder.register_public_input(initial_b) {
        Ok(()) => {},
        Err(e) => {
            return Err(e);
        },
    }
    assert(builder.public_inputs@ =~= seq![0usize, 1usize]);
    assert(!crate::circuit::contains_index(builder.public_inputs@, cur.index));
    match builder.register_public_input(cur) {
        Ok(()) => {},
        Err(e) => {
            return Err(e);
        },
    }
    let data = builder.build();
    let mut witness = Witness::new(data.num_wires(), data.num_proof_slots());
    match witness.set(initial_a, 0) {
        Ok(()) => {},
        Err(e) => {
            return Err(e);
        },
    }
    match witness.set(initial_b, 1) {
        Ok(()) => {},
        Err(e) => {
            return Err(e);
        },
    }
    proof {
        let wv = witness.values@;
        assert forall|x: int| 0 <= x < wv.len() implies #[trigger] wv[x] is Some || is_gate_output(data.gates@, x) by {
            if x > 1 {
                assert(gate_out(data.gates@[x - 2]) == x);
            }
        }
        law_satisfying_witness_accepted(&data, &witness, full);
        lemma_fibonacci_100();
    }
    data.prove(&witness)
}

} // verus!
