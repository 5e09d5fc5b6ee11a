use zkcircuit::circuit::{CircuitBuilder, CircuitError, CompiledCircuit, HashKind, ProofSlot, Wire};
use zkcircuit::examples::{example_factorial, example_fibonacci};
use zkcircuit::field::{field_add, field_mul, reduce, ORDER};
use zkcircuit::verification::Proof;
use zkcircuit::witness::{InnerProof, Witness};

const P: u128 = 0xFFFF_FFFF_0000_0001;

fn addition_circuit() -> (CompiledCircuit, Wire, Wire, Wire) {
    let mut builder = CircuitBuilder::new(HashKind::Poseidon);
    let a = builder.add_virtual_target();
    let b = builder.add_virtual_target();
    let c = builder.add(a, b).unwrap();
    (builder.build(), a, b, c)
}

fn addition_witness(data: &CompiledCircuit, a: Wire, b: Wire, c: Wire, va: u64, vb: u64, vc: u64) -> Witness {
    let mut pw = Witness::new(data.num_wires(), data.num_proof_slots());
    pw.set(a, va).unwrap();
    pw.set(b, vb).unwrap();
    pw.set(c, vc).unwrap();
    pw
}

fn prove_and_verify_addition(va: u64, vb: u64, vc: u64) -> Result<(), CircuitError> {
    let (data, a, b, c) = addition_circuit();
    let pw = addition_witness(&data, a, b, c, va, vb, vc);
    let assignment = data.prove(&pw)?;
    let proof = Proof { bytes: Vec::new(), public_inputs: assignment.public_inputs };
    data.verify(&proof, true)
}

#[test]
fn test_plonky2_add() {
    assert_eq!(prove_and_verify_addition(1, 1, 2), Ok(()));
}

#[test]
fn practice_plonky2_add() {
    assert_eq!(prove_and_verify_addition(1, 1, 2), Ok(()));
}

#[test]
fn addition_with_wrong_sum_is_refused() {
    assert_eq!(prove_and_verify_addition(1, 1, 3), Err(CircuitError::ConstraintViolation));
}

#[test]
fn addition_wraps_in_the_field() {
    assert_eq!(prove_and_verify_addition(ORDER - 1, 2, 1), Ok(()));
    assert_eq!(prove_and_verify_addition(ORDER - 1, 2, 0), Err(CircuitError::ConstraintViolation));
}

fn inner_proof(openings_valid: bool) -> (CompiledCircuit, InnerProof) {
    let (inner, a, b, c) = addition_circuit();
    let pw = addition_witness(&inner, a, b, c, 1, 2, 3);
    let assignment = inner.prove(&pw).unwrap();
    let proof = Proof { bytes: Vec::new(), public_inputs: assignment.public_inputs };
    let bound = InnerProof::from_proof(&inner, &proof, openings_valid);
    (inner, bound)
}

fn prove_outer(openings_valid: bool) -> Result<(), CircuitError> {
    let (inner, bound) = inner_proof(openings_valid);
    let mut builder = CircuitBuilder::new(HashKind::Poseidon);
    let slot = builder.add_proof_check(&inner)?;
    let mut pw = Witness::new(builder.num_wires(), builder.num_proof_slots());
    pw.set_proof(slot, bound)?;
    let data = builder.build();
    let assignment = data.prove(&pw)?;
    let proof = Proof { bytes: Vec::new(), public_inputs: assignment.public_inputs };
    data.verify(&proof, true)
}

#[test]
fn test_recursive_proof() {
    assert_eq!(prove_outer(true), Ok(()));
}

#[test]
fn practice_recursive_proof() {
    assert_eq!(prove_outer(true), Ok(()));
}

#[test]
fn recursion_with_tampered_inner_proof_is_refused() {
    assert_eq!(prove_outer(false), Err(CircuitError::ConstraintViolation));
}

#[test]
fn embedded_public_inputs_become_outer_wires() {
    let mut inner_builder = CircuitBuilder::new(HashKind::Poseidon);
    let a = inner_builder.add_virtual_target();
    let b = inner_builder.add_virtual_target();
    let c = inner_builder.add(a, b).unwrap();
    inner_builder.register_public_input(c).unwrap();
    let inner = inner_builder.build();
    let mut pw = Witness::new(inner.num_wires(), 0);
    pw.set(a, 1).unwrap();
    pw.set(b, 2).unwrap();
    let assignment = inner.prove(&pw).unwrap();
    assert_eq!(assignment.public_inputs, vec![3]);
    let proof = Proof { bytes: Vec::new(), public_inputs: assignment.public_inputs };

    let mut outer = CircuitBuilder::new(HashKind::Poseidon);
    let x = outer.add_virtual_target();
    let slot = outer.add_proof_check(&inner).unwrap();
    assert_eq!(slot.arity, 1);
    assert_eq!(slot.first_wire, 1);
    let inner_sum = slot.public_input(0).unwrap();
    assert_eq!(slot.public_input(1), Err(CircuitError::CallerMisuse));
    let doubled = outer.add(inner_sum, inner_sum).unwrap();
    let total = outer.mul(doubled, x).unwrap();
    outer.register_public_input(total).unwrap();
    let mut opw = Witness::new(outer.num_wires(), outer.num_proof_slots());
    opw.set(x, 5).unwrap();
    opw.set_proof(slot, InnerProof::from_proof(&inner, &proof, true)).unwrap();
    let data = outer.build();
    assert_eq!(data.prove(&opw).unwrap().public_inputs, vec![30]);
}

#[test]
fn binding_a_proof_of_the_wrong_shape_is_misuse() {
    let (inner, _) = inner_proof(true);
    let mut builder = CircuitBuilder::new(HashKind::Poseidon);
    let slot = builder.add_proof_check(&inner).unwrap();
    let mut pw = Witness::new(builder.num_wires(), builder.num_proof_slots());
    let misshaped = Proof { bytes: Vec::new(), public_inputs: vec![1] };
    let wrong = InnerProof::from_proof(&inner, &misshaped, true);
    assert!(!wrong.verifies());
    assert_eq!(wrong.public_inputs(), &vec![1]);
    assert_eq!(pw.set_proof(slot, wrong), Err(CircuitError::CallerMisuse));
}

fn sum_circuit_with_public_output() -> (CompiledCircuit, Proof) {
    let mut inner_builder = CircuitBuilder::new(HashKind::Poseidon);
    let a = inner_builder.add_virtual_target();
    let b = inner_builder.add_virtual_target();
    let c = inner_builder.add(a, b).unwrap();
    inner_builder.register_public_input(c).unwrap();
    let inner = inner_builder.build();
    let mut pw = Witness::new(inner.num_wires(), 0);
    pw.set(a, 1).unwrap();
    pw.set(b, 2).unwrap();
    let assignment = inner.prove(&pw).unwrap();
    (inner, Proof { bytes: Vec::new(), public_inputs: assignment.public_inputs })
}

#[test]
fn slot_wires_must_carry_the_bound_proofs_public_inputs() {
    let (inner, proof) = sum_circuit_with_public_output();
    let mut outer = CircuitBuilder::new(HashKind::Poseidon);
    let slot = outer.add_proof_check(&inner).unwrap();
    let claimed = slot.public_input(0).unwrap();
    outer.register_public_input(claimed).unwrap();
    let mut pw = Witness::new(outer.num_wires(), outer.num_proof_slots());
    pw.set_proof(slot, InnerProof::from_proof(&inner, &proof, true)).unwrap();
    pw.set(claimed, 5).unwrap();
    let data = outer.build();
    assert!(matches!(data.prove(&pw), Err(CircuitError::ConstraintViolation)));
}

#[test]
fn forged_slot_does_not_escape_the_binding() {
    let (inner, proof) = sum_circuit_with_public_output();
    let mut outer = CircuitBuilder::new(HashKind::Poseidon);
    let x = outer.add_virtual_target();
    let slot = outer.add_proof_check(&inner).unwrap();
    let claimed = slot.public_input(0).unwrap();
    outer.register_public_input(claimed).unwrap();
    let mut pw = Witness::new(outer.num_wires(), outer.num_proof_slots());
    let forged = ProofSlot { index: slot.index, arity: slot.arity, first_wire: x.index };
    pw.set_proof(forged, InnerProof::from_proof(&inner, &proof, true)).unwrap();
    pw.set(claimed, 5).unwrap();
    let data = outer.build();
    assert!(matches!(data.prove(&pw), Err(CircuitError::ConstraintViolation)));
}

#[test]
fn recursion_without_bound_proof_is_unsatisfied() {
    let (inner, _) = inner_proof(true);
    let mut builder = CircuitBuilder::new(HashKind::Poseidon);
    builder.add_proof_check(&inner).unwrap();
    let pw = Witness::new(builder.num_wires(), builder.num_proof_slots());
    let data = builder.build();
    assert!(matches!(data.prove(&pw), Err(CircuitError::UnsatisfiedWitness)));
}

#[test]
fn recursion_needs_an_algebraic_hash() {
    let (inner, _) = inner_proof(true);
    let mut outer = CircuitBuilder::new(HashKind::Keccak);
    assert_eq!(outer.add_proof_check(&inner), Err(CircuitError::ConfigurationIncompatible));
    let keccak_inner = CircuitBuilder::new(HashKind::Keccak).build();
    let mut outer = CircuitBuilder::new(HashKind::Poseidon);
    assert_eq!(outer.add_proof_check(&keccak_inner), Err(CircuitError::ConfigurationIncompatible));
}

fn factorial_100_mod_p() -> u64 {
    let mut acc: u128 = 1;
    for i in 2..101u128 {
        acc = acc * i % P;
    }
    acc as u64
}

#[test]
fn test_example_factorial() {
    let r = example_factorial();
    assert!(r.is_ok());
    let assignment = r.unwrap();
    assert_eq!(assignment.public_inputs, vec![1, factorial_100_mod_p()]);
}

fn fibonacci_100_mod_p() -> u64 {
    let (mut a, mut b): (u128, u128) = (0, 1);
    for _ in 0..99 {
        let t = (a + b) % P;
        a = b;
        b = t;
    }
    b as u64
}

#[test]
fn example_fibonaccici() {
    let mut builder = CircuitBuilder::new(HashKind::Poseidon);
    let initial_a = builder.add_virtual_target();
    let initial_b = builder.add_virtual_target();
    let mut prev_target = initial_a;
    let mut cur_target = initial_b;
    for _ in 0..99 {
        let temp = builder.add(prev_target, cur_target).unwrap();
        prev_target = cur_target;
        cur_target = temp;
    }
    builder.register_public_input(initial_a).unwrap();
    builder.register_public_input(initial_b).unwrap();
    builder.register_public_input(cur_target).unwrap();
    let mut pw = Witness::new(builder.num_wires(), builder.num_proof_slots());
    pw.set(initial_a, 0).unwrap();
    pw.set(initial_b, 1).unwrap();
    let data = builder.build();
    let assignment = data.prove(&pw).unwrap();
    assert_eq!(assignment.public_inputs, vec![0, 1, fibonacci_100_mod_p()]);
    let proof = Proof { bytes: Vec::new(), public_inputs: assignment.public_inputs };
    assert_eq!(data.verify(&proof, true), Ok(()));
}

#[test]
fn missing_free_wire_is_unsatisfied() {
    let (data, a, _b, _c) = addition_circuit();
    let mut pw = Witness::new(data.num_wires(), data.num_proof_slots());
    pw.set(a, 1).unwrap();
    assert!(matches!(data.prove(&pw), Err(CircuitError::UnsatisfiedWitness)));
}

#[test]
fn derived_wires_are_computed() {
    let (data, a, b, c) = addition_circuit();
    let mut pw = Witness::new(data.num_wires(), data.num_proof_slots());
    pw.set(a, 5).unwrap();
    pw.set(b, 7).unwrap();
    let assignment = data.prove(&pw).unwrap();
    assert_eq!(assignment.values[c.index], 12);
}

#[test]
fn public_inputs_follow_registration_order() {
    let mut builder = CircuitBuilder::new(HashKind::Poseidon);
    let a = builder.add_virtual_target();
    let b = builder.add_virtual_target();
    let c = builder.mul(a, b).unwrap();
    builder.register_public_input(c).unwrap();
    builder.register_public_input(a).unwrap();
    builder.register_public_input(b).unwrap();
    let data = builder.build();
    let mut pw = Witness::new(data.num_wires(), 0);
    pw.set(a, 6).unwrap();
    pw.set(b, 7).unwrap();
    assert_eq!(data.prove(&pw).unwrap().public_inputs, vec![42, 6, 7]);
}

#[test]
fn constants_are_reduced() {
    let mut builder = CircuitBuilder::new(HashKind::Poseidon);
    let k = builder.constant(ORDER + 5);
    builder.register_public_input(k).unwrap();
    let data = builder.build();
    let pw = Witness::new(data.num_wires(), 0);
    assert_eq!(data.prove(&pw).unwrap().public_inputs, vec![5]);
}

#[test]
fn caller_misuse_is_reported() {
    let mut builder = CircuitBuilder::new(HashKind::Poseidon);
    let a = builder.add_virtual_target();
    let unknown = Wire { index: 9 };
    assert_eq!(builder.add(a, unknown), Err(CircuitError::CallerMisuse));
    assert_eq!(builder.mul(unknown, a), Err(CircuitError::CallerMisuse));
    assert_eq!(builder.register_public_input(unknown), Err(CircuitError::CallerMisuse));
    assert_eq!(builder.register_public_input(a), Ok(()));
    assert_eq!(builder.register_public_input(a), Err(CircuitError::CallerMisuse));
    let data = builder.build();
    let mut pw = Witness::new(data.num_wires(), 0);
    assert_eq!(pw.set(unknown, 1), Err(CircuitError::CallerMisuse));
    assert_eq!(pw.set(a, ORDER), Err(CircuitError::CallerMisuse));
    let short = Witness::new(0, 0);
    assert!(matches!(data.prove(&short), Err(CircuitError::CallerMisuse)));
}

#[test]
fn last_write_wins() {
    let (data, a, b, c) = addition_circuit();
    let mut pw = addition_witness(&data, a, b, c, 1, 1, 3);
    pw.set(c, 2).unwrap();
    assert!(data.prove(&pw).is_ok());
}

#[test]
fn proof_with_wrong_public_inputs_is_invalid() {
    let (data, _a, _b, _c) = addition_circuit();
    let extra = Proof { bytes: Vec::new(), public_inputs: vec![1] };
    assert_eq!(data.verify(&extra, true), Err(CircuitError::InvalidProof));
    let empty = Proof { bytes: Vec::new(), public_inputs: Vec::new() };
    assert_eq!(data.verify(&empty, false), Err(CircuitError::InvalidProof));
    assert_eq!(data.verify(&empty, true), Ok(()));
}

#[test]
fn compile_is_deterministic() {
    let (d1, _, _, _) = addition_circuit();
    let (d2, _, _, _) = addition_circuit();
    assert_eq!(d1.gates, d2.gates);
    assert_eq!(d1.public_inputs, d2.public_inputs);
    assert_eq!(d1.num_wires, d2.num_wires);
    assert_eq!(d1.slots, d2.slots);
}

#[test]
fn field_operations() {
    assert_eq!(field_add(ORDER - 1, 1), 0);
    assert_eq!(field_mul(ORDER - 1, ORDER - 1), 1);
    assert_eq!(field_mul(1 << 32, 1 << 32), (1u64 << 32) - 1);
    assert_eq!(reduce(u64::MAX), 0xFFFF_FFFE);
}

#[test]
fn test_example_fibonacci() {
    let assignment = example_fibonacci().unwrap();
    assert_eq!(assignment.public_inputs, vec![0, 1, 3736710860384812976]);
    assert_eq!(fibonacci_100_mod_p(), 3736710860384812976);
}

#[test]
fn factorial_with_wrong_claimed_result_is_refused() {
    let mut builder = CircuitBuilder::new(HashKind::Poseidon);
    let initial = builder.add_virtual_target();
    let mut cur_target = initial;
    for i in 2..101u64 {
        let i_target = builder.constant(i);
        cur_target = builder.mul(cur_target, i_target).unwrap();
    }
    builder.register_public_input(initial).unwrap();
    builder.register_public_input(cur_target).unwrap();
    let data = builder.build();
    let mut pw = Witness::new(data.num_wires(), data.num_proof_slots());
    pw.set(initial, 1).unwrap();
    pw.set(cur_target, (factorial_100_mod_p() + 1) % ORDER).unwrap();
    assert!(matches!(data.prove(&pw), Err(CircuitError::ConstraintViolation)));
    pw.set(cur_target, factorial_100_mod_p()).unwrap();
    assert_eq!(data.prove(&pw).unwrap().public_inputs, vec![1, factorial_100_mod_p()]);
}

#[test]
fn witness_well_formedness() {
    let mut pw = Witness::new(2, 0);
    assert!(pw.is_well_formed());
    pw.set(Wire { index: 1 }, ORDER - 1).unwrap();
    assert!(pw.is_well_formed());
    pw.values[0] = Some(ORDER);
    assert!(!pw.is_well_formed());
}

#[test]
fn proof_of_another_circuit_is_refused() {
    let (inner, _) = inner_proof(true);
    let other = CircuitBuilder::new(HashKind::Poseidon).build();
    let mut outer = CircuitBuilder::new(HashKind::Poseidon);
    let slot = outer.add_proof_check(&inner).unwrap();
    let mut pw = Witness::new(outer.num_wires(), outer.num_proof_slots());
    let foreign = Proof { bytes: Vec::new(), public_inputs: Vec::new() };
    let bound = InnerProof::from_proof(&other, &foreign, true);
    assert!(bound.verifies());
    assert!(!bound.circuit_shape().same(&inner.shape()));
    pw.set_proof(slot, bound).unwrap();
    let data = outer.build();
    assert!(matches!(data.prove(&pw), Err(CircuitError::ConstraintViolation)));
}

#[test]
fn example_fibonacci_assigns_every_number() {
    let assignment = example_fibonacci().unwrap();
    assert_eq!(assignment.values.len(), 101);
    assert_eq!(assignment.values[10], 55);
    assert_eq!(assignment.values[100], 3736710860384812976);
}
