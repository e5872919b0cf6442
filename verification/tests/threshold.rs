use stateful::circuit::constraint::{CheckError, Circuit, CircuitBuilder, Constraint, Operand, WireId, Witness};
use stateful::circuit::field::multiply;
use stateful::circuit::threshold::{build_threshold_circuit, build_threshold_witness, check_threshold, verify_threshold};

#[test]
fn test_threshold_satisfied() {
    let n = 10;
    let (circuit, wires) = build_threshold_circuit(n);
    let sigs = vec![true, true, false, true, true, true, false, true, false, true];
    let witness = build_threshold_witness(&wires, &sigs, 6);
    assert!(circuit.check(&witness.values).is_ok());
}

#[test]
fn test_malicious_count_rejected() {
    let n = 4;
    let (circuit, wires) = build_threshold_circuit(n);
    let sigs = vec![true, false, true, false];
    let mut witness = build_threshold_witness(&wires, &sigs, 1);
    witness.set(wires.count, 4); // lie about count
    witness.set(wires.difference, 3);
    assert!(circuit.check(&witness.values).is_err());
}

#[test]
fn test_boolean_violation() {
    let n = 4;
    let (circuit, wires) = build_threshold_circuit(n);
    let sigs = vec![true, true, false, true];
    let mut witness = build_threshold_witness(&wires, &sigs, 2);
    witness.set(wires.sig_bits[0], 2); // not boolean
    assert!(circuit.check(&witness.values).is_err());
}

#[test]
fn test_exact_threshold() {
    let n = 5;
    let (circuit, wires) = build_threshold_circuit(n);
    let sigs = vec![true, false, true, true, false];
    let witness = build_threshold_witness(&wires, &sigs, 3);
    assert!(circuit.check(&witness.values).is_ok());
    assert!(verify_threshold(&[3, 3, 0], 3));
}

#[test]
fn test_below_threshold() {
    assert!(!verify_threshold(&[2, 3, 0], 3));
}

#[test]
fn test_verify_public() {
    assert!(verify_threshold(&[7, 6, 1], 6));
    assert!(verify_threshold(&[6, 6, 0], 6));
    assert!(!verify_threshold(&[5, 6, 0], 6));
    assert!(!verify_threshold(&[7, 4, 3], 6));
}

#[test]
fn test_prove_verify_e2e() {
    let n = 8;
    let (circuit, wires) = build_threshold_circuit(n);
    let sigs = vec![true, true, true, false, true, false, true, true];
    let witness = build_threshold_witness(&wires, &sigs, 5);
    assert!(circuit.check(&witness.values).is_ok());
    // Public inputs: count=6, threshold=5, difference=1.
    assert!(verify_threshold(&[6, 5, 1], 5));
}

#[test]
fn honest_witness_satisfies_every_small_circuit_whose_threshold_is_met() {
    for n in 0..20usize {
        let (circuit, wires) = build_threshold_circuit(n);
        assert_eq!(circuit.num_public, 3);
        for k in 0..=n {
            let sigs: Vec<bool> = (0..n).map(|i| (i * 7) % n < k).collect();
            let count = sigs.iter().filter(|s| **s).count() as u64;
            for threshold in 0..(n as u64 + 3) {
                let witness = build_threshold_witness(&wires, &sigs, threshold);
                assert_eq!(witness.values.len(), circuit.num_wires);
                assert_eq!(circuit.check(&witness.values).is_ok(), count >= threshold);
                assert_eq!(witness.values[0], count);
                assert_eq!(witness.values[1], threshold);
                assert_eq!(witness.values[2], count.saturating_sub(threshold));
                let public = [
                    witness.values[0] as u32,
                    witness.values[1] as u32,
                    witness.values[2] as u32,
                ];
                assert_eq!(verify_threshold(&public, threshold as u32), count >= threshold);
            }
        }
    }
}

#[test]
fn every_false_count_is_rejected() {
    let n = 9;
    let (circuit, wires) = build_threshold_circuit(n);
    let sigs = vec![true, false, true, true, false, true, false, false, true];
    for claim in 0..16u64 {
        let mut witness = build_threshold_witness(&wires, &sigs, 2);
        witness.set(wires.count, claim);
        assert_eq!(circuit.check(&witness.values).is_ok(), claim == 5);
    }
}

/// The number whose binary digits the wires carry.
fn number(witness: &Witness, wires: &[WireId]) -> u64 {
    wires.iter().enumerate().map(|(i, wire)| witness.get(*wire) << i).sum()
}

#[test]
fn unmet_threshold_is_rejected() {
    // One validator, no signature, and a threshold of one.
    let (circuit, wires) = build_threshold_circuit(1);
    let witness = build_threshold_witness(&wires, &[false], 1);
    assert!(circuit.check(&witness.values).is_err());

    // Nor does another threshold or difference help.
    let (circuit, wires) = build_threshold_circuit(4);
    let sigs = [true, false, true, false];
    for threshold in 0..8u64 {
        for difference in 0..8u64 {
            let mut witness = build_threshold_witness(&wires, &sigs, threshold);
            witness.set(wires.difference, difference);
            for (j, wire) in wires.diff_bits.iter().enumerate() {
                witness.set(*wire, (difference >> j) & 1);
            }
            let honest = threshold + difference == 2;
            assert_eq!(circuit.check(&witness.values).is_ok(), honest);
        }
    }
}

#[test]
fn witness_carries_the_digits() {
    for n in 0..12usize {
        let (_, wires) = build_threshold_circuit(n);
        let sigs: Vec<bool> = (0..n).map(|i| i % 3 != 1).collect();
        let count = sigs.iter().filter(|s| **s).count() as u64;
        for threshold in [0, 1, 5, 40, u64::MAX] {
            let witness = build_threshold_witness(&wires, &sigs, threshold);
            assert_eq!(number(&witness, &wires.popcount_bits), count);
            assert_eq!(number(&witness, &wires.diff_bits), count.saturating_sub(threshold));
            assert!(witness.values[3..].iter().all(|value| *value <= 1));
        }
    }
}

#[test]
fn layout_of_small_circuits() {
    let (circuit, wires) = build_threshold_circuit(0);
    // Three public wires, one digit each of the difference and the threshold, and the
    // half adder that adds them up.
    assert_eq!(circuit.num_wires, 7);
    assert_eq!(wires.diff_bits.len(), 1);
    assert_eq!(wires.threshold_bits.len(), 1);
    assert!(wires.popcount_bits.is_empty());
    let (_, wires) = build_threshold_circuit(4);
    assert_eq!(wires.count, WireId(0));
    assert_eq!(wires.threshold, WireId(1));
    assert_eq!(wires.difference, WireId(2));
    assert_eq!(wires.sig_bits, vec![WireId(3), WireId(4), WireId(5), WireId(6)]);
    assert_eq!(wires.diff_bits.len(), 4);
    assert_eq!(wires.popcount_bits.len(), 3);
    let (_, wires) = build_threshold_circuit(7);
    assert_eq!(wires.diff_bits.len(), 4);
    assert_eq!(wires.popcount_bits.len(), 4);
    let (_, wires) = build_threshold_circuit(8);
    assert_eq!(wires.diff_bits.len(), 5);
    assert_eq!(wires.popcount_bits.len(), 4);
    let (_, wires) = build_threshold_circuit(1);
    assert_eq!(wires.popcount_bits, wires.sig_bits);
}

#[test]
fn adder_tree_comes_before_the_digits() {
    // Two validators: a half adder on wires 5 and 6, three digits each of the difference
    // and of the threshold, and three adders that add them up.
    let (circuit, wires) = build_threshold_circuit(2);
    assert_eq!(wires.sig_bits, vec![WireId(3), WireId(4)]);
    assert_eq!(wires.popcount_bits, vec![WireId(5), WireId(6)]);
    assert_eq!(wires.diff_bits, vec![WireId(7), WireId(8), WireId(9)]);
    assert_eq!(wires.threshold_bits, vec![WireId(10), WireId(11), WireId(12)]);
    assert_eq!(circuit.num_wires, 13 + 2 + 5 + 5);
    let witness = build_threshold_witness(&wires, &[true, true], 1);
    assert_eq!(
        witness.values[..13],
        [2, 1, 1, 1, 1, 0, 1, 1, 0, 0, 1, 0, 0]
    );
    let witness = build_threshold_witness(&wires, &[true, false], 1);
    assert_eq!(
        witness.values[..13],
        [1, 1, 0, 1, 0, 1, 0, 0, 0, 0, 1, 0, 0]
    );
}

#[test]
fn wrong_length_is_reported() {
    let (circuit, _) = build_threshold_circuit(0);
    assert_eq!(
        circuit.check(&[0, 0]),
        Err(CheckError::WrongLength { expected: 7, actual: 2 })
    );
}

#[test]
fn first_unsatisfied_constraint_is_reported() {
    let mut builder = CircuitBuilder::new();
    let a = builder.add_public();
    let b = builder.add_witness();
    let c = builder.add_witness();
    builder.assert_const(a, 5);
    builder.assert_and(
        Operand::new().with_wire(a),
        Operand::new().with_wire(b),
        Operand::new().with_wire(c),
    );
    builder.assert_xor(
        Operand::new().with_wire(a).with_wire(b),
        Operand::new(),
        Operand::new().with_wire(c),
    );
    let circuit: Circuit = builder.build();
    assert_eq!(circuit.check(&[4, 6, 4]), Err(CheckError::Unsatisfied { constraint: 0 }));
    assert_eq!(circuit.check(&[5, 6, 5]), Err(CheckError::Unsatisfied { constraint: 1 }));
    assert_eq!(circuit.check(&[5, 6, 4]), Err(CheckError::Unsatisfied { constraint: 2 }));
    assert_eq!(circuit.check(&[5, 0, 0]), Err(CheckError::Unsatisfied { constraint: 2 }));
    assert_eq!(circuit.check(&[5, 5, 5]), Err(CheckError::Unsatisfied { constraint: 2 }));
    let mut builder = CircuitBuilder::new();
    let x = builder.add_witness();
    builder.add_constraint(Constraint::Const { wire: WireId(7), value: 0 });
    assert_eq!(x, WireId(0));
    assert_eq!(builder.build().check(&[0]), Err(CheckError::Unsatisfied { constraint: 0 }));
}

#[test]
fn decomposition_needs_bits() {
    let mut builder = CircuitBuilder::new();
    let x = builder.add_witness();
    let low = builder.add_witness();
    let high = builder.add_witness();
    builder.add_constraint(Constraint::RangeDecomposed { wire: x, bits: vec![low, high] });
    let circuit = builder.build();
    assert!(circuit.check(&[3, 1, 1]).is_ok());
    assert!(circuit.check(&[2, 0, 1]).is_ok());
    assert!(circuit.check(&[2, 2, 0]).is_err());
    assert!(circuit.check(&[4, 0, 2]).is_err());
}

#[test]
fn witness_reads_what_was_set() {
    let mut witness = Witness::new(3, 1);
    assert_eq!(witness.get(WireId(2)), 0);
    witness.set(WireId(2), 9);
    assert_eq!(witness.get(WireId(2)), 9);
    assert_eq!(witness.get(WireId(1)), 0);
    assert_eq!(witness.num_public, 1);
}

#[test]
fn field_products() {
    assert_eq!(multiply(0, 0xdead_beef), 0);
    assert_eq!(multiply(1, 0xdead_beef), 0xdead_beef);
    assert_eq!(multiply(2, 0x8000_0000), 0x8d);
    assert_eq!(multiply(3, 3), 5);
    assert_eq!(multiply(0x8000_0000, 0x8000_0000), 0x4000_1037);
    for a in [2u32, 3, 0x1_0000, 0xffff_ffff, 0x8d] {
        assert!(multiply(a, a) != a);
    }
}

#[test]
fn threshold_comparison() {
    assert!(check_threshold(5, 3, 3));
    assert!(!check_threshold(2, 3, 3));
    assert!(!check_threshold(5, 3, 4));
    assert!(!verify_threshold(&[7, 6], 6));
    // A difference that wraps around does not help.
    assert!(!verify_threshold(&[1, 6, 0xffff_fffb], 6));
}
