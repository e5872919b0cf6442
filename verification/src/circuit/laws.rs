//! Laws of the calls of this module, each given by its contract (`call_ensures`). A call that
//! changes a value is given by the mutable reference that it takes.

use crate::circuit::constraint::{
    wires_boolean, wires_number, wires_xor, CheckError, Circuit, CircuitBuilder, Constraint,
    Operand, WireId, Witness,
};
use crate::circuit::field::multiply;
use crate::circuit::threshold::{
    build_threshold_circuit, build_threshold_witness, check_threshold, count_signed,
    verify_threshold, wires_sum, AdderOp, ThresholdWires,
};
use vstd::arithmetic::power2::pow2;
use vstd::prelude::*;

verus! {

proof fn lemma_xor_folds(wires: Seq<WireId>, values: Seq<u64>)
    ensures
        wires_xor(wires, values) == wires.fold_left(
            0u64,
            |sum: u64, wire: WireId| sum ^ values[wire.0 as int],
        ),
    decreases wires.len(),
{
    if wires.len() > 0 {
        lemma_xor_folds(wires.drop_last(), values);
    }
}

proof fn lemma_number_folds(wires: Seq<WireId>, values: Seq<u64>)
    ensures
        wires_number(wires, values) == Seq::new(
            wires.len(),
            |i: int| values[wires[i].0 as int] * pow2(i as nat),
        ).fold_left(0int, |sum: int, term: int| sum + term),
    decreases wires.len(),
{
    let terms = Seq::new(wires.len(), |i: int| values[wires[i].0 as int] * pow2(i as nat));
    if wires.len() > 0 {
        let rest = wires.drop_last();
        lemma_number_folds(rest, values);
        assert(terms.drop_last() =~= Seq::new(
            rest.len(),
            |i: int| values[rest[i].0 as int] * pow2(i as nat),
        ));
    }
}

/// A sum of wires starts empty and grows by the wire that is added.
pub proof fn law_operand_grows_by_a_wire(
    empty: Operand,
    operand: Operand,
    wire: WireId,
    grown: Operand,
)
    requires
        call_ensures(Operand::new, (), empty),
        call_ensures(Operand::with_wire, (operand, wire), grown),
    ensures
        call_requires(Operand::new, ()),
        call_requires(Operand::with_wire, (operand, wire)),
        empty.wires@.len() == 0,
        grown.wires@ == operand.wires@.push(wire),
{
}

/// An XOR constraint holds exactly when all its wires have values, and the XOR of the values of
/// the first two sums is that of the third.
pub proof fn law_xor_constraint(a: Operand, b: Operand, c: Operand, values: &[u64], ok: bool)
    requires
        call_ensures(Constraint::check, (&Constraint::Xor { a, b, c }, values), ok),
    ensures
        ({
            let xor = |sum: u64, wire: WireId| sum ^ values@[wire.0 as int];
            ok <==> {
                &&& forall|i: int| 0 <= i < a.wires@.len() ==> (#[trigger] a.wires@[i]).0 < values@.len()
                &&& forall|i: int| 0 <= i < b.wires@.len() ==> (#[trigger] b.wires@[i]).0 < values@.len()
                &&& forall|i: int| 0 <= i < c.wires@.len() ==> (#[trigger] c.wires@[i]).0 < values@.len()
                &&& a.wires@.fold_left(0u64, xor) ^ b.wires@.fold_left(0u64, xor)
                    == c.wires@.fold_left(0u64, xor)
            }
        }),
{
    lemma_xor_folds(a.wires@, values@);
    lemma_xor_folds(b.wires@, values@);
    lemma_xor_folds(c.wires@, values@);
}

/// An AND constraint holds exactly when all its wires have values, and the AND of the values of
/// the first two sums is that of the third.
pub proof fn law_and_constraint(a: Operand, b: Operand, c: Operand, values: &[u64], ok: bool)
    requires
        call_ensures(Constraint::check, (&Constraint::And { a, b, c }, values), ok),
    ensures
        ({
            let xor = |sum: u64, wire: WireId| sum ^ values@[wire.0 as int];
            ok <==> {
                &&& forall|i: int| 0 <= i < a.wires@.len() ==> (#[trigger] a.wires@[i]).0 < values@.len()
                &&& forall|i: int| 0 <= i < b.wires@.len() ==> (#[trigger] b.wires@[i]).0 < values@.len()
                &&& forall|i: int| 0 <= i < c.wires@.len() ==> (#[trigger] c.wires@[i]).0 < values@.len()
                &&& a.wires@.fold_left(0u64, xor) & b.wires@.fold_left(0u64, xor)
                    == c.wires@.fold_left(0u64, xor)
            }
        }),
{
    lemma_xor_folds(a.wires@, values@);
    lemma_xor_folds(b.wires@, values@);
    lemma_xor_folds(c.wires@, values@);
}

/// A constant constraint holds exactly when its wire carries the constant.
pub proof fn law_constant_constraint(wire: WireId, value: u64, values: &[u64], ok: bool)
    requires
        call_ensures(Constraint::check, (&Constraint::Const { wire, value }, values), ok),
    ensures
        forall|constraint: &Constraint| #[trigger]
            call_requires(Constraint::check, (constraint, values)),
        ok <==> wire.0 < values@.len() && values@[wire.0 as int] == value,
{
}

/// A product constraint holds exactly when its wires carry field elements, the third of which
/// is the product of the others.
pub proof fn law_product_constraint(
    a: WireId,
    b: WireId,
    result: WireId,
    values: &[u64],
    ok: bool,
    product: u32,
)
    requires
        call_ensures(Constraint::check, (&Constraint::FieldMul { a, b, result }, values), ok),
        call_ensures(
            multiply,
            (values@[a.0 as int] as u32, values@[b.0 as int] as u32),
            product,
        ),
    ensures
        ok <==> {
            &&& a.0 < values@.len() && b.0 < values@.len() && result.0 < values@.len()
            &&& values@[a.0 as int] <= 0xffff_ffff
            &&& values@[b.0 as int] <= 0xffff_ffff
            &&& values@[result.0 as int] == product
        },
{
}

/// A decomposition holds exactly when all wires have values, the digits are bits, and the wire
/// carries the sum of the digits, each times two to the power of its index.
pub proof fn law_decomposition_constraint(
    wire: WireId,
    bits: Vec<WireId>,
    values: &[u64],
    ok: bool,
)
    requires
        call_ensures(Constraint::check, (&Constraint::RangeDecomposed { wire, bits }, values), ok),
    ensures
        ok <==> {
            &&& wire.0 < values@.len()
            &&& forall|i: int|
                0 <= i < bits@.len() ==> (#[trigger] bits@[i]).0 < values@.len()
                    && values@[bits@[i].0 as int] <= 1
            &&& values@[wire.0 as int] == Seq::new(
                bits@.len(),
                |i: int| values@[bits@[i].0 as int] * pow2(i as nat),
            ).fold_left(0int, |sum: int, term: int| sum + term)
        },
{
    lemma_number_folds(bits@, values@);
    if ok {
        assert(wires_boolean(bits@, values@));
    }
}

/// A circuit is satisfied exactly when there is a value for every wire and every constraint
/// holds. Otherwise the wrong length is reported, or the first constraint that does not hold.
pub proof fn law_circuit_checks_every_constraint(
    circuit: Circuit,
    values: &[u64],
    result: Result<(), CheckError>,
    holds: Seq<bool>,
)
    requires
        call_ensures(Circuit::check, (&circuit, values), result),
        holds.len() == circuit.constraints@.len(),
        forall|i: int|
            0 <= i < holds.len() ==> call_ensures(
                Constraint::check,
                (&circuit.constraints@[i], values),
                #[trigger] holds[i],
            ),
    ensures
        call_requires(Circuit::check, (&circuit, values)),
        values@.len() != circuit.num_wires ==> result == Err::<(), CheckError>(
            CheckError::WrongLength { expected: circuit.num_wires, actual: values@.len() as usize },
        ),
        result is Ok <==> values@.len() == circuit.num_wires && (forall|i: int|
            0 <= i < holds.len() ==> #[trigger] holds[i]),
        result matches Err(CheckError::Unsatisfied { constraint }) ==> {
            &&& values@.len() == circuit.num_wires
            &&& constraint < holds.len()
            &&& !holds[constraint as int]
            &&& forall|i: int| 0 <= i < constraint ==> #[trigger] holds[i]
        },
{
    assert forall|i: int| 0 <= i < holds.len() implies #[trigger] holds[i]
        == circuit.constraints@[i].holds(values@) by {}
    if result is Ok {
        assert forall|i: int| 0 <= i < holds.len() implies #[trigger] holds[i] by {
            assert(circuit.constraints@[i].holds(values@));
        }
    }
    if values@.len() == circuit.num_wires && (forall|i: int|
        0 <= i < holds.len() ==> #[trigger] holds[i]) {
        assert forall|i: int| 0 <= i < circuit.constraints@.len() implies (
        #[trigger] circuit.constraints@[i]).holds(values@) by {
            assert(holds[i]);
        }
    }
    if let Err(CheckError::Unsatisfied { constraint }) = result {
        assert(!holds[constraint as int]);
        assert forall|i: int| 0 <= i < constraint implies #[trigger] holds[i] by {
            assert(circuit.constraints@.take(constraint as int)[i].holds(values@));
        }
    }
}

/// A builder numbers the wires in the order in which they are added, counts the public ones,
/// and leaves the constraints alone.
pub proof fn law_wires_are_numbered_in_order(
    empty: CircuitBuilder,
    public: &mut CircuitBuilder,
    public_wire: WireId,
    witness: &mut CircuitBuilder,
    witness_wire: WireId,
)
    requires
        call_ensures(CircuitBuilder::new, (), empty),
        call_ensures(CircuitBuilder::add_public, (public,), public_wire),
        call_ensures(CircuitBuilder::add_witness, (witness,), witness_wire),
    ensures
        empty.num_wires == 0,
        empty.num_public == 0,
        empty.constraints@.len() == 0,
        public_wire.0 == old(public).num_wires,
        final(public).num_wires == old(public).num_wires + 1,
        final(public).num_public == old(public).num_public + 1,
        final(public).constraints@ == old(public).constraints@,
        witness_wire.0 == old(witness).num_wires,
        final(witness).num_wires == old(witness).num_wires + 1,
        final(witness).num_public == old(witness).num_public,
        final(witness).constraints@ == old(witness).constraints@,
{
}

/// A builder keeps the constraints in the order in which they are added, and the finished
/// circuit has its wires and constraints.
pub proof fn law_constraints_are_kept_in_order(
    a: Operand,
    b: Operand,
    c: Operand,
    wire: WireId,
    value: u64,
    constraint: Constraint,
    xor: &mut CircuitBuilder,
    and: &mut CircuitBuilder,
    constant: &mut CircuitBuilder,
    any: &mut CircuitBuilder,
    builder: CircuitBuilder,
    circuit: Circuit,
)
    requires
        call_ensures(CircuitBuilder::assert_xor, (xor, a, b, c), ()),
        call_ensures(CircuitBuilder::assert_and, (and, a, b, c), ()),
        call_ensures(CircuitBuilder::assert_const, (constant, wire, value), ()),
        call_ensures(CircuitBuilder::add_constraint, (any, constraint), ()),
        call_ensures(CircuitBuilder::build, (builder,), circuit),
    ensures
        final(xor).constraints@ == old(xor).constraints@.push(Constraint::Xor { a, b, c }),
        final(xor).num_wires == old(xor).num_wires,
        final(xor).num_public == old(xor).num_public,
        final(and).constraints@ == old(and).constraints@.push(Constraint::And { a, b, c }),
        final(and).num_wires == old(and).num_wires,
        final(and).num_public == old(and).num_public,
        final(constant).constraints@ == old(constant).constraints@.push(
            Constraint::Const { wire, value },
        ),
        final(constant).num_wires == old(constant).num_wires,
        final(constant).num_public == old(constant).num_public,
        final(any).constraints@ == old(any).constraints@.push(constraint),
        final(any).num_wires == old(any).num_wires,
        final(any).num_public == old(any).num_public,
        circuit.num_wires == builder.num_wires,
        circuit.num_public == builder.num_public,
        circuit.constraints@ == builder.constraints@,
{
}

/// A wire carries 0 at first, and then what was assigned to it last. Assigning a value to one
/// wire leaves the others alone.
pub proof fn law_wire_carries_what_was_assigned(
    num_wires: usize,
    num_public: usize,
    empty: Witness,
    wire: WireId,
    first: u64,
    witness: &mut Witness,
    value: u64,
    other: WireId,
    before: u64,
    after: u64,
)
    requires
        wire.0 < num_wires,
        call_ensures(Witness::new, (num_wires, num_public), empty),
        call_ensures(Witness::get, (&empty, wire), first),
        wire.0 < old(witness).values@.len(),
        other.0 < old(witness).values@.len(),
        call_ensures(Witness::set, (witness, wire, value), ()),
        call_ensures(Witness::get, (old(witness), other), before),
        call_ensures(Witness::get, (final(witness), other), after),
    ensures
        empty.values@.len() == num_wires,
        empty.num_public == num_public,
        first == 0,
        final(witness).values@.len() == old(witness).values@.len(),
        final(witness).num_public == old(witness).num_public,
        other == wire ==> after == value,
        other != wire ==> after == before,
        call_requires(Witness::get, (&empty, wire)),
        call_requires(Witness::set, (witness, wire, value)),
{
}

proof fn lemma_count_filters(signatures: Seq<bool>)
    ensures
        count_signed(signatures) == signatures.filter(|signed: bool| signed).len(),
    decreases signatures.len(),
{
    reveal(Seq::filter);
    if signatures.len() > 0 {
        lemma_count_filters(signatures.drop_last());
    }
}

proof fn lemma_sum_filters(wires: Seq<WireId>, values: Seq<u64>)
    requires
        wires_boolean(wires, values),
    ensures
        wires_sum(wires, values) == Seq::new(
            wires.len(),
            |i: int| values[wires[i].0 as int],
        ).filter(|value: u64| value == 1).len(),
    decreases wires.len(),
{
    reveal(Seq::filter);
    let all = Seq::new(wires.len(), |i: int| values[wires[i].0 as int]);
    if wires.len() > 0 {
        let rest = wires.drop_last();
        assert forall|i: int| 0 <= i < rest.len() implies values[(#[trigger] rest[i]).0 as int]
            <= 1 by {
            assert(rest[i] == wires[i]);
        }
        lemma_sum_filters(rest, values);
        assert(all.drop_last() =~= Seq::new(rest.len(), |i: int| values[rest[i].0 as int]));
        assert(values[wires[wires.len() - 1].0 as int] <= 1);
        assert(all.last() == values[wires.last().0 as int]);
    }
}

/// The circuit decides: a witness for these signatures passes the check exactly when at least as
/// many are present as the threshold says.
pub proof fn law_circuit_decides_the_threshold(
    n: usize,
    built: (Circuit, ThresholdWires),
    signatures: &[bool],
    threshold: u64,
    witness: Witness,
    values: &[u64],
    result: Result<(), CheckError>,
)
    requires
        signatures@.len() == n,
        call_ensures(build_threshold_circuit, (n,), built),
        call_ensures(build_threshold_witness, (&built.1, signatures, threshold), witness),
        values@ == witness.values@,
        call_ensures(Circuit::check, (&built.0, values), result),
    ensures
        n <= usize::MAX / 1024 ==> call_requires(build_threshold_circuit, (n,)),
        call_requires(build_threshold_witness, (&built.1, signatures, threshold)),
        result is Ok <==> signatures@.filter(|signed: bool| signed).len() >= threshold,
{
    lemma_count_filters(signatures@);
}

/// What a witness carries: the number of signatures, the threshold, what the number exceeds it
/// by, the signatures, and bits on every wire after the public ones.
pub proof fn law_witness_carries_its_inputs(
    n: usize,
    built: (Circuit, ThresholdWires),
    signatures: &[bool],
    threshold: u64,
    witness: Witness,
)
    requires
        signatures@.len() == n,
        call_ensures(build_threshold_circuit, (n,), built),
        call_ensures(build_threshold_witness, (&built.1, signatures, threshold), witness),
    ensures
        built.0.num_public == 3,
        witness.num_public == 3,
        witness.values@.len() == built.0.num_wires,
        witness.values@.len() >= 3 + n,
        ({
            let count = signatures@.filter(|signed: bool| signed).len();
            &&& witness.values@[0] == count
            &&& witness.values@[1] == threshold
            &&& witness.values@[2] == (if count >= threshold {
                count - threshold
            } else {
                0
            })
        }),
        forall|i: int|
            0 <= i < n ==> witness.values@[3 + i] == (if #[trigger] signatures@[i] {
                1u64
            } else {
                0
            }),
        forall|i: int| 3 <= i < witness.values@.len() ==> (#[trigger] witness.values@[i]) <= 1,
        // The digits of the count and of the difference make up their values.
        witness.values@[0] == Seq::new(
            built.1.popcount_bits@.len(),
            |i: int| witness.values@[built.1.popcount_bits@[i].0 as int] * pow2(i as nat),
        ).fold_left(0int, |sum: int, term: int| sum + term),
        witness.values@[2] == Seq::new(
            built.1.diff_bits@.len(),
            |i: int| witness.values@[built.1.diff_bits@[i].0 as int] * pow2(i as nat),
        ).fold_left(0int, |sum: int, term: int| sum + term),
{
    lemma_number_folds(built.1.popcount_bits@, witness.values@);
    lemma_number_folds(built.1.diff_bits@, witness.values@);
    lemma_count_filters(signatures@);
    count_is_bounded(signatures@);
    assert forall|i: int| 0 <= i < n implies witness.values@[3 + i] == (if #[trigger] signatures@[i] {
        1u64
    } else {
        0
    }) by {
        assert(built.1.sig_bits@[i].0 == 3 + i);
    }
}

proof fn count_is_bounded(signatures: Seq<bool>)
    ensures
        count_signed(signatures) <= signatures.len(),
    decreases signatures.len(),
{
    if signatures.len() > 0 {
        count_is_bounded(signatures.drop_last());
    }
}

/// The layout of the wires: the public ones first, then the signatures, the adders that count
/// them, the digits of the difference, and those of the threshold. Each of these numbers has as
/// many digits as it may need.
pub proof fn law_layout_of_the_wires(n: usize, built: (Circuit, ThresholdWires))
    requires
        call_ensures(build_threshold_circuit, (n,), built),
    ensures
        ({
            let wires = built.1;
            let digits = wires.diff_bits@.len();
            let start = wires.diff_bits@[0].0;
            &&& built.0.num_public == 3
            &&& wires.count.0 == 0
            &&& wires.threshold.0 == 1
            &&& wires.difference.0 == 2
            &&& wires.sig_bits@.len() == n
            &&& forall|i: int| 0 <= i < n ==> (#[trigger] wires.sig_bits@[i]).0 == 3 + i
            &&& n >= 2 ==> wires.adder_ops@[0] == (AdderOp::Half {
                a: WireId(3),
                b: WireId(4),
                sum: WireId((3 + n) as usize),
                carry: WireId((4 + n) as usize),
            })
            &&& n <= 1 ==> start == 3 + n
            &&& start >= 3 + n
            &&& forall|i: int|
                0 <= i < wires.popcount_bits@.len() ==> (#[trigger] wires.popcount_bits@[i]).0
                    < start
            &&& digits >= 1
            &&& forall|i: int|
                0 <= i < digits ==> (#[trigger] wires.diff_bits@[i]).0 == start + i
            &&& wires.threshold_bits@.len() == digits
            &&& forall|i: int|
                0 <= i < digits ==> (#[trigger] wires.threshold_bits@[i]).0 == start + digits + i
            &&& start + digits + digits <= built.0.num_wires
            &&& pow2((digits - 1) as nat) >= n + 1
            &&& digits >= 2 ==> pow2((digits - 2) as nat) < n + 1
            &&& n == 0 ==> wires.popcount_bits@.len() == 0
            &&& n >= 1 ==> wires.popcount_bits@.len() >= 1 && pow2(
                (wires.popcount_bits@.len() - 1) as nat,
            ) >= n
            &&& wires.popcount_bits@.len() >= 2 ==> pow2(
                (wires.popcount_bits@.len() - 2) as nat,
            ) < n
        }),
{
    let wires = built.1;
    let digits = wires.diff_bits@.len() as int;
    let start = wires.diff_bits@[0].0;
    assert(wires.threshold_bits@[digits - 1].0 < built.0.num_wires);
    assert(wires.diff_bits@[digits - 1].0 < built.0.num_wires);
}

/// Whatever values pass the check of the circuit, honest or not, the wires after the public
/// ones carry bits, the first value is the number of signature wires that are set, and it is the
/// sum of the second and the third: at least as many are set as the threshold says.
pub proof fn law_checked_values_meet_the_threshold(
    n: usize,
    built: (Circuit, ThresholdWires),
    values: &[u64],
    result: Result<(), CheckError>,
)
    requires
        call_ensures(build_threshold_circuit, (n,), built),
        call_ensures(Circuit::check, (&built.0, values), result),
        result is Ok,
    ensures
        values@.len() == built.0.num_wires,
        values@.len() >= 3 + n,
        forall|i: int| 3 <= i < values@.len() ==> (#[trigger] values@[i]) <= 1,
        values@[0] == Seq::new(n as nat, |i: int| values@[3 + i]).filter(
            |value: u64| value == 1,
        ).len(),
        values@[0] == values@[1] + values@[2],
        Seq::new(n as nat, |i: int| values@[3 + i]).filter(|value: u64| value == 1).len()
            >= values@[1],
{
    let wires = built.1.sig_bits@;
    assert(built.0.satisfied(values@));
    lemma_sum_filters(wires, values@);
    assert(Seq::new(wires.len(), |i: int| values@[wires[i].0 as int]) =~= Seq::new(
        n as nat,
        |i: int| values@[3 + i],
    ));
}

/// The light client accepts exactly the public inputs with a threshold that is at least the
/// expected one, and a first number that is the sum of the second and the third: whatever is
/// claimed as the difference, it is rejected unless it is what the count exceeds the threshold
/// by.
pub proof fn law_light_client_checks_the_difference(
    public_inputs: &[u32],
    expected_threshold: u32,
    ok: bool,
)
    requires
        call_ensures(verify_threshold, (public_inputs, expected_threshold), ok),
    ensures
        call_requires(verify_threshold, (public_inputs, expected_threshold)),
        public_inputs@.len() < 3 ==> !ok,
        public_inputs@.len() >= 3 ==> (ok <==> {
            &&& public_inputs@[2] == public_inputs@[0] - public_inputs@[1]
            &&& public_inputs@[1] >= expected_threshold
        }),
        ok ==> public_inputs@[0] >= expected_threshold,
{
}

/// What the light client accepts of the public part of values that pass the check has at least
/// as many signature wires set as it expects.
pub proof fn law_accepted_values_have_the_signatures(
    n: usize,
    built: (Circuit, ThresholdWires),
    values: &[u64],
    result: Result<(), CheckError>,
    public_inputs: &[u32],
    expected_threshold: u32,
    ok: bool,
)
    requires
        call_ensures(build_threshold_circuit, (n,), built),
        call_ensures(Circuit::check, (&built.0, values), result),
        result is Ok,
        public_inputs@.len() >= 3,
        public_inputs@[0] == values@[0],
        public_inputs@[1] == values@[1],
        public_inputs@[2] == values@[2],
        call_ensures(verify_threshold, (public_inputs, expected_threshold), ok),
    ensures
        ok <==> values@[1] >= expected_threshold,
        ok ==> Seq::new(n as nat, |i: int| values@[3 + i]).filter(|value: u64| value == 1).len()
            >= expected_threshold,
{
    law_checked_values_meet_the_threshold(n, built, values, result);
    law_light_client_checks_the_difference(public_inputs, expected_threshold, ok);
}

/// A count passes exactly when it reaches the threshold, which reaches the expected one.
pub proof fn law_threshold_check(count: u32, threshold: u32, expected: u32, ok: bool)
    requires
        call_ensures(check_threshold, (count, threshold, expected), ok),
    ensures
        call_requires(check_threshold, (count, threshold, expected)),
        ok <==> count >= threshold && threshold >= expected,
{
}

} // verus!
