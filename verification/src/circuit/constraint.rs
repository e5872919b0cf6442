//! Wires, constraints, circuits and witnesses.
//!
//! A circuit is a number of wires and a list of constraints over them. A
//! witness assigns a value to every wire; it satisfies the circuit when every
//! constraint holds of the assigned values.

use crate::circuit::field;
use vstd::arithmetic::power2::{
    lemma2_to64, lemma2_to64_rest, lemma_pow2_strictly_increases, lemma_pow2_unfold, pow2,
};
use vstd::prelude::*;

verus! {

/// Index of a wire of a circuit.
#[derive(Clone, Copy, Debug, PartialEq, Eq, Structural)]
pub struct WireId(pub usize);

/// A sum (XOR) of wires.
#[derive(Debug)]
pub struct Operand {
    pub wires: Vec<WireId>,
}

/// The XOR of the values of `wires`.
pub open spec fn wires_xor(wires: Seq<WireId>, values: Seq<u64>) -> u64
    decreases wires.len(),
{
    if wires.len() == 0 {
        0
    } else {
        wires_xor(wires.drop_last(), values) ^ values[wires.last().0 as int]
    }
}

/// Every one of `wires` is among the first `n` wires.
pub open spec fn wires_below(wires: Seq<WireId>, n: nat) -> bool {
    forall|i: int| 0 <= i < wires.len() ==> (#[trigger] wires[i]).0 < n
}

/// Every one of `wires` carries 0 or 1.
pub open spec fn wires_boolean(wires: Seq<WireId>, values: Seq<u64>) -> bool {
    forall|i: int| 0 <= i < wires.len() ==> values[(#[trigger] wires[i]).0 as int] <= 1
}

/// The number whose binary digits, least significant first, are the values of `wires`.
pub open spec fn wires_number(wires: Seq<WireId>, values: Seq<u64>) -> nat
    decreases wires.len(),
{
    if wires.len() == 0 {
        0
    } else {
        wires_number(wires.drop_last(), values) + values[wires.last().0 as int] as nat * pow2(
            (wires.len() - 1) as nat,
        )
    }
}

impl Operand {
    /// The empty sum.
    pub fn new() -> (operand: Self)
        ensures
            operand.wires@ == Seq::<WireId>::empty(),
    {
        Operand { wires: Vec::new() }
    }

    /// The sum with `wire` added to it.
    pub fn with_wire(self, wire: WireId) -> (operand: Self)
        ensures
            operand.wires@ == self.wires@.push(wire),
    {
        let mut wires = self.wires;
        wires.push(wire);
        Operand { wires }
    }

    /// The value of the sum.
    pub open spec fn value(self, values: Seq<u64>) -> u64 {
        wires_xor(self.wires@, values)
    }

    /// Evaluates the sum, or returns `None` if it names a wire without a value.
    fn evaluate(&self, values: &[u64]) -> (value: Option<u64>)
        ensures
            value == (if wires_below(self.wires@, values@.len()) {
                Some(self.value(values@))
            } else {
                None
            }),
    {
        let mut sum: u64 = 0;
        let mut i: usize = 0;
        assert(self.wires@.take(0) =~= Seq::<WireId>::empty());
        while i < self.wires.len()
            invariant
                i <= self.wires.len(),
                wires_below(self.wires@.take(i as int), values@.len()),
                sum == wires_xor(self.wires@.take(i as int), values@),
            decreases self.wires.len() - i,
        {
            let wire = self.wires[i];
            if wire.0 >= values.len() {
                assert(self.wires@[i as int].0 >= values@.len());
                return None;
            }
            sum = sum ^ values[wire.0];
            proof {
                let next = self.wires@.take(i + 1);
                assert(next.drop_last() =~= self.wires@.take(i as int));
                assert(next.last() == wire);
                assert forall|k: int| 0 <= k < next.len() implies (#[trigger] next[k]).0
                    < values@.len() by {
                    if k < i {
                        assert(self.wires@.take(i as int)[k].0 < values@.len());
                    }
                }
            }
            i = i + 1;
        }
        assert(self.wires@.take(self.wires@.len() as int) =~= self.wires@);
        Some(sum)
    }
}

/// A relation between the values of some wires.
#[derive(Debug)]
#[allow(inconsistent_fields)]
pub enum Constraint {
    /// `a ^ b = c`.
    Xor { a: Operand, b: Operand, c: Operand },
    /// `a & b = c`.
    And { a: Operand, b: Operand, c: Operand },
    /// The wire carries `value`.
    Const { wire: WireId, value: u64 },
    /// The three wires carry elements of GF(2^32) with `a * b = result`.
    FieldMul { a: WireId, b: WireId, result: WireId },
    /// Every bit is 0 or 1, and the wire carries the number with these binary digits.
    RangeDecomposed { wire: WireId, bits: Vec<WireId> },
}

impl Constraint {
    /// The constraint speaks only of the first `n` wires.
    pub open spec fn within(self, n: nat) -> bool {
        match self {
            Constraint::Xor { a, b, c } => wires_below(a.wires@, n) && wires_below(b.wires@, n)
                && wires_below(c.wires@, n),
            Constraint::And { a, b, c } => wires_below(a.wires@, n) && wires_below(b.wires@, n)
                && wires_below(c.wires@, n),
            Constraint::Const { wire, .. } => wire.0 < n,
            Constraint::FieldMul { a, b, result } => a.0 < n && b.0 < n && result.0 < n,
            Constraint::RangeDecomposed { wire, bits } => wire.0 < n && wires_below(bits@, n),
        }
    }

    /// The constraint holds of `values`.
    pub open spec fn holds(self, values: Seq<u64>) -> bool {
        &&& self.within(values.len())
        &&& match self {
            Constraint::Xor { a, b, c } => a.value(values) ^ b.value(values) == c.value(values),
            Constraint::And { a, b, c } => a.value(values) & b.value(values) == c.value(values),
            Constraint::Const { wire, value } => values[wire.0 as int] == value,
            Constraint::FieldMul { a, b, result } => field_product(
                values[a.0 as int],
                values[b.0 as int],
                values[result.0 as int],
            ),
            Constraint::RangeDecomposed { wire, bits } => wires_boolean(bits@, values)
                && values[wire.0 as int] == wires_number(bits@, values),
        }
    }

    /// Tests whether the constraint holds of `values`.
    pub fn check(&self, values: &[u64]) -> (ok: bool)
        ensures
            ok == self.holds(values@),
    {
        match self {
            Constraint::Xor { a, b, c } => match (
                a.evaluate(values),
                b.evaluate(values),
                c.evaluate(values),
            ) {
                (Some(x), Some(y), Some(z)) => x ^ y == z,
                _ => false,
            },
            Constraint::And { a, b, c } => match (
                a.evaluate(values),
                b.evaluate(values),
                c.evaluate(values),
            ) {
                (Some(x), Some(y), Some(z)) => x & y == z,
                _ => false,
            },
            Constraint::Const { wire, value } => wire.0 < values.len() && values[wire.0] == *value,
            Constraint::FieldMul { a, b, result } => {
                if a.0 < values.len() && b.0 < values.len() && result.0 < values.len() {
                    check_field_product(values[a.0], values[b.0], values[result.0])
                } else {
                    false
                }
            },
            Constraint::RangeDecomposed { wire, bits } => {
                if wire.0 < values.len() {
                    check_decomposition(values[wire.0], bits, values)
                } else {
                    false
                }
            },
        }
    }
}

/// `x`, `y` and `z` are elements of GF(2^32), and `z` is the product of `x` and `y`.
pub open spec fn field_product(x: u64, y: u64, z: u64) -> bool {
    &&& x <= u32::MAX
    &&& y <= u32::MAX
    &&& z <= u32::MAX
    &&& field::product(x as u32, y as u32) == z as u32
}

fn check_field_product(x: u64, y: u64, z: u64) -> (ok: bool)
    ensures
        ok == field_product(x, y, z),
{
    let limit: u64 = 0xffff_ffff;
    x <= limit && y <= limit && z <= limit && field::multiply(x as u32, y as u32) == z as u32
}

/// Tests whether `bits` carry the binary digits of `value`.
fn check_decomposition(value: u64, bits: &Vec<WireId>, values: &[u64]) -> (ok: bool)
    ensures
        ok == (wires_below(bits@, values@.len()) && wires_boolean(bits@, values@) && value
            == wires_number(bits@, values@)),
{
    let mut sum: u64 = 0;
    let mut weight: u64 = 1;
    let mut i: usize = 0;
    let mut fits: bool = true;
    proof {
        lemma2_to64();
        assert(bits@.take(0) =~= Seq::<WireId>::empty());
    }
    while i < bits.len()
        invariant
            i <= bits.len(),
            wires_below(bits@.take(i as int), values@.len()),
            wires_boolean(bits@.take(i as int), values@),
            fits ==> sum == wires_number(bits@.take(i as int), values@),
            fits ==> sum < pow2(i as nat),
            !fits ==> wires_number(bits@.take(i as int), values@) > u64::MAX,
            i < 64 ==> weight == pow2(i as nat),
        decreases bits.len() - i,
    {
        let wire = bits[i];
        if wire.0 >= values.len() {
            assert(bits@[i as int].0 >= values@.len());
            return false;
        }
        let bit = values[wire.0];
        if bit > 1 {
            assert(values@[bits@[i as int].0 as int] > 1);
            return false;
        }
        proof {
            let next = bits@.take(i + 1);
            assert(next.drop_last() =~= bits@.take(i as int));
            assert(next.last() == wire);
            assert forall|k: int| 0 <= k < next.len() implies (#[trigger] next[k]).0 < values@.len()
                && values@[next[k].0 as int] <= 1 by {
                if k < i {
                    assert(next[k] == bits@.take(i as int)[k]);
                }
            }
            lemma_pow2_unfold((i + 1) as nat);
            assert(bit as nat * pow2(i as nat) == (if bit == 1 { pow2(i as nat) } else { 0nat }))
                by (nonlinear_arith)
                requires
                    bit <= 1,
            ;
            lemma2_to64();
            lemma2_to64_rest();
            if i < 63 {
                lemma_pow2_strictly_increases((i + 1) as nat, 64);
            }
            if i < 64 {
                lemma_pow2_strictly_increases(i as nat, 64);
            } else if i > 64 {
                lemma_pow2_strictly_increases(64, i as nat);
            }
        }
        if bit == 1 {
            if i >= 64 {
                fits = false;
            } else if fits {
                sum = sum + weight;
            }
        }
        if i < 63 {
            weight = weight * 2;
        }
        i = i + 1;
    }
    assert(bits@.take(bits@.len() as int) =~= bits@);
    fits && sum == value
}

/// Every constraint of the list holds of `values`.
pub open spec fn all_hold(constraints: Seq<Constraint>, values: Seq<u64>) -> bool {
    forall|i: int| 0 <= i < constraints.len() ==> (#[trigger] constraints[i]).holds(values)
}

/// Why a circuit rejects an assignment of values.
#[derive(Clone, Copy, Debug, PartialEq, Eq, Structural)]
pub enum CheckError {
    /// The number of values is not the number of wires.
    WrongLength { expected: usize, actual: usize },
    /// The constraint with this index is the first that does not hold.
    Unsatisfied { constraint: usize },
}

/// A finished circuit.
#[derive(Debug)]
pub struct Circuit {
    pub num_wires: usize,
    pub num_public: usize,
    pub constraints: Vec<Constraint>,
}

impl Circuit {
    /// `values` assigns a value to every wire and satisfies every constraint.
    pub open spec fn satisfied(self, values: Seq<u64>) -> bool {
        &&& values.len() == self.num_wires
        &&& all_hold(self.constraints@, values)
    }

    /// Tests whether `values` satisfies the circuit.
    pub fn check(&self, values: &[u64]) -> (result: Result<(), CheckError>)
        ensures
            result is Ok <==> self.satisfied(values@),
            result matches Err(CheckError::WrongLength { expected, actual }) ==> expected
                == self.num_wires && actual == values@.len(),
            result matches Err(CheckError::WrongLength { .. }) <==> values@.len()
                != self.num_wires,
            result matches Err(CheckError::Unsatisfied { constraint }) ==> {
                &&& constraint < self.constraints@.len()
                &&& !self.constraints@[constraint as int].holds(values@)
                &&& all_hold(self.constraints@.take(constraint as int), values@)
            },
    {
        if values.len() != self.num_wires {
            return Err(
                CheckError::WrongLength { expected: self.num_wires, actual: values.len() },
            );
        }
        let mut i: usize = 0;
        while i < self.constraints.len()
            invariant
                i <= self.constraints.len(),
                values@.len() == self.num_wires,
                forall|k: int|
                    0 <= k < i ==> (#[trigger] self.constraints@[k]).holds(values@),
            decreases self.constraints.len() - i,
        {
            if !self.constraints[i].check(values) {
                return Err(CheckError::Unsatisfied { constraint: i });
            }
            i = i + 1;
        }
        Ok(())
    }
}

/// Collects the wires and constraints of a circuit.
#[derive(Debug)]
pub struct CircuitBuilder {
    pub num_wires: usize,
    pub num_public: usize,
    pub constraints: Vec<Constraint>,
}

impl CircuitBuilder {
    /// A circuit without wires.
    pub fn new() -> (builder: Self)
        ensures
            builder.num_wires == 0,
            builder.num_public == 0,
            builder.constraints@ == Seq::<Constraint>::empty(),
    {
        CircuitBuilder { num_wires: 0, num_public: 0, constraints: Vec::new() }
    }

    /// Adds a wire whose value is public.
    pub fn add_public(&mut self) -> (wire: WireId)
        requires
            old(self).num_public <= old(self).num_wires < usize::MAX,
        ensures
            wire.0 == old(self).num_wires,
            final(self).num_wires == old(self).num_wires + 1,
            final(self).num_public == old(self).num_public + 1,
            final(self).constraints@ == old(self).constraints@,
    {
        let wire = WireId(self.num_wires);
        self.num_wires = self.num_wires + 1;
        self.num_public = self.num_public + 1;
        wire
    }

    /// Adds a wire whose value only the prover knows.
    pub fn add_witness(&mut self) -> (wire: WireId)
        requires
            old(self).num_wires < usize::MAX,
        ensures
            wire.0 == old(self).num_wires,
            final(self).num_wires == old(self).num_wires + 1,
            final(self).num_public == old(self).num_public,
            final(self).constraints@ == old(self).constraints@,
    {
        let wire = WireId(self.num_wires);
        self.num_wires = self.num_wires + 1;
        wire
    }

    /// Adds a constraint.
    pub fn add_constraint(&mut self, constraint: Constraint)
        ensures
            final(self).num_wires == old(self).num_wires,
            final(self).num_public == old(self).num_public,
            final(self).constraints@ == old(self).constraints@.push(constraint),
    {
        self.constraints.push(constraint);
    }

    /// Requires `a ^ b = c`.
    pub fn assert_xor(&mut self, a: Operand, b: Operand, c: Operand)
        ensures
            final(self).num_wires == old(self).num_wires,
            final(self).num_public == old(self).num_public,
            final(self).constraints@ == old(self).constraints@.push(Constraint::Xor { a, b, c }),
    {
        self.add_constraint(Constraint::Xor { a, b, c });
    }

    /// Requires `a & b = c`.
    pub fn assert_and(&mut self, a: Operand, b: Operand, c: Operand)
        ensures
            final(self).num_wires == old(self).num_wires,
            final(self).num_public == old(self).num_public,
            final(self).constraints@ == old(self).constraints@.push(Constraint::And { a, b, c }),
    {
        self.add_constraint(Constraint::And { a, b, c });
    }

    /// Requires that `wire` carries `value`.
    pub fn assert_const(&mut self, wire: WireId, value: u64)
        ensures
            final(self).num_wires == old(self).num_wires,
            final(self).num_public == old(self).num_public,
            final(self).constraints@ == old(self).constraints@.push(
                (Constraint::Const { wire, value }),
            ),
    {
        self.add_constraint(Constraint::Const { wire, value });
    }

    /// The finished circuit.
    pub fn build(self) -> (circuit: Circuit)
        ensures
            circuit.num_wires == self.num_wires,
            circuit.num_public == self.num_public,
            circuit.constraints@ == self.constraints@,
    {
        Circuit {
            num_wires: self.num_wires,
            num_public: self.num_public,
            constraints: self.constraints,
        }
    }
}

/// An assignment of values to the wires of a circuit.
#[derive(Debug)]
pub struct Witness {
    pub values: Vec<u64>,
    pub num_public: usize,
}

impl Witness {
    /// The assignment of 0 to each of `num_wires` wires.
    pub fn new(num_wires: usize, num_public: usize) -> (witness: Self)
        ensures
            witness.values@ == Seq::new(num_wires as nat, |i: int| 0u64),
            witness.num_public == num_public,
    {
        let mut values: Vec<u64> = Vec::new();
        let mut i: usize = 0;
        while i < num_wires
            invariant
                i <= num_wires,
                values@ == Seq::new(i as nat, |i: int| 0u64),
            decreases num_wires - i,
        {
            values.push(0);
            i = i + 1;
            assert(values@ =~= Seq::new(i as nat, |i: int| 0u64));
        }
        Witness { values, num_public }
    }

    /// Assigns `value` to `wire`.
    pub fn set(&mut self, wire: WireId, value: u64)
        requires
            wire.0 < old(self).values@.len(),
        ensures
            final(self).values@ == old(self).values@.update(wire.0 as int, value),
            final(self).num_public == old(self).num_public,
    {
        self.values.set(wire.0, value);
    }

    /// The value of `wire`.
    pub fn get(&self, wire: WireId) -> (value: u64)
        requires
            wire.0 < self.values@.len(),
        ensures
            value == self.values@[wire.0 as int],
    {
        self.values[wire.0]
    }
}

} // verus!
