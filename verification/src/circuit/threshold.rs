//! Threshold signature verification circuit: shows that at least `threshold` of `n`
//! validators signed a message.
//!
//! Over a binary field, addition is XOR, so that a sum of signature bits gives their
//! parity and not their number. The bits are therefore counted by a tree of binary
//! adders, whose every wire is constrained.
//!
//! # Soundness
//!
//! 1. Each signature bit is its own product with itself in GF(2^32), which holds of
//!    0 and 1 alone ([`law_idempotent_is_boolean`](field::law_idempotent_is_boolean)).
//! 2. The adders fix the wires of the count, which are then the number of signature
//!    bits that are set ([`law_count_is_determined`]): no other count can be claimed.
//! 3. The digits of the threshold and of the difference are added up by adders as well,
//!    and the sum is the count. So the difference is not negative, and at least as many
//!    signature bits are set as the threshold says
//!    ([`law_satisfied_circuit_meets_threshold`]).
//!
//! What the light client accepts has then at least as many signatures as it expects
//! ([`law_accepted_threshold_is_met`]). In turn, the values of an honest prover satisfy the
//! circuit exactly when the threshold is met ([`law_honest_threshold_is_accepted`]).
//!
//! # Wires
//!
//! The first three wires are public: the count, the threshold and their difference.
//! The signature bits come next, one for each validator, then the wires of the adder tree,
//! then the binary digits of the difference and of the threshold, and then the wires of the
//! adders that add these up.

use crate::circuit::constraint::{
    all_hold, wires_below, wires_boolean, wires_number, wires_xor, Circuit, CircuitBuilder,
    Constraint, Operand, WireId, Witness,
};
use crate::circuit::field;
use vstd::arithmetic::power2::{
    lemma2_to64, lemma2_to64_rest, lemma_pow2_pos, lemma_pow2_strictly_increases,
    lemma_pow2_unfold, pow2,
};
use vstd::prelude::*;

verus! {

/// One adder of the tree, with the wires it reads and the wires it drives.
#[derive(Clone, Copy, Debug)]
pub enum AdderOp {
    Half { a: WireId, b: WireId, sum: WireId, carry: WireId },
    Full {
        a: WireId,
        b: WireId,
        cin: WireId,
        sum: WireId,
        cout: WireId,
        s1: WireId,
        c1: WireId,
        c2: WireId,
    },
}

/// The value of `wire`.
spec fn at(values: Seq<u64>, wire: WireId) -> u64 {
    values[wire.0 as int]
}

impl AdderOp {
    /// The adder reads wires below `n` and drives the next wires, in order.
    spec fn placed(self, n: nat) -> bool {
        match self {
            AdderOp::Half { a, b, sum, carry } => a.0 < n && b.0 < n && sum.0 == n && carry.0 == n
                + 1,
            AdderOp::Full { a, b, cin, sum, cout, s1, c1, c2 } => a.0 < n && b.0 < n && cin.0 < n
                && s1.0 == n && c1.0 == n + 1 && sum.0 == n + 2 && c2.0 == n + 3 && cout.0 == n + 4,
        }
    }

    /// The adder reads no wire before the one numbered `base`.
    spec fn reads_from(self, base: nat) -> bool {
        match self {
            AdderOp::Half { a, b, .. } => a.0 >= base && b.0 >= base,
            AdderOp::Full { a, b, cin, .. } => a.0 >= base && b.0 >= base && cin.0 >= base,
        }
    }

    /// The number of wires that the adder drives.
    spec fn width(self) -> nat {
        match self {
            AdderOp::Half { .. } => 2,
            AdderOp::Full { .. } => 5,
        }
    }

    /// The wire after the last one that the adder drives.
    pub open spec fn end(self) -> nat {
        match self {
            AdderOp::Half { carry, .. } => (carry.0 + 1) as nat,
            AdderOp::Full { cout, .. } => (cout.0 + 1) as nat,
        }
    }

    /// The driven wires carry what the adder computes.
    spec fn holds(self, v: Seq<u64>) -> bool {
        match self {
            AdderOp::Half { a, b, sum, carry } => {
                &&& a.0 < v.len() && b.0 < v.len() && sum.0 < v.len() && carry.0 < v.len()
                &&& at(v, a) ^ at(v, b) == at(v, sum)
                &&& at(v, a) & at(v, b) == at(v, carry)
            },
            AdderOp::Full { a, b, cin, sum, cout, s1, c1, c2 } => {
                &&& a.0 < v.len() && b.0 < v.len() && cin.0 < v.len() && sum.0 < v.len() && cout.0
                    < v.len() && s1.0 < v.len() && c1.0 < v.len() && c2.0 < v.len()
                &&& at(v, a) ^ at(v, b) == at(v, s1)
                &&& at(v, a) & at(v, b) == at(v, c1)
                &&& at(v, s1) ^ at(v, cin) == at(v, sum)
                &&& at(v, s1) & at(v, cin) == at(v, c2)
                &&& at(v, c1) ^ at(v, c2) == at(v, cout)
            },
        }
    }

    /// `v` with the driven wires set to what the adder computes.
    spec fn eval(self, v: Seq<u64>) -> Seq<u64> {
        match self {
            AdderOp::Half { a, b, sum, carry } => v.update(
                sum.0 as int,
                at(v, a) ^ at(v, b),
            ).update(carry.0 as int, at(v, a) & at(v, b)),
            AdderOp::Full { a, b, cin, sum, cout, s1, c1, c2 } => {
                let vs1 = at(v, a) ^ at(v, b);
                let vc1 = at(v, a) & at(v, b);
                let vsum = vs1 ^ at(v, cin);
                let vc2 = vs1 & at(v, cin);
                v.update(s1.0 as int, vs1).update(c1.0 as int, vc1).update(
                    sum.0 as int,
                    vsum,
                ).update(c2.0 as int, vc2).update(cout.0 as int, vc1 ^ vc2)
            },
        }
    }
}

/// `v` after running the adders in order.
spec fn run(ops: Seq<AdderOp>, v: Seq<u64>) -> Seq<u64>
    decreases ops.len(),
{
    if ops.len() == 0 {
        v
    } else {
        ops.last().eval(run(ops.drop_last(), v))
    }
}

/// The adder is placed among the wires from `lo` up to `hi`.
spec fn placed_within(op: AdderOp, lo: nat, hi: nat) -> bool {
    exists|n: nat| #[trigger] op.placed(n) && lo <= n && n + op.width() <= hi
}

/// Every adder drives only wires from `lo` up to `hi`.
spec fn ops_within(ops: Seq<AdderOp>, lo: nat, hi: nat) -> bool {
    forall|i: int| 0 <= i < ops.len() ==> placed_within(#[trigger] ops[i], lo, hi)
}

/// No adder reads a wire before the one numbered `base`.
spec fn ops_read_from(ops: Seq<AdderOp>, base: nat) -> bool {
    forall|i: int| 0 <= i < ops.len() ==> (#[trigger] ops[i]).reads_from(base)
}

/// Every constraint speaks only of the first `n` wires.
spec fn constraints_within(constraints: Seq<Constraint>, n: nat) -> bool {
    forall|i: int| 0 <= i < constraints.len() ==> (#[trigger] constraints[i]).within(n)
}

/// Every one of `wires` comes at or after the wire numbered `base`.
spec fn wires_from(wires: Seq<WireId>, base: nat) -> bool {
    forall|i: int| 0 <= i < wires.len() ==> (#[trigger] wires[i]).0 >= base
}

/// The wires from `base` up to `end` carry bits.
spec fn bits_between(v: Seq<u64>, base: nat, end: nat) -> bool {
    forall|i: int| base <= i < end ==> (#[trigger] v[i]) <= 1
}

/// `longer` starts with `shorter`.
spec fn extends(longer: Seq<AdderOp>, shorter: Seq<AdderOp>) -> bool {
    &&& longer.len() >= shorter.len()
    &&& longer.take(shorter.len() as int) == shorter
}

/// The half adder of two wires that drives the wires numbered `n` and `n + 1`.
pub open spec fn half_adder_at(a: WireId, b: WireId, n: int) -> AdderOp {
    AdderOp::Half { a, b, sum: WireId(n as usize), carry: WireId((n + 1) as usize) }
}

/// The larger of two lengths.
spec fn longer(a: nat, b: nat) -> nat {
    if a >= b {
        a
    } else {
        b
    }
}

/// `v` satisfies every constraint added so far.
spec fn admits(builder: CircuitBuilder, v: Seq<u64>) -> bool {
    all_hold(builder.constraints@, v)
}

/// The wire numbered `first` and those after it carry 0.
spec fn zero_from(v: Seq<u64>, first: nat) -> bool {
    forall|i: int| first <= i < v.len() ==> (#[trigger] v[i]) == 0
}

/// What adders start from: they read wires from `base` on and drive wires from `first` on,
/// and the values that they are run on satisfy `start`.
struct Stage {
    base: nat,
    first: nat,
    start: spec_fn(Seq<u64>) -> bool,
}

/// The circuit built so far, with the adders that fill in its wires from `first` on:
/// running them on values to start from satisfies every constraint.
spec fn tree_state(builder: CircuitBuilder, ops: Seq<AdderOp>, stage: Stage) -> bool {
    &&& stage.base <= stage.first <= builder.num_wires
    &&& builder.num_public <= builder.num_wires
    &&& constraints_within(builder.constraints@, builder.num_wires as nat)
    &&& ops_within(ops, stage.first, builder.num_wires as nat)
    &&& ops_read_from(ops, stage.base)
    &&& forall|v: Seq<u64>| #[trigger] (stage.start)(v) ==> zero_from(v, stage.first)
    &&& forall|v: Seq<u64>|
        #![trigger run(ops, v)]
        (stage.start)(v) && v.len() >= builder.num_wires ==> admits(builder, run(ops, v))
}

proof fn lemma_xor_zero(x: u64)
    by (bit_vector)
    ensures
        0 ^ x == x,
{
}

proof fn lemma_single_wire(wire: WireId, v: Seq<u64>)
    ensures
        wires_xor(seq![wire], v) == at(v, wire),
        forall|n: nat| wires_below(seq![wire], n) <==> wire.0 < n,
{
    let s = seq![wire];
    assert(s.drop_last() =~= Seq::<WireId>::empty());
    reveal_with_fuel(wires_xor, 2);
    lemma_xor_zero(at(v, wire));
    assert forall|n: nat| wires_below(s, n) <==> wire.0 < n by {
        assert(s[0] == wire);
    }
}

/// A half adder on bits adds them.
proof fn lemma_half_adder(x: u64, y: u64)
    by (bit_vector)
    requires
        x <= 1,
        y <= 1,
    ensures
        x ^ y <= 1,
        x & y <= 1,
        x + y == (x ^ y) + 2 * (x & y),
{
}

/// A full adder on bits adds them.
proof fn lemma_full_adder(x: u64, y: u64, c: u64)
    by (bit_vector)
    requires
        x <= 1,
        y <= 1,
        c <= 1,
    ensures
        (x ^ y) ^ c <= 1,
        (x & y) ^ ((x ^ y) & c) <= 1,
        x + y + c == ((x ^ y) ^ c) + 2 * ((x & y) ^ ((x ^ y) & c)),
{
}

proof fn lemma_xor_agree(wires: Seq<WireId>, v: Seq<u64>, w: Seq<u64>, n: nat)
    requires
        wires_below(wires, n),
        forall|i: int| 0 <= i < n ==> v[i] == w[i],
    ensures
        wires_xor(wires, v) == wires_xor(wires, w),
    decreases wires.len(),
{
    if wires.len() > 0 {
        assert forall|i: int| 0 <= i < wires.drop_last().len() implies (
        #[trigger] wires.drop_last()[i]).0 < n by {
            assert(wires[i].0 < n);
        }
        lemma_xor_agree(wires.drop_last(), v, w, n);
        assert(wires[wires.len() - 1].0 < n);
    }
}

proof fn lemma_number_agree(wires: Seq<WireId>, v: Seq<u64>, w: Seq<u64>, n: nat)
    requires
        wires_below(wires, n),
        forall|i: int| 0 <= i < n ==> v[i] == w[i],
    ensures
        wires_number(wires, v) == wires_number(wires, w),
        wires_boolean(wires, v) == wires_boolean(wires, w),
    decreases wires.len(),
{
    if wires.len() > 0 {
        assert forall|i: int| 0 <= i < wires.drop_last().len() implies (
        #[trigger] wires.drop_last()[i]).0 < n by {
            assert(wires[i].0 < n);
        }
        lemma_number_agree(wires.drop_last(), v, w, n);
        assert(wires[wires.len() - 1].0 < n);
    }
    assert(wires_boolean(wires, v) ==> wires_boolean(wires, w));
    assert(wires_boolean(wires, w) ==> wires_boolean(wires, v));
}

/// Constraints on the first `n` wires do not see the other wires.
proof fn lemma_admits_agree(constraints: Seq<Constraint>, v: Seq<u64>, w: Seq<u64>, n: nat)
    requires
        constraints_within(constraints, n),
        v.len() >= n,
        w.len() >= n,
        forall|i: int| 0 <= i < n ==> v[i] == w[i],
        all_hold(constraints, v),
    ensures
        all_hold(constraints, w),
{
    assert forall|i: int| 0 <= i < constraints.len() implies (#[trigger] constraints[i]).holds(
        w,
    ) by {
        let c = constraints[i];
        assert(c.within(n));
        assert(c.holds(v));
        lemma_within_monotone(c, n, w.len());
        match c {
            Constraint::Xor { a, b, c } => {
                lemma_xor_agree(a.wires@, v, w, n);
                lemma_xor_agree(b.wires@, v, w, n);
                lemma_xor_agree(c.wires@, v, w, n);
            },
            Constraint::And { a, b, c } => {
                lemma_xor_agree(a.wires@, v, w, n);
                lemma_xor_agree(b.wires@, v, w, n);
                lemma_xor_agree(c.wires@, v, w, n);
            },
            Constraint::RangeDecomposed { wire, bits } => {
                lemma_number_agree(bits@, v, w, n);
            },
            _ => {},
        }
    }
}

proof fn lemma_wires_below_monotone(wires: Seq<WireId>, m: nat, n: nat)
    requires
        wires_below(wires, m),
        m <= n,
    ensures
        wires_below(wires, n),
{
}

proof fn lemma_within_monotone(c: Constraint, m: nat, n: nat)
    requires
        c.within(m),
        m <= n,
    ensures
        c.within(n),
{
}

/// Running adders changes only the wires that they drive.
proof fn lemma_run_frame(ops: Seq<AdderOp>, v: Seq<u64>, lo: nat, hi: nat)
    requires
        ops_within(ops, lo, hi),
        hi <= v.len(),
    ensures
        run(ops, v).len() == v.len(),
        forall|i: int|
            0 <= i < v.len() && (i < lo || i >= hi) ==> #[trigger] run(ops, v)[i] == v[i],
    decreases ops.len(),
{
    if ops.len() > 0 {
        let rest = ops.drop_last();
        assert forall|i: int| 0 <= i < rest.len() implies placed_within(
            #[trigger] rest[i],
            lo,
            hi,
        ) by {
            assert(placed_within(ops[i], lo, hi));
        }
        lemma_run_frame(rest, v, lo, hi);
        assert(placed_within(ops[ops.len() - 1], lo, hi));
    }
}

/// An adder placed at `n` satisfies its relation after it has run, and leaves
/// the wires below `n` alone.
proof fn lemma_eval_holds(op: AdderOp, v: Seq<u64>, n: nat)
    requires
        op.placed(n),
        n + op.width() <= v.len(),
    ensures
        op.holds(op.eval(v)),
        op.eval(v).len() == v.len(),
        forall|i: int| 0 <= i < n ==> op.eval(v)[i] == v[i],
{
}

/// An adder that reads bits drives bits.
proof fn lemma_adder_bits(op: AdderOp, v: Seq<u64>, base: nat, n: nat)
    requires
        op.placed(n),
        op.holds(v),
        bits_between(v, base, n),
        op.reads_from(base),
    ensures
        bits_between(v, base, n + op.width()),
{
    match op {
        AdderOp::Half { a, b, sum, carry } => {
            lemma_half_adder(at(v, a), at(v, b));
        },
        AdderOp::Full { a, b, cin, sum, cout, s1, c1, c2 } => {
            lemma_half_adder(at(v, a), at(v, b));
            lemma_half_adder(at(v, s1), at(v, cin));
            lemma_full_adder(at(v, a), at(v, b), at(v, cin));
        },
    }
}

/// Adders that are run on bits compute bits.
proof fn lemma_run_bits(ops: Seq<AdderOp>, v: Seq<u64>, base: nat, lo: nat, hi: nat)
    requires
        ops_within(ops, lo, hi),
        ops_read_from(ops, base),
        hi <= v.len(),
        bits_between(v, base, v.len()),
    ensures
        run(ops, v).len() == v.len(),
        bits_between(run(ops, v), base, v.len()),
    decreases ops.len(),
{
    if ops.len() > 0 {
        let rest = ops.drop_last();
        let op = ops.last();
        assert forall|i: int| 0 <= i < rest.len() implies placed_within(
            #[trigger] rest[i],
            lo,
            hi,
        ) && rest[i].reads_from(base) by {
            assert(placed_within(ops[i], lo, hi));
            assert(ops[i].reads_from(base));
        }
        lemma_run_bits(rest, v, base, lo, hi);
        assert(placed_within(ops[ops.len() - 1], lo, hi));
        assert(ops[ops.len() - 1].reads_from(base));
        let w = run(rest, v);
        let n = choose|n: nat| #[trigger] op.placed(n) && lo <= n && n + op.width() <= hi;
        let u = op.eval(w);
        lemma_eval_holds(op, w, n);
        assert forall|i: int| base <= i < n implies (#[trigger] u[i]) <= 1 by {
            assert(u[i] == w[i]);
        }
        lemma_adder_bits(op, u, base, n);
        assert forall|i: int| base <= i < v.len() implies (#[trigger] u[i]) <= 1 by {
            if i >= n + op.width() {
                assert(u[i] == w[i]);
            }
        }
    }
}

fn single(wire: WireId) -> (operand: Operand)
    ensures
        operand.wires@ == seq![wire],
{
    let operand = Operand::new().with_wire(wire);
    assert(operand.wires@ =~= seq![wire]);
    operand
}

/// Adds a half adder: `a + b = sum + 2 * carry`.
fn add_bits(builder: &mut CircuitBuilder, a: WireId, b: WireId) -> (adder: (
    WireId,
    WireId,
    AdderOp,
))
    requires
        a.0 < old(builder).num_wires,
        b.0 < old(builder).num_wires,
        old(builder).num_wires + 2 <= usize::MAX,
        constraints_within(old(builder).constraints@, old(builder).num_wires as nat),
    ensures
        adder.2 == (AdderOp::Half { a, b, sum: adder.0, carry: adder.1 }),
        adder.2.placed(old(builder).num_wires as nat),
        final(builder).num_wires == old(builder).num_wires + 2,
        final(builder).num_public == old(builder).num_public,
        constraints_within(final(builder).constraints@, final(builder).num_wires as nat),
        forall|v: Seq<u64>| #[trigger]
            admits(*final(builder), v) <==> admits(*old(builder), v) && adder.2.holds(v),
{
    let sum = builder.add_witness();
    let carry = builder.add_witness();
    builder.assert_xor(single(a), single(b), single(sum));
    builder.assert_and(single(a), single(b), single(carry));
    let op = AdderOp::Half { a, b, sum, carry };
    proof {
        let before = old(builder).constraints@;
        let after = builder.constraints@;
        let n = old(builder).num_wires as nat;
        let k = before.len() as int;
        assert(after.len() == k + 2);
        assert(forall|i: int| 0 <= i < k ==> after[i] == before[i]);
        lemma_single_wire(a, seq![]);
        lemma_single_wire(b, seq![]);
        lemma_single_wire(sum, seq![]);
        lemma_single_wire(carry, seq![]);
        assert forall|i: int| 0 <= i < after.len() implies (#[trigger] after[i]).within(
            n + 2,
        ) by {
            if i < k {
                assert(before[i].within(n));
                lemma_within_monotone(before[i], n, n + 2);
            }
        }
        assert forall|v: Seq<u64>| #[trigger]
            admits(*builder, v) <==> admits(*old(builder), v) && op.holds(v) by {
            lemma_single_wire(a, v);
            lemma_single_wire(b, v);
            lemma_single_wire(sum, v);
            lemma_single_wire(carry, v);
            if admits(*builder, v) {
                assert forall|i: int| 0 <= i < before.len() implies (#[trigger] before[i]).holds(
                    v,
                ) by {
                    assert(after[i].holds(v));
                }
                assert(after[k].holds(v));
                assert(after[k + 1].holds(v));
            }
            if admits(*old(builder), v) && op.holds(v) {
                assert forall|i: int| 0 <= i < after.len() implies (#[trigger] after[i]).holds(
                    v,
                ) by {
                    if i < k {
                        assert(before[i].holds(v));
                    }
                }
            }
        }
    }
    (sum, carry, op)
}

/// Adds a full adder: `a + b + cin = sum + 2 * cout`.
fn full_adder(builder: &mut CircuitBuilder, a: WireId, b: WireId, cin: WireId) -> (adder: (
    WireId,
    WireId,
    AdderOp,
))
    requires
        a.0 < old(builder).num_wires,
        b.0 < old(builder).num_wires,
        cin.0 < old(builder).num_wires,
        old(builder).num_wires + 5 <= usize::MAX,
        constraints_within(old(builder).constraints@, old(builder).num_wires as nat),
    ensures
        adder.2 matches AdderOp::Full { a: fa, b: fb, cin: fcin, sum, cout, .. } && fa == a && fb
            == b && fcin == cin && sum == adder.0 && cout == adder.1,
        adder.2.placed(old(builder).num_wires as nat),
        final(builder).num_wires == old(builder).num_wires + 5,
        final(builder).num_public == old(builder).num_public,
        constraints_within(final(builder).constraints@, final(builder).num_wires as nat),
        forall|v: Seq<u64>| #[trigger]
            admits(*final(builder), v) <==> admits(*old(builder), v) && adder.2.holds(v),
{
    let s1 = builder.add_witness();
    let c1 = builder.add_witness();
    let sum = builder.add_witness();
    let c2 = builder.add_witness();
    let cout = builder.add_witness();
    builder.assert_xor(single(a), single(b), single(s1));
    builder.assert_and(single(a), single(b), single(c1));
    builder.assert_xor(single(s1), single(cin), single(sum));
    builder.assert_and(single(s1), single(cin), single(c2));
    builder.assert_xor(single(c1), single(c2), single(cout));
    let op = AdderOp::Full { a, b, cin, sum, cout, s1, c1, c2 };
    proof {
        let before = old(builder).constraints@;
        let after = builder.constraints@;
        let n = old(builder).num_wires as nat;
        let k = before.len() as int;
        assert(after.len() == k + 5);
        assert(forall|i: int| 0 <= i < k ==> after[i] == before[i]);
        lemma_single_wire(a, seq![]);
        lemma_single_wire(b, seq![]);
        lemma_single_wire(cin, seq![]);
        lemma_single_wire(sum, seq![]);
        lemma_single_wire(cout, seq![]);
        lemma_single_wire(s1, seq![]);
        lemma_single_wire(c1, seq![]);
        lemma_single_wire(c2, seq![]);
        assert forall|i: int| 0 <= i < after.len() implies (#[trigger] after[i]).within(
            n + 5,
        ) by {
            if i < k {
                assert(before[i].within(n));
                lemma_within_monotone(before[i], n, n + 5);
            }
        }
        assert forall|v: Seq<u64>| #[trigger]
            admits(*builder, v) <==> admits(*old(builder), v) && op.holds(v) by {
            lemma_single_wire(a, v);
            lemma_single_wire(b, v);
            lemma_single_wire(cin, v);
            lemma_single_wire(sum, v);
            lemma_single_wire(cout, v);
            lemma_single_wire(s1, v);
            lemma_single_wire(c1, v);
            lemma_single_wire(c2, v);
            if admits(*builder, v) {
                assert forall|i: int| 0 <= i < before.len() implies (#[trigger] before[i]).holds(
                    v,
                ) by {
                    assert(after[i].holds(v));
                }
                assert(after[k].holds(v));
                assert(after[k + 1].holds(v));
                assert(after[k + 2].holds(v));
                assert(after[k + 3].holds(v));
                assert(after[k + 4].holds(v));
            }
            if admits(*old(builder), v) && op.holds(v) {
                assert forall|i: int| 0 <= i < after.len() implies (#[trigger] after[i]).holds(
                    v,
                ) by {
                    if i < k {
                        assert(before[i].holds(v));
                    }
                }
            }
        }
    }
    (sum, cout, op)
}

/// Adds a wire that carries 0.
fn zero_wire(builder: &mut CircuitBuilder) -> (wire: WireId)
    requires
        old(builder).num_wires < usize::MAX,
        constraints_within(old(builder).constraints@, old(builder).num_wires as nat),
    ensures
        wire.0 == old(builder).num_wires,
        final(builder).num_wires == old(builder).num_wires + 1,
        final(builder).num_public == old(builder).num_public,
        constraints_within(final(builder).constraints@, final(builder).num_wires as nat),
        forall|v: Seq<u64>| #[trigger]
            admits(*final(builder), v) <==> admits(*old(builder), v) && wire.0 < v.len() && at(
                v,
                wire,
            ) == 0,
{
    let wire = builder.add_witness();
    builder.assert_const(wire, 0);
    proof {
        let before = old(builder).constraints@;
        let after = builder.constraints@;
        let n = old(builder).num_wires as nat;
        let k = before.len() as int;
        assert(forall|i: int| 0 <= i < k ==> after[i] == before[i]);
        assert forall|i: int| 0 <= i < after.len() implies (#[trigger] after[i]).within(
            n + 1,
        ) by {
            if i < k {
                assert(before[i].within(n));
                lemma_within_monotone(before[i], n, n + 1);
            }
        }
        assert forall|v: Seq<u64>| #[trigger]
            admits(*builder, v) <==> admits(*old(builder), v) && wire.0 < v.len() && at(v, wire)
                == 0 by {
            if admits(*builder, v) {
                assert forall|i: int| 0 <= i < before.len() implies (#[trigger] before[i]).holds(
                    v,
                ) by {
                    assert(after[i].holds(v));
                }
                assert(after[k].holds(v));
            }
            if admits(*old(builder), v) && wire.0 < v.len() && at(v, wire) == 0 {
                assert forall|i: int| 0 <= i < after.len() implies (#[trigger] after[i]).holds(
                    v,
                ) by {
                    if i < k {
                        assert(before[i].holds(v));
                    }
                }
            }
        }
    }
    wire
}

/// Adding a zero wire keeps the state of the tree.
proof fn lemma_zero_wire_state(
    before: CircuitBuilder,
    after: CircuitBuilder,
    ops: Seq<AdderOp>,
    stage: Stage,
)
    requires
        tree_state(before, ops, stage),
        after.num_wires == before.num_wires + 1,
        after.num_public == before.num_public,
        constraints_within(after.constraints@, after.num_wires as nat),
        forall|v: Seq<u64>| #[trigger]
            admits(after, v) <==> admits(before, v) && before.num_wires < v.len()
                && v[before.num_wires as int] == 0,
    ensures
        tree_state(after, ops, stage),
{
    let lo = before.num_wires as nat;
    assert forall|i: int| 0 <= i < ops.len() implies placed_within(
        #[trigger] ops[i],
        stage.first,
        lo + 1,
    ) by {
        assert(placed_within(ops[i], stage.first, lo));
        let k = choose|k: nat| #[trigger]
            ops[i].placed(k) && stage.first <= k && k + ops[i].width() <= lo;
        assert(ops[i].placed(k));
    }
    assert forall|v: Seq<u64>|
        #![trigger run(ops, v)]
        (stage.start)(v) && v.len() >= after.num_wires implies admits(
        after,
        run(ops, v),
    ) by {
        assert(admits(before, run(ops, v)));
        lemma_run_frame(ops, v, stage.first, lo);
    }
}

/// Adding an adder keeps the state of the tree.
proof fn lemma_adder_state(
    before: CircuitBuilder,
    after: CircuitBuilder,
    ops: Seq<AdderOp>,
    op: AdderOp,
    stage: Stage,
)
    requires
        tree_state(before, ops, stage),
        op.placed(before.num_wires as nat),
        op.reads_from(stage.base),
        after.num_wires == before.num_wires + op.width(),
        after.num_public == before.num_public,
        constraints_within(after.constraints@, after.num_wires as nat),
        forall|v: Seq<u64>| #[trigger]
            admits(after, v) <==> admits(before, v) && op.holds(v),
    ensures
        tree_state(after, ops.push(op), stage),
{
    let lo = before.num_wires as nat;
    let hi = after.num_wires as nat;
    let all = ops.push(op);
    assert(all.drop_last() =~= ops);
    assert forall|i: int| 0 <= i < all.len() implies placed_within(
        #[trigger] all[i],
        stage.first,
        hi,
    ) by {
        if i < ops.len() {
            assert(placed_within(ops[i], stage.first, lo));
            let k = choose|k: nat| #[trigger]
                ops[i].placed(k) && stage.first <= k && k + ops[i].width() <= lo;
            assert(ops[i].placed(k));
        } else {
            assert(op.placed(lo));
        }
    }
    assert forall|i: int| 0 <= i < all.len() implies (#[trigger] all[i]).reads_from(
        stage.base,
    ) by {
        if i < ops.len() {
            assert(ops[i].reads_from(stage.base));
        }
    }
    assert forall|v: Seq<u64>|
        #![trigger run(all, v)]
        (stage.start)(v) && v.len() >= after.num_wires implies admits(
        after,
        run(all, v),
    ) by {
        let w = run(ops, v);
        lemma_run_frame(ops, v, stage.first, lo);
        assert(admits(before, w));
        lemma_eval_holds(op, w, lo);
        lemma_admits_agree(before.constraints@, w, op.eval(w), lo);
        assert(admits(before, op.eval(w)));
        assert(run(all, v) == op.eval(w));
    }
}

/// The first `i` digits, or all of them if there are fewer.
spec fn digits(bits: Seq<WireId>, i: nat) -> Seq<WireId> {
    if i <= bits.len() {
        bits.take(i as int)
    } else {
        bits
    }
}

/// Taking one more digit adds its value, or 0 past the last digit.
proof fn lemma_digits_step(bits: Seq<WireId>, i: nat, v: Seq<u64>)
    ensures
        wires_number(digits(bits, i + 1), v) == wires_number(digits(bits, i), v) + (if i
            < bits.len() {
            at(v, bits[i as int]) as nat * pow2(i)
        } else {
            0
        }),
{
    if i < bits.len() {
        let next = bits.take((i + 1) as int);
        assert(next.drop_last() =~= bits.take(i as int));
        assert(next.last() == bits[i as int]);
    } else {
        assert(bits.take(bits.len() as int) =~= bits);
    }
}

/// The digits of `sum`, with `carry` above them, make up the first `i` digits of
/// `a` plus the first `i` digits of `b`.
spec fn adds_digits(
    a: Seq<WireId>,
    b: Seq<WireId>,
    sum: Seq<WireId>,
    carry: Option<WireId>,
    i: nat,
    v: Seq<u64>,
) -> bool {
    &&& wires_boolean(sum, v)
    &&& match carry {
        None => wires_number(sum, v) == wires_number(digits(a, i), v) + wires_number(
            digits(b, i),
            v,
        ),
        Some(c) => at(v, c) <= 1 && wires_number(sum, v) + at(v, c) as nat * pow2(i)
            == wires_number(digits(a, i), v) + wires_number(digits(b, i), v),
    }
}

/// One column of the sum: adding the digits `x` and `y` and the incoming carry.
proof fn lemma_column(
    a: Seq<WireId>,
    b: Seq<WireId>,
    aw: WireId,
    bw: WireId,
    sum: Seq<WireId>,
    carry: Option<WireId>,
    op: AdderOp,
    s: WireId,
    c: WireId,
    i: nat,
    v: Seq<u64>,
)
    requires
        adds_digits(a, b, sum, carry, i, v),
        sum.len() == i,
        wires_boolean(a, v),
        wires_boolean(b, v),
        i < a.len() ==> aw == a[i as int],
        i >= a.len() ==> at(v, aw) == 0,
        i < b.len() ==> bw == b[i as int],
        i >= b.len() ==> at(v, bw) == 0,
        op.holds(v),
        carry is None ==> (op matches AdderOp::Half { a: oa, b: ob, sum: os, carry: oc } && oa == aw
            && ob == bw && os == s && oc == c),
        carry matches Some(cin) ==> (op matches AdderOp::Full {
            a: oa,
            b: ob,
            cin: ocin,
            sum: os,
            cout: oc,
            ..
        } && oa == aw && ob == bw && ocin == cin && os == s && oc == c),
    ensures
        adds_digits(a, b, sum.push(s), Some(c), i + 1, v),
{
    let x = at(v, aw);
    let y = at(v, bw);
    let vs = at(v, s);
    let vc = at(v, c);
    let z: u64 = match carry {
        Some(cin) => at(v, cin),
        None => 0,
    };
    assert(x <= 1) by {
        if i < a.len() {
            assert(at(v, a[i as int]) <= 1);
        }
    }
    assert(y <= 1) by {
        if i < b.len() {
            assert(at(v, b[i as int]) <= 1);
        }
    }
    match carry {
        None => {
            lemma_half_adder(x, y);
        },
        Some(cin) => {
            lemma_full_adder(x, y, z);
        },
    }
    assert(x + y + z == vs + 2 * vc);
    assert(vs <= 1 && vc <= 1);
    lemma_digits_step(a, i, v);
    lemma_digits_step(b, i, v);
    let next = sum.push(s);
    assert(next.drop_last() =~= sum);
    assert(wires_number(next, v) == wires_number(sum, v) + vs as nat * pow2(i));
    lemma_pow2_unfold(i + 1);
    let p = pow2(i) as int;
    assert(vs * p + vc * (2 * p) == x * p + y * p + z * p) by (nonlinear_arith)
        requires
            x + y + z == vs + 2 * vc,
    ;
    if carry is None {
        assert(z * p == 0) by (nonlinear_arith)
            requires
                z == 0,
        ;
    }
    assert(i >= a.len() ==> x * p == 0) by (nonlinear_arith)
        requires
            i >= a.len() ==> x == 0,
    ;
    assert(i >= b.len() ==> y * p == 0) by (nonlinear_arith)
        requires
            i >= b.len() ==> y == 0,
    ;
    assert forall|k: int| 0 <= k < next.len() implies v[(#[trigger] next[k]).0 as int] <= 1 by {
        if k < sum.len() {
            assert(at(v, sum[k]) <= 1);
        }
    }
}

/// Adds two binary numbers given by their bit wires.
fn add_multi_bit(
    builder: &mut CircuitBuilder,
    a_bits: &[WireId],
    b_bits: &[WireId],
    ops: &mut Vec<AdderOp>,
    stage: Ghost<Stage>,
) -> (result: Vec<WireId>)
    requires
        tree_state(*old(builder), old(ops)@, stage@),
        wires_below(a_bits@, old(builder).num_wires as nat),
        wires_below(b_bits@, old(builder).num_wires as nat),
        wires_from(a_bits@, stage@.base),
        wires_from(b_bits@, stage@.base),
        old(builder).num_wires + 6 * longer(a_bits@.len(), b_bits@.len()) <= usize::MAX,
    ensures
        tree_state(*final(builder), final(ops)@, stage@),
        final(builder).num_public == old(builder).num_public,
        old(builder).num_wires <= final(builder).num_wires <= old(builder).num_wires + 6 * longer(
            a_bits@.len(),
            b_bits@.len(),
        ),
        // One digit more than the longer number has, or none at all.
        result@.len() == (if longer(a_bits@.len(), b_bits@.len()) == 0 {
            0
        } else {
            longer(a_bits@.len(), b_bits@.len()) + 1
        }),
        wires_below(result@, final(builder).num_wires as nat),
        wires_from(result@, stage@.first),
        // One adder for each digit, the last of which drives the last wire.
        extends(final(ops)@, old(ops)@),
        final(ops)@.len() == old(ops)@.len() + longer(a_bits@.len(), b_bits@.len()),
        longer(a_bits@.len(), b_bits@.len()) > 0 ==> final(ops)@.last().end()
            == final(builder).num_wires,
        longer(a_bits@.len(), b_bits@.len()) == 0 ==> *final(builder) == *old(builder),
        a_bits@.len() > 0 && b_bits@.len() > 0 ==> final(ops)@[old(ops)@.len() as int]
            == half_adder_at(a_bits@[0], b_bits@[0], old(builder).num_wires as int),
        forall|v: Seq<u64>| #[trigger]
            admits(*final(builder), v) ==> (bits_between(
                v,
                stage@.base,
                old(builder).num_wires as nat,
            ) ==> bits_between(v, stage@.base, final(builder).num_wires as nat)),
        forall|v: Seq<u64>| #[trigger]
            admits(*final(builder), v) ==> admits(*old(builder), v) && (wires_boolean(a_bits@, v)
                && wires_boolean(b_bits@, v) ==> wires_boolean(result@, v) && wires_number(
                result@,
                v,
            ) == wires_number(a_bits@, v) + wires_number(b_bits@, v)),
{
    let len: usize = if a_bits.len() >= b_bits.len() {
        a_bits.len()
    } else {
        b_bits.len()
    };
    let mut result: Vec<WireId> = Vec::new();
    let mut carry: Option<WireId> = None;
    let mut i: usize = 0;
    proof {
        assert(ops@.take(ops@.len() as int) =~= ops@);
        assert(a_bits@.take(0) =~= Seq::<WireId>::empty());
        assert(b_bits@.take(0) =~= Seq::<WireId>::empty());
        assert forall|v: Seq<u64>| adds_digits(a_bits@, b_bits@, result@, carry, 0, v) by {}
    }
    while i < len
        invariant
            i <= len,
            len >= a_bits@.len(),
            len >= b_bits@.len(),
            len == a_bits@.len() || len == b_bits@.len(),
            result@.len() == i,
            carry is None <==> i == 0,
            tree_state(*builder, ops@, stage@),
            old(builder).num_wires <= builder.num_wires <= old(builder).num_wires + 6 * i,
            old(builder).num_wires + 6 * len <= usize::MAX,
            stage@.base <= stage@.first,
            wires_from(a_bits@, stage@.base),
            wires_from(b_bits@, stage@.base),
            wires_from(result@, stage@.first),
            carry matches Some(c) ==> c.0 >= stage@.first,
            extends(ops@, old(ops)@),
            ops@.len() == old(ops)@.len() + i,
            i > 0 ==> ops@.last().end() == builder.num_wires,
            i == 0 ==> *builder == *old(builder),
            i > 0 && a_bits@.len() > 0 && b_bits@.len() > 0 ==> ops@[old(ops)@.len() as int]
                == half_adder_at(a_bits@[0], b_bits@[0], old(builder).num_wires as int),
            forall|v: Seq<u64>| #[trigger]
                admits(*builder, v) ==> (bits_between(
                    v,
                    stage@.base,
                    old(builder).num_wires as nat,
                ) ==> bits_between(v, stage@.base, builder.num_wires as nat)),
            builder.num_public == old(builder).num_public,
            wires_below(a_bits@, old(builder).num_wires as nat),
            wires_below(b_bits@, old(builder).num_wires as nat),
            wires_below(result@, builder.num_wires as nat),
            carry matches Some(c) ==> c.0 < builder.num_wires,
            forall|v: Seq<u64>| #[trigger]
                admits(*builder, v) ==> admits(*old(builder), v) && (wires_boolean(a_bits@, v)
                    && wires_boolean(b_bits@, v) ==> adds_digits(
                    a_bits@,
                    b_bits@,
                    result@,
                    carry,
                    i as nat,
                    v,
                )),
        decreases len - i,
    {
        let ghost start = *builder;
        let ghost prior = result@;
        let ghost prior_carry = carry;
        let aw: WireId = if i < a_bits.len() {
            a_bits[i]
        } else {
            let z = zero_wire(builder);
            proof {
                lemma_zero_wire_state(start, *builder, ops@, stage@);
            }
            z
        };
        let ghost middle = *builder;
        let bw: WireId = if i < b_bits.len() {
            b_bits[i]
        } else {
            let z = zero_wire(builder);
            proof {
                lemma_zero_wire_state(middle, *builder, ops@, stage@);
            }
            z
        };
        let ghost padded = *builder;
        let ghost prior_ops = ops@;
        assert(i < a_bits@.len() ==> a_bits@[i as int].0 < start.num_wires);
        assert(i < b_bits@.len() ==> b_bits@[i as int].0 < start.num_wires);
        assert(i < a_bits@.len() ==> a_bits@[i as int].0 >= stage@.base);
        assert(i < b_bits@.len() ==> b_bits@[i as int].0 >= stage@.base);
        let (s, c, op) = match carry {
            None => add_bits(builder, aw, bw),
            Some(cin) => full_adder(builder, aw, bw, cin),
        };
        ops.push(op);
        result.push(s);
        carry = Some(c);
        proof {
            lemma_adder_state(padded, *builder, prior_ops, op, stage@);
            assert(ops@.take(old(ops)@.len() as int) =~= old(ops)@);
            let base = stage@.base;
            assert forall|v: Seq<u64>| #[trigger] admits(*builder, v) && bits_between(
                v,
                base,
                old(builder).num_wires as nat,
            ) implies bits_between(v, base, builder.num_wires as nat) by {
                assert(admits(padded, v) && op.holds(v));
                assert(admits(middle, v));
                assert(admits(start, v));
                assert(bits_between(v, base, start.num_wires as nat));
                assert(bits_between(v, base, padded.num_wires as nat));
                lemma_adder_bits(op, v, base, padded.num_wires as nat);
            }
            assert forall|k: int| 0 <= k < result@.len() implies (#[trigger] result@[k]).0
                >= stage@.first by {
                if k < prior.len() {
                    assert(prior[k].0 >= stage@.first);
                }
            }
            assert forall|k: int| 0 <= k < result@.len() implies (#[trigger] result@[k]).0
                < builder.num_wires by {
                if k < prior.len() {
                    assert(prior[k].0 < start.num_wires);
                }
            }
            assert forall|v: Seq<u64>| #[trigger] admits(*builder, v) implies admits(
                *old(builder),
                v,
            ) && (wires_boolean(a_bits@, v) && wires_boolean(b_bits@, v) ==> adds_digits(
                a_bits@,
                b_bits@,
                result@,
                carry,
                (i + 1) as nat,
                v,
            )) by {
                assert(admits(padded, v) && op.holds(v));
                assert(admits(middle, v));
                assert(admits(start, v));
                if wires_boolean(a_bits@, v) && wires_boolean(b_bits@, v) {
                    lemma_column(
                        a_bits@,
                        b_bits@,
                        aw,
                        bw,
                        prior,
                        prior_carry,
                        op,
                        s,
                        c,
                        i as nat,
                        v,
                    );
                }
            }
        }
        i = i + 1;
    }
    let ghost prior = result@;
    if let Some(c) = carry {
        result.push(c);
    }
    proof {
        assert forall|k: int| 0 <= k < result@.len() implies (#[trigger] result@[k]).0
            < builder.num_wires by {
            if k < prior.len() {
                assert(prior[k].0 < builder.num_wires);
            }
        }
        assert forall|k: int| 0 <= k < result@.len() implies (#[trigger] result@[k]).0
            >= stage@.first by {
            if k < prior.len() {
                assert(prior[k].0 >= stage@.first);
            }
        }
        assert(digits(a_bits@, len as nat) =~= a_bits@);
        assert(digits(b_bits@, len as nat) =~= b_bits@);
        assert forall|v: Seq<u64>| #[trigger] admits(*builder, v) implies admits(
            *old(builder),
            v,
        ) && (wires_boolean(a_bits@, v) && wires_boolean(b_bits@, v) ==> wires_boolean(result@, v)
            && wires_number(result@, v) == wires_number(a_bits@, v) + wires_number(b_bits@, v)) by {
            if wires_boolean(a_bits@, v) && wires_boolean(b_bits@, v) {
                assert(adds_digits(a_bits@, b_bits@, prior, carry, len as nat, v));
                if let Some(c) = carry {
                    assert(result@.drop_last() =~= prior);
                    assert forall|k: int| 0 <= k < result@.len() implies v[(
                    #[trigger] result@[k]).0 as int] <= 1 by {
                        if k < prior.len() {
                            assert(at(v, prior[k]) <= 1);
                        }
                    }
                }
            }
        }
    }
    result
}

/// The sum of the values of `wires`; for bits, the number of wires that are set.
pub open spec fn wires_sum(wires: Seq<WireId>, values: Seq<u64>) -> nat
    decreases wires.len(),
{
    if wires.len() == 0 {
        0
    } else {
        wires_sum(wires.drop_last(), values) + values[wires.last().0 as int] as nat
    }
}

/// The sum of the numbers that the wires carry.
spec fn numbers_sum(numbers: Seq<Vec<WireId>>, v: Seq<u64>) -> nat
    decreases numbers.len(),
{
    if numbers.len() == 0 {
        0
    } else {
        numbers_sum(numbers.drop_last(), v) + wires_number(numbers.last()@, v)
    }
}

/// Every number is made of bits.
spec fn numbers_boolean(numbers: Seq<Vec<WireId>>, v: Seq<u64>) -> bool {
    forall|k: int| 0 <= k < numbers.len() ==> wires_boolean((#[trigger] numbers[k])@, v)
}

/// The number has at least one and at most `len` digits, on wires from `base` up to `wires`.
spec fn number_shape(number: Seq<WireId>, len: nat, base: nat, wires: nat) -> bool {
    &&& 1 <= number.len() <= len
    &&& wires_from(number, base)
    &&& wires_below(number, wires)
}

/// Every number has at least one and at most `len` digits, on wires from `base` up to
/// `wires`, and the first one has exactly `len`.
spec fn numbers_shape(numbers: Seq<Vec<WireId>>, len: nat, base: nat, wires: nat) -> bool {
    &&& forall|k: int|
        0 <= k < numbers.len() ==> number_shape((#[trigger] numbers[k])@, len, base, wires)
    &&& numbers.len() > 0 ==> numbers[0]@.len() == len
}

/// `digits` is the number of binary digits that a tree of adders gives the count of `n`
/// bits: `ceil(log2(n)) + 1`, or none if there are no bits.
pub open spec fn is_count_digits(n: nat, digits: nat) -> bool {
    if n == 0 {
        digits == 0
    } else {
        &&& digits >= 1
        &&& pow2((digits - 1) as nat) >= n
        &&& digits >= 2 ==> pow2((digits - 2) as nat) < n
    }
}

proof fn lemma_numbers_push(numbers: Seq<Vec<WireId>>, number: Vec<WireId>, v: Seq<u64>)
    ensures
        numbers_sum(numbers.push(number), v) == numbers_sum(numbers, v) + wires_number(number@, v),
        numbers_boolean(numbers.push(number), v) <==> numbers_boolean(numbers, v) && wires_boolean(
            number@,
            v,
        ),
{
    let all = numbers.push(number);
    assert(all.drop_last() =~= numbers);
    if numbers_boolean(all, v) {
        assert forall|k: int| 0 <= k < numbers.len() implies wires_boolean(
            (#[trigger] numbers[k])@,
            v,
        ) by {
            assert(wires_boolean(all[k]@, v));
        }
        assert(wires_boolean(all[numbers.len() as int]@, v));
    }
    if numbers_boolean(numbers, v) && wires_boolean(number@, v) {
        assert forall|k: int| 0 <= k < all.len() implies wires_boolean((#[trigger] all[k])@, v) by {
            if k < numbers.len() {
                assert(wires_boolean(numbers[k]@, v));
            }
        }
    }
}

/// A single bit is the number that it carries.
proof fn lemma_leaf(number: Seq<WireId>, bit: WireId, v: Seq<u64>)
    requires
        number == seq![bit],
    ensures
        wires_number(number, v) == at(v, bit),
        wires_boolean(number, v) <==> at(v, bit) <= 1,
{
    assert(number.drop_last() =~= Seq::<WireId>::empty());
    reveal_with_fuel(wires_number, 2);
    lemma2_to64();
    assert(number[0] == bit);
    assert(at(v, bit) as nat * 1 == at(v, bit));
}

/// The numbers add up to the number of set bits among `bits`, and are made of
/// bits if the wires of `all` are.
spec fn leaf_sum(
    numbers: Seq<Vec<WireId>>,
    bits: Seq<WireId>,
    all: Seq<WireId>,
    v: Seq<u64>,
) -> bool {
    &&& numbers_sum(numbers, v) == wires_sum(bits, v)
    &&& wires_boolean(all, v) ==> numbers_boolean(numbers, v)
}

/// The leaves of the tree: each bit as a number of one digit.
fn leaves(bits: &[WireId], base: Ghost<nat>, wires: Ghost<nat>) -> (numbers: Vec<Vec<WireId>>)
    requires
        wires_below(bits@, wires@),
        wires_from(bits@, base@),
    ensures
        numbers@.len() == bits@.len(),
        numbers_shape(numbers@, 1, base@, wires@),
        forall|k: int| 0 <= k < bits@.len() ==> (#[trigger] numbers@[k])@ == seq![bits@[k]],
        forall|v: Seq<u64>| #[trigger] leaf_sum(numbers@, bits@, bits@, v),
{
    let mut numbers: Vec<Vec<WireId>> = Vec::new();
    let mut i: usize = 0;
    assert(bits@.take(0) =~= Seq::<WireId>::empty());
    while i < bits.len()
        invariant
            i <= bits@.len(),
            numbers@.len() == i,
            wires_below(bits@, wires@),
            wires_from(bits@, base@),
            numbers_shape(numbers@, 1, base@, wires@),
            forall|k: int| 0 <= k < i ==> (#[trigger] numbers@[k])@ == seq![bits@[k]],
            forall|v: Seq<u64>| #[trigger] leaf_sum(numbers@, bits@.take(i as int), bits@, v),
        decreases bits@.len() - i,
    {
        let ghost prior = numbers@;
        let mut leaf: Vec<WireId> = Vec::new();
        leaf.push(bits[i]);
        numbers.push(leaf);
        proof {
            let bit = bits@[i as int];
            assert(leaf@ =~= seq![bit]);
            assert(base@ <= bit.0 < wires@);
            let next = bits@.take(i + 1);
            assert(next.drop_last() =~= bits@.take(i as int));
            assert(next.last() == bit);
            assert forall|k: int| 0 <= k < numbers@.len() implies number_shape(
                (#[trigger] numbers@[k])@,
                1,
                base@,
                wires@,
            ) by {
                if k < prior.len() {
                    assert(numbers@[k] == prior[k]);
                }
            }
            if prior.len() > 0 {
                assert(numbers@[0] == prior[0]);
            }
            assert forall|v: Seq<u64>| #[trigger] leaf_sum(numbers@, next, bits@, v) by {
                assert(leaf_sum(prior, bits@.take(i as int), bits@, v));
                lemma_numbers_push(prior, leaf, v);
                lemma_leaf(leaf@, bit, v);
                if wires_boolean(bits@, v) {
                    assert(at(v, bits@[i as int]) <= 1);
                }
            }
        }
        i = i + 1;
    }
    assert(bits@.take(bits@.len() as int) =~= bits@);
    numbers
}

/// The wires that one merge of the tree can add: six for each of at most 64 digits.
const MERGE_WIRES: usize = 384;

/// Adds the circuit that counts the set bits, and returns the binary digits of the count.
fn popcount_tree(
    builder: &mut CircuitBuilder,
    bits: &[WireId],
    ops: &mut Vec<AdderOp>,
    stage: Ghost<Stage>,
) -> (result: Vec<WireId>)
    requires
        tree_state(*old(builder), old(ops)@, stage@),
        wires_below(bits@, old(builder).num_wires as nat),
        wires_from(bits@, stage@.base),
        old(builder).num_wires + MERGE_WIRES * bits@.len() <= usize::MAX,
    ensures
        tree_state(*final(builder), final(ops)@, stage@),
        final(builder).num_public == old(builder).num_public,
        old(builder).num_wires <= final(builder).num_wires <= old(builder).num_wires + MERGE_WIRES
            * bits@.len(),
        wires_below(result@, final(builder).num_wires as nat),
        wires_from(result@, stage@.base),
        is_count_digits(bits@.len(), result@.len()),
        extends(final(ops)@, old(ops)@),
        // With more than one bit, the first adder takes the first two and drives the next
        // wires, and the last adder drives the last wire.
        bits@.len() > 1 ==> {
            &&& final(ops)@.len() > old(ops)@.len()
            &&& final(ops)@[old(ops)@.len() as int] == half_adder_at(
                bits@[0],
                bits@[1],
                old(builder).num_wires as int,
            )
            &&& final(ops)@.last().end() == final(builder).num_wires
        },
        // At most one bit is its own count: nothing is added.
        bits@.len() <= 1 ==> result@ == bits@ && *final(builder) == *old(builder) && final(ops)@
            == old(ops)@,
        forall|v: Seq<u64>| #[trigger]
            admits(*final(builder), v) ==> (bits_between(
                v,
                stage@.base,
                old(builder).num_wires as nat,
            ) ==> bits_between(v, stage@.base, final(builder).num_wires as nat)),
        forall|v: Seq<u64>| #[trigger]
            admits(*final(builder), v) ==> admits(*old(builder), v) && (wires_boolean(bits@, v)
                ==> wires_boolean(result@, v) && wires_number(result@, v) == wires_sum(bits@, v)),
{
    let ghost base = stage@.base;
    assert(ops@.take(ops@.len() as int) =~= ops@);
    if bits.len() == 0 {
        assert(bits@ =~= Seq::<WireId>::empty());
        return Vec::new();
    }
    if bits.len() == 1 {
        let mut count: Vec<WireId> = Vec::new();
        count.push(bits[0]);
        proof {
            lemma2_to64();
            assert(count@ =~= bits@);
            assert(bits@ =~= seq![bits@[0]]);
            assert forall|v: Seq<u64>| wires_boolean(bits@, v) implies wires_number(bits@, v)
                == #[trigger] wires_sum(bits@, v) by {
                lemma_leaf(bits@, bits@[0], v);
                assert(bits@.drop_last() =~= Seq::<WireId>::empty());
                reveal_with_fuel(wires_sum, 2);
            }
        }
        return count;
    }
    let mut numbers: Vec<Vec<WireId>> = leaves(bits, Ghost(base), Ghost(builder.num_wires as nat));
    let ghost mut level: nat = 0;
    proof {
        lemma2_to64();
        assert forall|v: Seq<u64>| #[trigger] admits(*builder, v) implies admits(*old(builder), v)
            && (wires_boolean(bits@, v) ==> numbers_boolean(numbers@, v) && numbers_sum(
            numbers@,
            v,
        ) == wires_sum(bits@, v)) by {
            assert(leaf_sum(numbers@, bits@, bits@, v));
        }
    }
    while numbers.len() > 1
        invariant
            1 <= numbers@.len() <= bits@.len(),
            numbers_shape(numbers@, level + 1, base, builder.num_wires as nat),
            (numbers@.len() - 1) * pow2(level) < bits@.len() <= numbers@.len() * pow2(level),
            level > 0 ==> pow2((level - 1) as nat) < bits@.len(),
            bits@.len() > 1,
            base == stage@.base,
            extends(ops@, old(ops)@),
            numbers@.len() < bits@.len() ==> ops@.len() > old(ops)@.len() && ops@.last().end()
                == builder.num_wires,
            ops@.len() > old(ops)@.len() ==> ops@[old(ops)@.len() as int] == half_adder_at(
                bits@[0],
                bits@[1],
                old(builder).num_wires as int,
            ),
            ops@.len() == old(ops)@.len() ==> *builder == *old(builder) && numbers@[0]@
                == seq![bits@[0]] && numbers@[1]@ == seq![bits@[1]],
            forall|v: Seq<u64>| #[trigger]
                admits(*builder, v) ==> (bits_between(v, base, old(builder).num_wires as nat)
                    ==> bits_between(v, base, builder.num_wires as nat)),
            tree_state(*builder, ops@, stage@),
            builder.num_public == old(builder).num_public,
            old(builder).num_wires <= builder.num_wires <= old(builder).num_wires + MERGE_WIRES * (
            bits@.len() - numbers@.len()),
            old(builder).num_wires + MERGE_WIRES * bits@.len() <= usize::MAX,
            forall|v: Seq<u64>| #[trigger]
                admits(*builder, v) ==> admits(*old(builder), v) && (wires_boolean(bits@, v)
                    ==> numbers_boolean(numbers@, v) && numbers_sum(numbers@, v) == wires_sum(
                    bits@,
                    v,
                )),
        decreases numbers@.len(),
    {
        let ghost start = *builder;
        let ghost size = pow2(level) as int;
        proof {
            lemma_pow2_pos(level);
            assert(size <= (numbers@.len() - 1) * size) by (nonlinear_arith)
                requires
                    numbers@.len() >= 2,
                    size > 0,
            ;
            lemma2_to64_rest();
            if level >= 64 {
                if level > 64 {
                    lemma_pow2_strictly_increases(64, level);
                }
                assert(false);
            }
        }
        let mut next: Vec<Vec<WireId>> = Vec::new();
        let mut i: usize = 0;
        assert(numbers@.take(0) =~= Seq::<Vec<WireId>>::empty());
        while i + 1 < numbers.len()
            invariant
                i <= numbers@.len() <= bits@.len(),
                numbers@.len() < usize::MAX,
                level < 64,
                base == stage@.base,
                base <= stage@.first,
                extends(ops@, old(ops)@),
                i > 0 ==> ops@.len() > old(ops)@.len() && ops@.last().end() == builder.num_wires,
                ops@.len() > old(ops)@.len() ==> ops@[old(ops)@.len() as int] == half_adder_at(
                    bits@[0],
                    bits@[1],
                    old(builder).num_wires as int,
                ),
                ops@.len() == old(ops)@.len() ==> *builder == *old(builder) && numbers@[0]@
                    == seq![bits@[0]] && numbers@[1]@ == seq![bits@[1]],
                forall|v: Seq<u64>| #[trigger]
                    admits(*builder, v) ==> (bits_between(v, base, start.num_wires as nat)
                        ==> bits_between(v, base, builder.num_wires as nat)),
                2 * next@.len() == i,
                numbers_shape(numbers@, level + 1, base, start.num_wires as nat),
                numbers_shape(next@, level + 2, base, builder.num_wires as nat),
                tree_state(*builder, ops@, stage@),
                builder.num_public == old(builder).num_public,
                start.num_wires <= builder.num_wires <= start.num_wires + MERGE_WIRES
                    * next@.len(),
                start.num_wires <= old(builder).num_wires + MERGE_WIRES * (bits@.len()
                    - numbers@.len()),
                old(builder).num_wires + MERGE_WIRES * bits@.len() <= usize::MAX,
                forall|v: Seq<u64>| #[trigger]
                    admits(*builder, v) ==> admits(start, v) && (numbers_boolean(numbers@, v)
                        ==> numbers_boolean(next@, v) && numbers_sum(next@, v) == numbers_sum(
                        numbers@.take(i as int),
                        v,
                    )),
            decreases numbers@.len() - i,
        {
            let ghost before = *builder;
            let ghost before_ops = ops@;
            let ghost prior = next@;
            proof {
                assert(number_shape(
                    numbers@[i as int]@,
                    level + 1,
                    base,
                    start.num_wires as nat,
                ));
                assert(number_shape(numbers@[i + 1]@, level + 1, base, start.num_wires as nat));
                assert(numbers@[i as int]@.len() <= 64);
                assert(numbers@[i + 1]@.len() <= 64);
                lemma_wires_below_monotone(
                    numbers@[i as int]@,
                    start.num_wires as nat,
                    builder.num_wires as nat,
                );
                lemma_wires_below_monotone(
                    numbers@[i + 1]@,
                    start.num_wires as nat,
                    builder.num_wires as nat,
                );
            }
            let sum = add_multi_bit(
                builder,
                numbers[i].as_slice(),
                numbers[i + 1].as_slice(),
                ops,
                stage,
            );
            next.push(sum);
            proof {
                let a = numbers@[i as int];
                let b = numbers@[i + 1];
                let taken = numbers@.take(i as int);
                assert(numbers@.take(i + 1) =~= taken.push(a));
                assert(numbers@.take(i + 2) =~= taken.push(a).push(b));
                assert(ops@.take(old(ops)@.len() as int) =~= old(ops)@) by {
                    assert(ops@.take(before_ops.len() as int).take(old(ops)@.len() as int)
                        =~= ops@.take(old(ops)@.len() as int));
                }
                assert(wires_from(sum@, base)) by {
                    assert forall|k: int| 0 <= k < sum@.len() implies (#[trigger] sum@[k]).0
                        >= base by {
                        assert(sum@[k].0 >= stage@.first);
                    }
                }
                if before_ops.len() > old(ops)@.len() {
                    assert(ops@.take(before_ops.len() as int)[old(ops)@.len() as int]
                        == before_ops[old(ops)@.len() as int]);
                }
                if prior.len() > 0 {
                    assert(next@[0] == prior[0]);
                }
                assert forall|k: int| 0 <= k < next@.len() implies number_shape(
                    (#[trigger] next@[k])@,
                    level + 2,
                    base,
                    builder.num_wires as nat,
                ) by {
                    if k < prior.len() {
                        assert(next@[k] == prior[k]);
                        lemma_wires_below_monotone(
                            prior[k]@,
                            before.num_wires as nat,
                            builder.num_wires as nat,
                        );
                    }
                }
                assert forall|v: Seq<u64>| #[trigger] admits(*builder, v) implies admits(start, v)
                    && (numbers_boolean(numbers@, v) ==> numbers_boolean(next@, v) && numbers_sum(
                    next@,
                    v,
                ) == numbers_sum(numbers@.take(i + 2), v)) by {
                    assert(admits(before, v));
                    if numbers_boolean(numbers@, v) {
                        lemma_numbers_push(prior, sum, v);
                        lemma_numbers_push(taken, a, v);
                        lemma_numbers_push(taken.push(a), b, v);
                    }
                }
            }
            i = i + 2;
        }
        let ghost merged = next@;
        if i < numbers.len() {
            let last = copy_wires(&numbers[i]);
            next.push(last);
        }
        proof {
            let len = numbers@.len() as int;
            assert(next@[0] == merged[0]);
            assert forall|k: int| 0 <= k < next@.len() implies number_shape(
                (#[trigger] next@[k])@,
                level + 2,
                base,
                builder.num_wires as nat,
            ) by {
                if k < merged.len() {
                    assert(next@[k] == merged[k]);
                } else {
                    assert(next@[k]@ == numbers@[i as int]@);
                    assert(number_shape(
                        numbers@[i as int]@,
                        level + 1,
                        base,
                        start.num_wires as nat,
                    ));
                    lemma_wires_below_monotone(
                        numbers@[i as int]@,
                        start.num_wires as nat,
                        builder.num_wires as nat,
                    );
                }
            }
            assert forall|v: Seq<u64>| #[trigger] admits(*builder, v) implies admits(
                *old(builder),
                v,
            ) && (wires_boolean(bits@, v) ==> numbers_boolean(next@, v) && numbers_sum(next@, v)
                == wires_sum(bits@, v)) by {
                assert(admits(start, v));
                if wires_boolean(bits@, v) {
                    if i < len {
                        let last = numbers@[i as int];
                        assert(numbers@ =~= numbers@.take(i as int).push(last));
                        lemma_numbers_push(merged, next@[merged.len() as int], v);
                        assert(next@ =~= merged.push(next@[merged.len() as int]));
                        lemma_numbers_push(numbers@.take(i as int), last, v);
                    } else {
                        assert(numbers@.take(i as int) =~= numbers@);
                    }
                }
            }
            lemma_pow2_unfold(level + 1);
            let m = next@.len() as int;
            assert((m - 1) * (2 * size) <= (len - 1) * size) by (nonlinear_arith)
                requires
                    2 * (m - 1) <= len - 1,
                    size > 0,
            ;
            assert((m - 1) * pow2(level + 1) == (m - 1) * (2 * size));
            assert(len * size <= m * (2 * size)) by (nonlinear_arith)
                requires
                    len <= 2 * m,
                    size > 0,
            ;
            assert(m * pow2(level + 1) == m * (2 * size));
            assert forall|v: Seq<u64>| #[trigger] admits(*builder, v) && bits_between(
                v,
                base,
                old(builder).num_wires as nat,
            ) implies bits_between(v, base, builder.num_wires as nat) by {
                assert(admits(start, v));
            }
            level = level + 1;
        }
        numbers = next;
    }
    let ghost last = numbers@;
    let result = numbers.pop().unwrap();
    proof {
        assert(last =~= Seq::<Vec<WireId>>::empty().push(result));
        assert forall|v: Seq<u64>| #[trigger] admits(*builder, v) implies admits(*old(builder), v)
            && (wires_boolean(bits@, v) ==> wires_boolean(result@, v) && wires_number(result@, v)
            == wires_sum(bits@, v)) by {
            lemma_numbers_push(Seq::<Vec<WireId>>::empty(), result, v);
        }
        assert(last[0] == result);
        assert(number_shape(last[0]@, level + 1, base, builder.num_wires as nat));
        assert(last.len() * pow2(level) == pow2(level)) by (nonlinear_arith)
            requires
                last.len() == 1,
        ;
    }
    result
}

fn copy_wires(wires: &Vec<WireId>) -> (copy: Vec<WireId>)
    ensures
        copy@ == wires@,
{
    let mut copy: Vec<WireId> = Vec::new();
    let mut i: usize = 0;
    while i < wires.len()
        invariant
            i <= wires@.len(),
            copy@ == wires@.take(i as int),
        decreases wires@.len() - i,
    {
        copy.push(wires[i]);
        i = i + 1;
        assert(copy@ =~= wires@.take(i as int));
    }
    assert(wires@.take(wires@.len() as int) =~= wires@);
    copy
}

/// Adding a constraint adds exactly its relation.
proof fn lemma_constraint_added(
    before: CircuitBuilder,
    after: CircuitBuilder,
    constraint: Constraint,
)
    requires
        after.constraints@ == before.constraints@.push(constraint),
        after.num_wires == before.num_wires,
        constraints_within(before.constraints@, before.num_wires as nat),
        constraint.within(before.num_wires as nat),
    ensures
        constraints_within(after.constraints@, after.num_wires as nat),
        forall|v: Seq<u64>| #[trigger]
            admits(after, v) <==> admits(before, v) && constraint.holds(v),
{
    let k = before.constraints@.len() as int;
    assert forall|i: int| 0 <= i < after.constraints@.len() implies (
    #[trigger] after.constraints@[i]).within(after.num_wires as nat) by {
        if i < k {
            assert(before.constraints@[i].within(before.num_wires as nat));
        }
    }
    assert forall|v: Seq<u64>| #[trigger]
        admits(after, v) <==> admits(before, v) && constraint.holds(v) by {
        if admits(after, v) {
            assert forall|i: int| 0 <= i < k implies (#[trigger] before.constraints@[i]).holds(
                v,
            ) by {
                assert(after.constraints@[i].holds(v));
            }
            assert(after.constraints@[k].holds(v));
        }
        if admits(before, v) && constraint.holds(v) {
            assert forall|i: int| 0 <= i < after.constraints@.len() implies (
            #[trigger] after.constraints@[i]).holds(v) by {
                if i < k {
                    assert(before.constraints@[i].holds(v));
                }
            }
        }
    }
}

/// `x * x = x` in GF(2^32) says that `x` is a bit.
proof fn lemma_boolean_constraint(wire: WireId, v: Seq<u64>)
    ensures
        (Constraint::FieldMul { a: wire, b: wire, result: wire }).holds(v) <==> wire.0 < v.len()
            && at(v, wire) <= 1,
{
    field::law_idempotent_is_boolean(at(v, wire) as u32);
}

/// Adds `len` witness wires.
fn add_witnesses(builder: &mut CircuitBuilder, len: usize) -> (wires: Vec<WireId>)
    requires
        old(builder).num_wires + len <= usize::MAX,
    ensures
        wires@ == Seq::new(len as nat, |i: int| WireId((old(builder).num_wires + i) as usize)),
        final(builder).num_wires == old(builder).num_wires + len,
        final(builder).num_public == old(builder).num_public,
        final(builder).constraints@ == old(builder).constraints@,
{
    let mut wires: Vec<WireId> = Vec::new();
    let mut i: usize = 0;
    while i < len
        invariant
            i <= len,
            old(builder).num_wires + len <= usize::MAX,
            builder.num_wires == old(builder).num_wires + i,
            builder.num_public == old(builder).num_public,
            builder.constraints@ == old(builder).constraints@,
            wires@ == Seq::new(i as nat, |i: int| WireId((old(builder).num_wires + i) as usize)),
        decreases len - i,
    {
        let wire = builder.add_witness();
        wires.push(wire);
        i = i + 1;
        assert(wires@ =~= Seq::new(
            i as nat,
            |i: int| WireId((old(builder).num_wires + i) as usize),
        ));
    }
    wires
}

/// Requires that every one of `wires` carries 0 or 1.
fn assert_boolean(builder: &mut CircuitBuilder, wires: &Vec<WireId>)
    requires
        constraints_within(old(builder).constraints@, old(builder).num_wires as nat),
        wires_below(wires@, old(builder).num_wires as nat),
    ensures
        final(builder).num_wires == old(builder).num_wires,
        final(builder).num_public == old(builder).num_public,
        constraints_within(final(builder).constraints@, final(builder).num_wires as nat),
        forall|v: Seq<u64>| #[trigger]
            admits(*final(builder), v) <==> admits(*old(builder), v) && wires_below(wires@, v.len())
                && wires_boolean(wires@, v),
{
    let mut i: usize = 0;
    while i < wires.len()
        invariant
            i <= wires@.len(),
            builder.num_wires == old(builder).num_wires,
            builder.num_public == old(builder).num_public,
            constraints_within(builder.constraints@, builder.num_wires as nat),
            wires_below(wires@, old(builder).num_wires as nat),
            forall|v: Seq<u64>| #[trigger]
                admits(*builder, v) <==> admits(*old(builder), v) && wires_below(
                    wires@.take(i as int),
                    v.len(),
                ) && wires_boolean(wires@.take(i as int), v),
        decreases wires@.len() - i,
    {
        let ghost before = *builder;
        let bit = wires[i];
        builder.add_constraint(Constraint::FieldMul { a: bit, b: bit, result: bit });
        proof {
            let constraint = Constraint::FieldMul { a: bit, b: bit, result: bit };
            assert(wires@[i as int].0 < old(builder).num_wires);
            lemma_constraint_added(before, *builder, constraint);
            let taken = wires@.take(i as int);
            let next = wires@.take(i + 1);
            assert(next[i as int] == bit);
            assert forall|v: Seq<u64>| #[trigger]
                admits(*builder, v) <==> admits(*old(builder), v) && wires_below(next, v.len())
                    && wires_boolean(next, v) by {
                lemma_boolean_constraint(bit, v);
                assert(admits(*builder, v) <==> admits(before, v) && constraint.holds(v));
                if wires_below(next, v.len()) && wires_boolean(next, v) {
                    assert forall|k: int| 0 <= k < taken.len() implies (#[trigger] taken[k]).0
                        < v.len() && v[taken[k].0 as int] <= 1 by {
                        assert(taken[k] == next[k]);
                    }
                }
                if wires_below(taken, v.len()) && wires_boolean(taken, v) && bit.0 < v.len() && at(
                    v,
                    bit,
                ) <= 1 {
                    assert forall|k: int| 0 <= k < next.len() implies (#[trigger] next[k]).0
                        < v.len() && v[next[k].0 as int] <= 1 by {
                        if k < taken.len() {
                            assert(taken[k] == next[k]);
                        }
                    }
                }
            }
        }
        i = i + 1;
    }
    assert(wires@.take(wires@.len() as int) =~= wires@);
}

/// The number of binary digits that hold every number up to `n`, and one more:
/// `ceil(log2(n + 1)) + 1`.
fn difference_digits(n: usize) -> (digits: usize)
    requires
        n <= usize::MAX / 1024,
    ensures
        is_difference_digits(n as nat, digits as nat),
        digits <= 60,
{
    let mut power: usize = 1;
    let mut log: usize = 0;
    proof {
        lemma2_to64();
        lemma2_to64_rest();
    }
    while power < n + 1
        invariant
            n <= usize::MAX / 1024,
            power == pow2(log as nat),
            log == 0 || pow2((log - 1) as nat) < n + 1,
            log <= 59,
        decreases 60 - log,
    {
        proof {
            lemma_pow2_unfold((log + 1) as nat);
            lemma2_to64();
            lemma2_to64_rest();
            if log >= 59 {
                assert(pow2(59) > usize::MAX / 1024);
            }
        }
        power = power * 2;
        log = log + 1;
    }
    log + 1
}

/// `digits` is `ceil(log2(n + 1)) + 1`.
pub open spec fn is_difference_digits(n: nat, digits: nat) -> bool {
    &&& digits >= 1
    &&& pow2((digits - 1) as nat) >= n + 1
    &&& digits >= 2 ==> pow2((digits - 2) as nat) < n + 1
}

/// Wire layout for the threshold circuit.
pub struct ThresholdWires {
    pub sig_bits: Vec<WireId>,
    pub count: WireId,
    pub threshold: WireId,
    pub difference: WireId,
    /// The adders, in the order in which their inputs become known.
    pub adder_ops: Vec<AdderOp>,
    /// The binary digits of the count.
    pub popcount_bits: Vec<WireId>,
    /// The binary digits of the difference.
    pub diff_bits: Vec<WireId>,
    /// The binary digits of the threshold.
    pub threshold_bits: Vec<WireId>,
}

/// The number of signatures that are present.
pub open spec fn count_signed(signatures: Seq<bool>) -> nat
    decreases signatures.len(),
{
    if signatures.len() == 0 {
        0
    } else {
        count_signed(signatures.drop_last()) + (if signatures.last() {
            1nat
        } else {
            0
        })
    }
}

/// `count - threshold`, or 0 if the threshold is larger.
pub open spec fn surplus(count: nat, threshold: u64) -> u64 {
    if count >= threshold {
        (count - threshold) as u64
    } else {
        0
    }
}

/// The values that the adder tree starts from for `n` validators: bits on the signature
/// wires, and 0 on the wires after them.
spec fn before_tree(v: Seq<u64>, n: nat) -> bool {
    &&& zero_from(v, 3 + n)
    &&& bits_between(v, 3, 3 + n)
}

impl ThresholdWires {
    /// The adders that count the signature bits.
    pub open spec fn tree_ops(self) -> Seq<AdderOp> {
        self.adder_ops@.take(self.adder_ops@.len() - self.diff_bits@.len())
    }

    /// The adders that add up the threshold and the difference, one for each digit.
    pub open spec fn sum_ops(self) -> Seq<AdderOp> {
        self.adder_ops@.skip(self.adder_ops@.len() - self.diff_bits@.len())
    }

    /// The wire after those of the adder tree, where the digits of the difference start.
    pub open spec fn digits_start(self) -> nat {
        if self.tree_ops().len() == 0 {
            3 + self.sig_bits@.len()
        } else {
            self.tree_ops().last().end()
        }
    }

    /// The wire after the digits of the difference and of the threshold.
    spec fn first_summed(self) -> nat {
        self.digits_start() + self.diff_bits@.len() + self.threshold_bits@.len()
    }

    /// From the signature bits, the adder tree computes the digits of the count.
    spec fn computes(self) -> bool {
        forall|v: Seq<u64>|
            #![trigger run(self.tree_ops(), v)]
            v.len() == self.num_wires() && before_tree(v, self.sig_bits@.len()) ==> wires_number(
                self.popcount_bits@,
                run(self.tree_ops(), v),
            ) == wires_sum(self.sig_bits@, run(self.tree_ops(), v))
    }

    /// The public wires come first, then the signature bits, then the wires of the adder
    /// tree, then the digits of the difference and of the threshold, and then the wires of
    /// the adders that add these up.
    pub closed spec fn wf(self) -> bool {
        let n = self.sig_bits@.len();
        let k = self.diff_bits@.len();
        let start = self.digits_start();
        &&& self.count == WireId(0)
        &&& self.threshold == WireId(1)
        &&& self.difference == WireId(2)
        &&& is_difference_digits(n, k)
        &&& k <= 60
        &&& self.threshold_bits@.len() == k
        &&& self.adder_ops@.len() >= k
        &&& 3 + n <= start
        &&& self.first_summed() <= self.num_wires() <= usize::MAX
        &&& self.sig_bits@ == Seq::new(n, |i: int| WireId((3 + i) as usize))
        &&& self.diff_bits@ == Seq::new(k, |j: int| WireId((start + j) as usize))
        &&& self.threshold_bits@ == Seq::new(k, |j: int| WireId((start + k + j) as usize))
        &&& wires_below(self.popcount_bits@, start)
        &&& ops_within(self.tree_ops(), 3 + n, start)
        &&& ops_within(self.sum_ops(), self.first_summed(), self.num_wires())
        &&& ops_read_from(self.tree_ops(), 3)
        &&& ops_read_from(self.sum_ops(), 3)
        &&& self.computes()
    }

    /// The number of wires: the last adder drives the last one.
    pub closed spec fn num_wires(self) -> nat {
        self.adder_ops@.last().end()
    }

    /// The values of the inputs, with 0 on every other wire.
    spec fn inputs(self, signatures: Seq<bool>, threshold: u64) -> Seq<u64> {
        let count = count_signed(signatures);
        Seq::new(
            self.num_wires(),
            |i: int|
                if i == 0 {
                    count as u64
                } else if i == 1 {
                    threshold
                } else if i == 2 {
                    surplus(count, threshold)
                } else if i < 3 + signatures.len() && signatures[i - 3] {
                    1
                } else {
                    0
                },
        )
    }

    /// The inputs, what the adder tree computes from them, and the digits of the
    /// difference and of the threshold.
    spec fn with_numbers(self, signatures: Seq<bool>, threshold: u64) -> Seq<u64> {
        let start = self.digits_start() as int;
        let k = self.diff_bits@.len() as int;
        let counted = run(self.tree_ops(), self.inputs(signatures, threshold));
        let diff = surplus(count_signed(signatures), threshold);
        with_digits(with_digits(counted, start, diff, k), start + k, threshold, k)
    }

    /// The values that an honest prover assigns: the inputs, what the adder tree computes
    /// from them, the digits of the difference and of the threshold, and what the other
    /// adders compute from these.
    pub closed spec fn assignment(self, signatures: Seq<bool>, threshold: u64) -> Seq<u64> {
        run(self.sum_ops(), self.with_numbers(signatures, threshold))
    }
}

/// `v` with the first `len` binary digits of `x` on the wires from `start` on.
spec fn with_digits(v: Seq<u64>, start: int, x: u64, len: int) -> Seq<u64> {
    Seq::new(
        v.len(),
        |i: int|
            if start <= i < start + len {
                (x >> ((i - start) as u64)) & 1
            } else {
                v[i]
            },
    )
}

/// `circuit` counts the signature bits of `wires`, and holds the count against the
/// threshold.
///
/// Whatever values satisfy it, every wire after the public ones carries a bit, the count
/// is the number of signature bits that are set, and the threshold and the difference add
/// up to the count. The values of an honest prover satisfy it exactly when the threshold
/// is met.
pub open spec fn counts_signatures(circuit: Circuit, wires: ThresholdWires) -> bool {
    &&& wires.wf()
    &&& circuit.num_wires == wires.num_wires()
    &&& forall|v: Seq<u64>| #[trigger]
        circuit.satisfied(v) ==> {
            &&& forall|i: int| 3 <= i < v.len() ==> (#[trigger] v[i]) <= 1
            &&& wires_boolean(wires.sig_bits@, v)
            &&& v[wires.count.0 as int] == wires_sum(wires.sig_bits@, v)
            &&& v[wires.count.0 as int] == v[wires.threshold.0 as int]
                + v[wires.difference.0 as int]
            &&& v[wires.count.0 as int] == wires_number(wires.popcount_bits@, v)
            &&& v[wires.difference.0 as int] == wires_number(wires.diff_bits@, v)
            &&& v[wires.threshold.0 as int] == wires_number(wires.threshold_bits@, v)
        }
    &&& forall|signatures: Seq<bool>, threshold: u64|
        signatures.len() == wires.sig_bits@.len() ==> (circuit.satisfied(
            #[trigger] wires.assignment(signatures, threshold),
        ) <==> threshold <= count_signed(signatures))
}

proof fn lemma_low_bit(x: u64)
    by (bit_vector)
    ensures
        x & 1 == x % 2,
{
}

/// The wires that carry the first `k` binary digits of `x` carry `x` modulo `2^k`.
proof fn lemma_digits_number(wires: Seq<WireId>, v: Seq<u64>, x: u64, k: nat)
    requires
        k <= wires.len(),
        k <= 64,
        forall|j: int|
            0 <= j < k ==> v[(#[trigger] wires[j]).0 as int] == (x >> (j as u64)) & 1,
    ensures
        wires_number(wires.take(k as int), v) == x as nat % pow2(k),
        wires_boolean(wires.take(k as int), v),
    decreases k,
{
    let taken = wires.take(k as int);
    if k == 0 {
        lemma2_to64();
    } else {
        let j = (k - 1) as nat;
        lemma_digits_number(wires, v, x, j);
        assert(taken.drop_last() =~= wires.take(j as int));
        assert(taken.last() == wires[j as int]);
        let shifted = x >> (j as u64);
        vstd::bits::lemma_u64_shr_is_div(x, j as u64);
        lemma_low_bit(shifted);
        lemma_pow2_pos(j);
        lemma_pow2_unfold(k);
        vstd::arithmetic::div_mod::lemma_mod_breakdown(x as int, pow2(j) as int, 2);
        assert(pow2(j) * 2 == pow2(k));
        let bit = at(v, wires[j as int]);
        assert(bit == (x as nat / pow2(j)) % 2);
        assert(bit as nat * pow2(j) == pow2(j) as int * ((x as int / pow2(j) as int) % 2))
            by (nonlinear_arith)
            requires
                bit == (x as nat / pow2(j)) % 2,
        ;
        assert forall|i: int| 0 <= i < taken.len() implies v[(#[trigger] taken[i]).0 as int]
            <= 1 by {
            if i < j {
                assert(wires.take(j as int)[i] == taken[i]);
            }
        }
    }
}

/// The signature bits of the inputs add up to the number of signatures present.
proof fn lemma_inputs_sum(wires: Seq<WireId>, v: Seq<u64>, signatures: Seq<bool>, k: nat)
    requires
        k <= wires.len(),
        wires.len() == signatures.len(),
        forall|i: int|
            0 <= i < wires.len() ==> v[(#[trigger] wires[i]).0 as int] == (if signatures[i] {
                1u64
            } else {
                0
            }),
    ensures
        wires_sum(wires.take(k as int), v) == count_signed(signatures.take(k as int)),
        count_signed(signatures.take(k as int)) <= k,
    decreases k,
{
    if k > 0 {
        let j = (k - 1) as nat;
        lemma_inputs_sum(wires, v, signatures, j);
        assert(wires.take(k as int).drop_last() =~= wires.take(j as int));
        assert(signatures.take(k as int).drop_last() =~= signatures.take(j as int));
        assert(wires.take(k as int).last() == wires[j as int]);
        assert(signatures.take(k as int).last() == signatures[j as int]);
    }
}

proof fn lemma_count_bound(signatures: Seq<bool>)
    ensures
        count_signed(signatures) <= signatures.len(),
    decreases signatures.len(),
{
    if signatures.len() > 0 {
        lemma_count_bound(signatures.drop_last());
    }
}

/// The values before the threshold and the difference are added up: the public values and
/// the signatures, the digits of all numbers, and a bit on every wire after the public ones.
proof fn lemma_numbers(wires: ThresholdWires, signatures: Seq<bool>, threshold: u64)
    requires
        wires.wf(),
        signatures.len() == wires.sig_bits@.len(),
    ensures
        ({
            let v = wires.inputs(signatures, threshold);
            let w = wires.with_numbers(signatures, threshold);
            let total = count_signed(signatures);
            &&& before_tree(v, signatures.len())
            &&& w.len() == wires.num_wires()
            &&& forall|i: int|
                0 <= i < wires.digits_start() ==> (#[trigger] w[i]) == run(wires.tree_ops(), v)[i]
            &&& zero_from(w, wires.first_summed())
            &&& bits_between(w, 3, w.len())
            &&& total <= signatures.len() < u64::MAX
            &&& w[0] == total
            &&& w[1] == threshold
            &&& w[2] == surplus(total, threshold)
            &&& forall|i: int|
                0 <= i < signatures.len() ==> w[(#[trigger] wires.sig_bits@[i]).0 as int] == (
                if signatures[i] {
                    1u64
                } else {
                    0
                })
            &&& wires_sum(wires.sig_bits@, w) == total
            &&& wires_number(wires.popcount_bits@, w) == total
            &&& wires_number(wires.diff_bits@, w) == surplus(total, threshold)
            &&& wires_number(wires.threshold_bits@, w) == threshold as nat % pow2(
                wires.threshold_bits@.len(),
            )
        }),
{
    let v = wires.inputs(signatures, threshold);
    let c = run(wires.tree_ops(), v);
    let w = wires.with_numbers(signatures, threshold);
    let n = signatures.len();
    let k = wires.diff_bits@.len();
    let start = wires.digits_start();
    let total = count_signed(signatures);
    let diff = surplus(total, threshold);
    lemma_count_bound(signatures);
    lemma2_to64();
    lemma2_to64_rest();
    if k < 60 {
        lemma_pow2_strictly_increases((k - 1) as nat, 59);
    }
    assert(before_tree(v, n));
    assert(bits_between(v, 3, v.len()));
    lemma_run_frame(wires.tree_ops(), v, 3 + n, start);
    lemma_run_bits(wires.tree_ops(), v, 3, 3 + n, start);
    assert forall|i: int| 3 <= i < w.len() implies (#[trigger] w[i]) <= 1 by {
        if start <= i < start + k {
            lemma_low_bit(diff >> ((i - start) as u64));
        } else if start + k <= i < start + k + k {
            lemma_low_bit(threshold >> ((i - start - k) as u64));
        } else {
            assert(w[i] == c[i]);
        }
    }
    assert forall|i: int| wires.first_summed() <= i < w.len() implies (#[trigger] w[i]) == 0 by {
        assert(w[i] == c[i]);
    }
    assert forall|i: int| 0 <= i < n implies w[(#[trigger] wires.sig_bits@[i]).0 as int] == (
    if signatures[i] {
        1u64
    } else {
        0
    }) by {
        assert(c[3 + i] == v[3 + i]);
    }
    lemma_inputs_sum(wires.sig_bits@, w, signatures, n);
    assert(wires.sig_bits@.take(n as int) =~= wires.sig_bits@);
    assert(signatures.take(n as int) =~= signatures);
    lemma_sum_agree(wires.sig_bits@, c, w);
    lemma_number_agree(wires.popcount_bits@, c, w, start);
    assert forall|j: int| 0 <= j < k implies w[(#[trigger] wires.diff_bits@[j]).0 as int] == (diff
        >> (j as u64)) & 1 by {}
    lemma_digits_number(wires.diff_bits@, w, diff, k);
    assert(wires.diff_bits@.take(k as int) =~= wires.diff_bits@);
    lemma_pow2_unfold(k);
    vstd::arithmetic::div_mod::lemma_small_mod(diff as nat, pow2(k));
    assert forall|j: int| 0 <= j < k implies w[(
    #[trigger] wires.threshold_bits@[j]).0 as int] == (threshold >> (j as u64)) & 1 by {}
    lemma_digits_number(wires.threshold_bits@, w, threshold, k);
    assert(wires.threshold_bits@.take(k as int) =~= wires.threshold_bits@);
}

/// What an honest prover assigns: the public values and the signatures, their digits, and
/// a bit on every wire after the public ones.
proof fn lemma_assignment(wires: ThresholdWires, signatures: Seq<bool>, threshold: u64)
    requires
        wires.wf(),
        signatures.len() == wires.sig_bits@.len(),
    ensures
        ({
            let u = wires.assignment(signatures, threshold);
            let total = count_signed(signatures);
            &&& u.len() == wires.num_wires()
            &&& total <= signatures.len() < u64::MAX
            &&& u[0] == total
            &&& u[1] == threshold
            &&& u[2] == surplus(total, threshold)
            &&& forall|i: int|
                0 <= i < signatures.len() ==> u[(#[trigger] wires.sig_bits@[i]).0 as int] == (
                if signatures[i] {
                    1u64
                } else {
                    0
                })
            &&& bits_between(u, 3, wires.num_wires())
            &&& wires_number(wires.popcount_bits@, u) == total
            &&& wires_number(wires.diff_bits@, u) == surplus(total, threshold)
            &&& wires_number(wires.threshold_bits@, u) == threshold as nat % pow2(
                wires.threshold_bits@.len(),
            )
        }),
{
    let w = wires.with_numbers(signatures, threshold);
    let u = wires.assignment(signatures, threshold);
    let first = wires.first_summed();
    lemma_numbers(wires, signatures, threshold);
    lemma_run_frame(wires.sum_ops(), w, first, wires.num_wires());
    lemma_run_bits(wires.sum_ops(), w, 3, first, wires.num_wires());
    lemma_wires_below_monotone(wires.popcount_bits@, wires.digits_start(), first);
    lemma_number_agree(wires.popcount_bits@, w, u, first);
    assert(wires_below(wires.diff_bits@, first));
    lemma_number_agree(wires.diff_bits@, w, u, first);
    assert(wires_below(wires.threshold_bits@, first));
    lemma_number_agree(wires.threshold_bits@, w, u, first);
}

/// Adding wires keeps the constraints.
proof fn lemma_constraints_widened(before: CircuitBuilder, after: CircuitBuilder)
    requires
        after.constraints@ == before.constraints@,
        after.num_wires >= before.num_wires,
        constraints_within(before.constraints@, before.num_wires as nat),
    ensures
        constraints_within(after.constraints@, after.num_wires as nat),
{
    assert forall|i: int| 0 <= i < after.constraints@.len() implies (
    #[trigger] after.constraints@[i]).within(after.num_wires as nat) by {
        assert(before.constraints@[i].within(before.num_wires as nat));
        lemma_within_monotone(
            before.constraints@[i],
            before.num_wires as nat,
            after.num_wires as nat,
        );
    }
}

/// Requires that `wire` carries the number with the binary digits `bits`.
fn assert_number(builder: &mut CircuitBuilder, wire: WireId, bits: &Vec<WireId>)
    requires
        constraints_within(old(builder).constraints@, old(builder).num_wires as nat),
        wire.0 < old(builder).num_wires,
        wires_below(bits@, old(builder).num_wires as nat),
    ensures
        final(builder).num_wires == old(builder).num_wires,
        final(builder).num_public == old(builder).num_public,
        constraints_within(final(builder).constraints@, final(builder).num_wires as nat),
        forall|v: Seq<u64>| #[trigger]
            admits(*final(builder), v) <==> admits(*old(builder), v) && wire.0 < v.len()
                && wires_below(bits@, v.len()) && wires_boolean(bits@, v) && at(v, wire)
                == wires_number(bits@, v),
{
    let digits = copy_wires(bits);
    builder.add_constraint(Constraint::RangeDecomposed { wire, bits: digits });
    proof {
        lemma_constraint_added(
            *old(builder),
            *builder,
            Constraint::RangeDecomposed { wire, bits: digits },
        );
    }
}

/// Build a threshold circuit for `n` validators.
///
/// Every validator takes several hundred bytes of constraints, so a circuit for
/// more than `usize::MAX / 1024` validators does not fit in memory.
#[verifier::rlimit(40)]
pub fn build_threshold_circuit(n: usize) -> (built: (Circuit, ThresholdWires))
    requires
        n <= usize::MAX / 1024,
    ensures
        counts_signatures(built.0, built.1),
        built.0.num_public == 3,
        built.1.count == WireId(0),
        built.1.threshold == WireId(1),
        built.1.difference == WireId(2),
        built.1.sig_bits@ == Seq::new(n as nat, |i: int| WireId((3 + i) as usize)),
        built.0.num_wires >= 3 + n,
        is_count_digits(n as nat, built.1.popcount_bits@.len()),
        is_difference_digits(n as nat, built.1.diff_bits@.len()),
        built.1.threshold_bits@.len() == built.1.diff_bits@.len(),
        wires_below(built.1.popcount_bits@, built.0.num_wires as nat),
        wires_below(built.1.diff_bits@, built.0.num_wires as nat),
        wires_below(built.1.threshold_bits@, built.0.num_wires as nat),
        // The adder tree comes after the signature bits, then the digits of the difference,
        // and then those of the threshold.
        built.1.adder_ops@.len() >= built.1.diff_bits@.len(),
        n <= 1 <==> built.1.tree_ops().len() == 0,
        n >= 2 ==> built.1.tree_ops()[0] == half_adder_at(WireId(3), WireId(4), 3 + n),
        3 + n <= built.1.digits_start(),
        built.1.digits_start() + built.1.diff_bits@.len() + built.1.threshold_bits@.len()
            <= built.0.num_wires,
        wires_below(built.1.popcount_bits@, built.1.digits_start()),
        built.1.diff_bits@ == Seq::new(
            built.1.diff_bits@.len(),
            |j: int| WireId((built.1.digits_start() + j) as usize),
        ),
        built.1.threshold_bits@ == Seq::new(
            built.1.diff_bits@.len(),
            |j: int| WireId((built.1.digits_start() + built.1.diff_bits@.len() + j) as usize),
        ),
{
    let mut builder = CircuitBuilder::new();
    let digits_needed = difference_digits(n);

    let count = builder.add_public();
    let threshold = builder.add_public();
    let difference = builder.add_public();
    let sig_bits: Vec<WireId> = add_witnesses(&mut builder, n);
    let ghost empty = builder;
    assert_boolean(&mut builder, &sig_bits);
    let ghost signed = builder;

    // Popcount via adder tree.
    let mut adder_ops: Vec<AdderOp> = Vec::new();
    let ghost counting = Stage {
        base: 3,
        first: (3 + n) as nat,
        start: |v: Seq<u64>| before_tree(v, n as nat),
    };
    proof {
        assert forall|v: Seq<u64>|
            #![trigger run(adder_ops@, v)]
            before_tree(v, n as nat) && v.len() >= builder.num_wires implies admits(
            builder,
            run(adder_ops@, v),
        ) by {
            assert(run(adder_ops@, v) == v);
            assert(admits(empty, v));
            assert forall|i: int| 0 <= i < sig_bits@.len() implies (#[trigger] sig_bits@[i]).0
                < v.len() && v[sig_bits@[i].0 as int] <= 1 by {
                assert(v[3 + i] <= 1);
            }
        }
        assert(tree_state(builder, adder_ops@, counting));
    }
    let popcount_bits = popcount_tree(
        &mut builder,
        sig_bits.as_slice(),
        &mut adder_ops,
        Ghost(counting),
    );
    let ghost tree = builder;
    let ghost tree_ops = adder_ops@;
    assert_number(&mut builder, count, &popcount_bits);
    let ghost counted = builder;

    // Difference bit decomposition.
    let diff_bits: Vec<WireId> = add_witnesses(&mut builder, digits_needed);
    proof {
        lemma_constraints_widened(counted, builder);
    }
    let ghost widened = builder;
    assert_boolean(&mut builder, &diff_bits);
    let ghost bounded = builder;
    assert_number(&mut builder, difference, &diff_bits);
    let ghost differing = builder;

    // Threshold bit decomposition.
    let threshold_bits: Vec<WireId> = add_witnesses(&mut builder, digits_needed);
    proof {
        lemma_constraints_widened(differing, builder);
    }
    let ghost extended = builder;
    assert_boolean(&mut builder, &threshold_bits);
    let ghost limited = builder;
    assert_number(&mut builder, threshold, &threshold_bits);
    let ghost demanding = builder;

    // The threshold and the difference add up to the count (proves count - threshold >= 0).
    let ghost summing = Stage {
        base: 3,
        first: demanding.num_wires as nat,
        start: |v: Seq<u64>| zero_from(v, demanding.num_wires as nat) && admits(demanding, v),
    };
    let mut sum_ops: Vec<AdderOp> = Vec::new();
    proof {
        assert forall|v: Seq<u64>|
            #![trigger run(sum_ops@, v)]
            (summing.start)(v) && v.len() >= builder.num_wires implies admits(
            builder,
            run(sum_ops@, v),
        ) by {
            assert(run(sum_ops@, v) == v);
        }
        assert(tree_state(builder, sum_ops@, summing));
    }
    let sum_bits = add_multi_bit(
        &mut builder,
        threshold_bits.as_slice(),
        diff_bits.as_slice(),
        &mut sum_ops,
        Ghost(summing),
    );
    let ghost added = builder;
    let ghost added_ops = sum_ops@;
    adder_ops.append(&mut sum_ops);
    assert_number(&mut builder, count, &sum_bits);
    let circuit = builder.build();
    let wires = ThresholdWires {
        sig_bits,
        count,
        threshold,
        difference,
        adder_ops,
        popcount_bits,
        diff_bits,
        threshold_bits,
    };
    proof {
        let end = wires.num_wires();
        let start = tree.num_wires as nat;
        assert(wires.adder_ops@ =~= tree_ops + added_ops);
        assert(wires.tree_ops() =~= tree_ops);
        assert(wires.sum_ops() =~= added_ops);
        assert(wires.adder_ops@.last() == added_ops.last());
        assert(end == builder.num_wires);
        assert(wires.digits_start() == start);
        assert(wires.first_summed() == demanding.num_wires);
        // What the values must be that satisfy the adder tree, given the signature bits.
        assert forall|v: Seq<u64>| #[trigger] admits(tree, v) implies {
            &&& wires_boolean(wires.sig_bits@, v)
            &&& bits_between(v, 3, start)
            &&& wires_boolean(wires.popcount_bits@, v)
            &&& wires_number(wires.popcount_bits@, v) == wires_sum(wires.sig_bits@, v)
        } by {
            assert(admits(signed, v));
            assert forall|i: int| 3 <= i < 3 + n implies (#[trigger] v[i]) <= 1 by {
                assert(wires.sig_bits@[i - 3].0 == i);
            }
            assert(bits_between(v, 3, signed.num_wires as nat));
        }
        assert(wires.computes()) by {
            assert forall|v: Seq<u64>|
                #![trigger run(wires.tree_ops(), v)]
                v.len() == end && before_tree(v, n as nat) implies wires_number(
                wires.popcount_bits@,
                run(wires.tree_ops(), v),
            ) == wires_sum(wires.sig_bits@, run(wires.tree_ops(), v)) by {
                assert((counting.start)(v));
                assert(admits(tree, run(tree_ops, v)));
            }
        }
        assert(wires.wf());
        assert forall|v: Seq<u64>| #[trigger] circuit.satisfied(v) implies {
            &&& forall|i: int| 3 <= i < v.len() ==> (#[trigger] v[i]) <= 1
            &&& wires_boolean(wires.sig_bits@, v)
            &&& v[0] == wires_sum(wires.sig_bits@, v)
            &&& v[0] == v[1] + v[2]
            &&& v[0] == wires_number(wires.popcount_bits@, v)
            &&& v[2] == wires_number(wires.diff_bits@, v)
            &&& v[1] == wires_number(wires.threshold_bits@, v)
        } by {
            assert(admits(builder, v));
            assert(admits(added, v));
            assert(admits(demanding, v));
            assert(admits(limited, v));
            assert(admits(extended, v));
            assert(admits(differing, v));
            assert(admits(bounded, v));
            assert(admits(widened, v));
            assert(admits(counted, v));
            assert(admits(tree, v));
            assert forall|i: int| 3 <= i < demanding.num_wires implies (#[trigger] v[i]) <= 1 by {
                if i >= start + digits_needed {
                    assert(wires.threshold_bits@[i - start - digits_needed].0 == i);
                } else if i >= start {
                    assert(wires.diff_bits@[i - start].0 == i);
                }
            }
            assert(bits_between(v, 3, demanding.num_wires as nat));
            assert(bits_between(v, 3, end));
        }
        assert forall|signatures: Seq<bool>, threshold: u64|
            signatures.len() == wires.sig_bits@.len() implies (circuit.satisfied(
            #[trigger] wires.assignment(signatures, threshold),
        ) <==> threshold <= count_signed(signatures)) by {
            let c = run(wires.tree_ops(), wires.inputs(signatures, threshold));
            let w = wires.with_numbers(signatures, threshold);
            let u = wires.assignment(signatures, threshold);
            lemma_numbers(wires, signatures, threshold);
            lemma_assignment(wires, signatures, threshold);
            if threshold <= count_signed(signatures) {
                let k = wires.threshold_bits@.len();
                lemma_pow2_unfold(k);
                vstd::arithmetic::div_mod::lemma_small_mod(threshold as nat, pow2(k));
                assert((counting.start)(wires.inputs(signatures, threshold)));
                lemma_run_frame(
                    wires.tree_ops(),
                    wires.inputs(signatures, threshold),
                    3 + n as nat,
                    start,
                );
                assert(admits(tree, c));
                lemma_admits_agree(tree.constraints@, c, w, start);
                assert(admits(tree, w));
                lemma_wires_below_monotone(wires.popcount_bits@, start, w.len());
                assert(admits(counted, w));
                assert(admits(widened, w));
                assert(wires_boolean(wires.diff_bits@, w));
                assert(admits(bounded, w));
                assert(admits(differing, w));
                assert(admits(extended, w));
                assert(wires_boolean(wires.threshold_bits@, w));
                assert(admits(limited, w));
                assert(admits(demanding, w));
                assert((summing.start)(w));
                assert(u == run(added_ops, w));
                assert(admits(added, u));
                assert(wires_boolean(wires.diff_bits@, u));
                assert(wires_boolean(wires.threshold_bits@, u));
                assert(admits(builder, u));
            }
        }
    }
    (circuit, wires)
}

/// The largest index among `wires`, or `floor` if that is larger.
fn highest(wires: &Vec<WireId>, floor: usize) -> (top: usize)
    ensures
        top >= floor,
        forall|i: int| 0 <= i < wires@.len() ==> (#[trigger] wires@[i]).0 <= top,
        top == floor || exists|i: int| 0 <= i < wires@.len() && (#[trigger] wires@[i]).0 == top,
{
    let mut top: usize = floor;
    let mut i: usize = 0;
    while i < wires.len()
        invariant
            i <= wires@.len(),
            top >= floor,
            forall|k: int| 0 <= k < i ==> (#[trigger] wires@[k]).0 <= top,
            top == floor || exists|k: int| 0 <= k < i && (#[trigger] wires@[k]).0 == top,
        decreases wires@.len() - i,
    {
        if wires[i].0 > top {
            top = wires[i].0;
            assert(wires@[i as int].0 == top);
        }
        i = i + 1;
    }
    top
}

/// The last wire that the adder drives.
fn last_driven(op: &AdderOp) -> (last: usize)
    ensures
        forall|n: nat| #[trigger] op.placed(n) ==> last + 1 == n + op.width(),
{
    match op {
        AdderOp::Half { sum, carry, .. } => {
            if sum.0 > carry.0 {
                sum.0
            } else {
                carry.0
            }
        },
        AdderOp::Full { sum, cout, s1, c1, c2, .. } => {
            let mut last: usize = sum.0;
            if cout.0 > last {
                last = cout.0;
            }
            if s1.0 > last {
                last = s1.0;
            }
            if c1.0 > last {
                last = c1.0;
            }
            if c2.0 > last {
                last = c2.0;
            }
            last
        },
    }
}

impl ThresholdWires {
    /// The largest index of a wire of the layout.
    fn max_wire(&self) -> (top: usize)
        requires
            self.wf(),
        ensures
            top + 1 == self.num_wires(),
    {
        let mut top: usize = self.count.0;
        if self.threshold.0 > top {
            top = self.threshold.0;
        }
        if self.difference.0 > top {
            top = self.difference.0;
        }
        top = highest(&self.sig_bits, top);
        top = highest(&self.popcount_bits, top);
        top = highest(&self.diff_bits, top);
        top = highest(&self.threshold_bits, top);
        let mut i: usize = 0;
        while i < self.adder_ops.len()
            invariant
                i <= self.adder_ops@.len(),
                self.wf(),
                top < self.num_wires(),
                i == self.adder_ops@.len() ==> top + 1 == self.num_wires(),
            decreases self.adder_ops@.len() - i,
        {
            let last = last_driven(&self.adder_ops[i]);
            proof {
                let op = self.adder_ops@[i as int];
                let s = self.adder_ops@.len() - self.diff_bits@.len();
                if i < s {
                    assert(self.tree_ops()[i as int] == op);
                    assert(placed_within(op, 3 + self.sig_bits@.len(), self.digits_start()));
                } else {
                    assert(self.sum_ops()[i - s] == op);
                    assert(placed_within(op, self.first_summed(), self.num_wires()));
                }
            }
            if last > top {
                top = last;
            }
            i = i + 1;
        }
        top
    }
}

/// Sets the wires that `op` drives to what it computes.
fn replay(witness: &mut Witness, op: &AdderOp)
    requires
        exists|n: nat| #[trigger] op.placed(n) && n + op.width() <= old(witness).values@.len(),
    ensures
        final(witness).values@ == op.eval(old(witness).values@),
        final(witness).num_public == old(witness).num_public,
{
    match op {
        AdderOp::Half { a, b, sum, carry } => {
            let va = witness.get(*a);
            let vb = witness.get(*b);
            witness.set(*sum, va ^ vb);
            witness.set(*carry, va & vb);
        },
        AdderOp::Full { a, b, cin, sum, cout, s1, c1, c2 } => {
            let va = witness.get(*a);
            let vb = witness.get(*b);
            let vc = witness.get(*cin);
            let vs1 = va ^ vb;
            let vc1 = va & vb;
            let vsum = vs1 ^ vc;
            let vc2 = vs1 & vc;
            witness.set(*s1, vs1);
            witness.set(*c1, vc1);
            witness.set(*sum, vsum);
            witness.set(*c2, vc2);
            witness.set(*cout, vc1 ^ vc2);
        },
    }
}

/// Replays the adders from index `from` up to `to`, in order.
fn replay_all(
    witness: &mut Witness,
    ops: &Vec<AdderOp>,
    from: usize,
    to: usize,
    lo: Ghost<nat>,
    hi: Ghost<nat>,
)
    requires
        from <= to <= ops@.len(),
        ops_within(ops@.subrange(from as int, to as int), lo@, hi@),
        hi@ <= old(witness).values@.len(),
    ensures
        final(witness).values@ == run(
            ops@.subrange(from as int, to as int),
            old(witness).values@,
        ),
        final(witness).values@.len() == old(witness).values@.len(),
        final(witness).num_public == old(witness).num_public,
{
    let ghost before = witness.values@;
    let ghost replayed = ops@.subrange(from as int, to as int);
    let mut j: usize = from;
    assert(replayed.take(0) =~= Seq::<AdderOp>::empty());
    while j < to
        invariant
            from <= j <= to <= ops@.len(),
            replayed == ops@.subrange(from as int, to as int),
            ops_within(replayed, lo@, hi@),
            hi@ <= before.len(),
            witness.values@ == run(replayed.take(j - from), before),
            witness.values@.len() == before.len(),
            witness.num_public == old(witness).num_public,
        decreases to - j,
    {
        proof {
            let next = replayed.take(j - from + 1);
            let op = ops@[j as int];
            assert(next.drop_last() =~= replayed.take(j - from));
            assert(next.last() == op);
            assert(placed_within(replayed[j - from], lo@, hi@));
            let at = choose|at: nat| #[trigger]
                op.placed(at) && lo@ <= at && at + op.width() <= hi@;
            assert(op.placed(at) && at + op.width() <= witness.values@.len());
            lemma_eval_holds(op, witness.values@, at);
        }
        replay(witness, &ops[j]);
        j = j + 1;
    }
    assert(replayed.take(to - from) =~= replayed);
}

/// Counts the signatures that are present.
fn count_present(signatures: &[bool]) -> (count: u64)
    ensures
        count == count_signed(signatures@),
{
    let mut count: u64 = 0;
    let mut i: usize = 0;
    assert(signatures@.take(0) =~= Seq::<bool>::empty());
    while i < signatures.len()
        invariant
            i <= signatures@.len(),
            count == count_signed(signatures@.take(i as int)),
            count <= i,
        decreases signatures@.len() - i,
    {
        proof {
            let next = signatures@.take(i + 1);
            assert(next.drop_last() =~= signatures@.take(i as int));
            assert(next.last() == signatures@[i as int]);
        }
        if signatures[i] {
            count = count + 1;
        }
        i = i + 1;
    }
    assert(signatures@.take(signatures@.len() as int) =~= signatures@);
    count
}

/// Sets the wires from `start` on to the binary digits of `x`.
fn set_digits(witness: &mut Witness, digits: &Vec<WireId>, start: Ghost<int>, x: u64)
    requires
        0 <= start@,
        start@ + digits@.len() <= old(witness).values@.len(),
        start@ + digits@.len() <= usize::MAX,
        digits@.len() <= 64,
        digits@ == Seq::new(digits@.len(), |j: int| WireId((start@ + j) as usize)),
    ensures
        final(witness).values@ == with_digits(
            old(witness).values@,
            start@,
            x,
            digits@.len() as int,
        ),
        final(witness).num_public == old(witness).num_public,
{
    let ghost before = witness.values@;
    let mut j: usize = 0;
    assert(before =~= with_digits(before, start@, x, 0));
    while j < digits.len()
        invariant
            j <= digits@.len(),
            0 <= start@,
            start@ + digits@.len() <= before.len(),
            start@ + digits@.len() <= usize::MAX,
            digits@.len() <= 64,
            digits@ == Seq::new(digits@.len(), |j: int| WireId((start@ + j) as usize)),
            witness.values@ == with_digits(before, start@, x, j as int),
            witness.num_public == old(witness).num_public,
        decreases digits@.len() - j,
    {
        witness.set(digits[j], (x >> (j as u64)) & 1);
        j = j + 1;
        assert(witness.values@ =~= with_digits(before, start@, x, j as int));
    }
}

/// Populate witness, replaying adder tree for intermediate values.
pub fn build_threshold_witness(
    wires: &ThresholdWires,
    signatures: &[bool],
    threshold: u64,
) -> (witness: Witness)
    requires
        wires.wf(),
        signatures@.len() == wires.sig_bits@.len(),
    ensures
        witness.values@ == wires.assignment(signatures@, threshold),
        witness.values@.len() == wires.num_wires(),
        witness.num_public == 3,
        witness.values@[wires.count.0 as int] == count_signed(signatures@),
        witness.values@[wires.threshold.0 as int] == threshold,
        witness.values@[wires.difference.0 as int] == surplus(
            count_signed(signatures@),
            threshold,
        ),
        forall|i: int|
            0 <= i < signatures@.len() ==> witness.values@[(#[trigger] wires.sig_bits@[i]).0 as int]
                == (if signatures@[i] {
                1u64
            } else {
                0
            }),
        wires_number(wires.popcount_bits@, witness.values@) == count_signed(signatures@),
        wires_number(wires.diff_bits@, witness.values@) == surplus(
            count_signed(signatures@),
            threshold,
        ),
        forall|i: int| 3 <= i < witness.values@.len() ==> (#[trigger] witness.values@[i]) <= 1,
{
    let n = wires.sig_bits.len();
    let count = count_present(signatures);
    let diff = if count >= threshold {
        count - threshold
    } else {
        0
    };
    let mut witness = Witness::new(wires.max_wire() + 1, 3);
    witness.set(wires.count, count);
    witness.set(wires.threshold, threshold);
    witness.set(wires.difference, diff);
    let ghost public = witness.values@;
    let mut i: usize = 0;
    while i < n
        invariant
            i <= n,
            wires.wf(),
            n == wires.sig_bits@.len(),
            n == signatures@.len(),
            witness.num_public == 3,
            public.len() == wires.num_wires(),
            witness.values@ == Seq::new(
                wires.num_wires(),
                |k: int|
                    if 3 <= k < 3 + i && signatures@[k - 3] {
                        1
                    } else {
                        public[k]
                    },
            ),
            forall|k: int| 3 <= k < public.len() ==> public[k] == 0,
        decreases n - i,
    {
        witness.set(
            wires.sig_bits[i],
            if signatures[i] {
                1
            } else {
                0
            },
        );
        i = i + 1;
        assert(witness.values@ =~= Seq::new(
            wires.num_wires(),
            |k: int|
                if 3 <= k < 3 + i && signatures@[k - 3] {
                    1
                } else {
                    public[k]
                },
        ));
    }
    let ghost start = wires.digits_start() as int;
    let ghost k = wires.diff_bits@.len() as int;
    let ghost inputs = wires.inputs(signatures@, threshold);
    assert(witness.values@ =~= inputs);

    // Replay adder tree.
    let total = wires.adder_ops.len();
    let tree = total - wires.diff_bits.len();
    proof {
        assert(wires.adder_ops@.subrange(0, tree as int) =~= wires.tree_ops());
        assert(wires.adder_ops@.subrange(tree as int, total as int) =~= wires.sum_ops());
        lemma_run_frame(wires.tree_ops(), inputs, (3 + n) as nat, start as nat);
    }
    replay_all(
        &mut witness,
        &wires.adder_ops,
        0,
        tree,
        Ghost((3 + n) as nat),
        Ghost(start as nat),
    );
    set_digits(&mut witness, &wires.diff_bits, Ghost(start), diff);
    set_digits(&mut witness, &wires.threshold_bits, Ghost(start + k), threshold);
    replay_all(
        &mut witness,
        &wires.adder_ops,
        tree,
        total,
        Ghost(wires.first_summed()),
        Ghost(wires.num_wires()),
    );
    proof {
        lemma_assignment(*wires, signatures@, threshold);
    }
    witness
}

/// Light client threshold check: the public inputs are the count, the threshold
/// and their difference, in this order.
pub open spec fn accepts(public_inputs: Seq<u32>, expected_threshold: u32) -> bool {
    &&& public_inputs.len() >= 3
    &&& public_inputs[1] >= expected_threshold
    &&& public_inputs[0] == public_inputs[1] + public_inputs[2]
}

/// Light client threshold check.
pub fn verify_threshold(public_inputs: &[u32], expected_threshold: u32) -> (ok: bool)
    ensures
        ok == accepts(public_inputs@, expected_threshold),
{
    if public_inputs.len() < 3 {
        return false;
    }
    let count = public_inputs[0];
    let threshold = public_inputs[1];
    let difference = public_inputs[2];
    count >= threshold && threshold >= expected_threshold && count == threshold.wrapping_add(
        difference,
    )
}

pub fn check_threshold(count: u32, threshold: u32, expected: u32) -> (ok: bool)
    ensures
        ok == (count >= threshold && threshold >= expected),
{
    count >= threshold && threshold >= expected
}

/// Soundness of the circuit: whatever values satisfy it, at least as many signature bits
/// are set as the threshold says, and the difference is what they exceed it by.
pub proof fn law_satisfied_circuit_meets_threshold(
    circuit: Circuit,
    wires: ThresholdWires,
    values: Seq<u64>,
)
    requires
        counts_signatures(circuit, wires),
        circuit.satisfied(values),
    ensures
        wires_boolean(wires.sig_bits@, values),
        wires_sum(wires.sig_bits@, values) >= values[wires.threshold.0 as int],
        values[wires.difference.0 as int] == wires_sum(wires.sig_bits@, values)
            - values[wires.threshold.0 as int],
{
}

/// Soundness for the light client: whatever values satisfy the circuit, if the light
/// client accepts their public part then at least `expected_threshold` signature bits are
/// set.
pub proof fn law_accepted_threshold_is_met(
    circuit: Circuit,
    wires: ThresholdWires,
    values: Seq<u64>,
    public_inputs: Seq<u32>,
    expected_threshold: u32,
)
    requires
        counts_signatures(circuit, wires),
        circuit.satisfied(values),
        public_inputs.len() >= 3,
        public_inputs[0] == values[wires.count.0 as int],
        public_inputs[1] == values[wires.threshold.0 as int],
        public_inputs[2] == values[wires.difference.0 as int],
        accepts(public_inputs, expected_threshold),
    ensures
        wires_boolean(wires.sig_bits@, values),
        wires_sum(wires.sig_bits@, values) >= expected_threshold,
{
}

/// A prover cannot claim another count: two assignments with the same signature
/// bits that satisfy the circuit agree on the count.
pub proof fn law_count_is_determined(
    circuit: Circuit,
    wires: ThresholdWires,
    first: Seq<u64>,
    second: Seq<u64>,
)
    requires
        counts_signatures(circuit, wires),
        circuit.satisfied(first),
        circuit.satisfied(second),
        forall|i: int|
            0 <= i < wires.sig_bits@.len() ==> first[(#[trigger] wires.sig_bits@[i]).0 as int]
                == second[wires.sig_bits@[i].0 as int],
    ensures
        first[wires.count.0 as int] == second[wires.count.0 as int],
{
    lemma_sum_agree(wires.sig_bits@, first, second);
}

proof fn lemma_sum_agree(wires: Seq<WireId>, v: Seq<u64>, w: Seq<u64>)
    requires
        forall|i: int|
            0 <= i < wires.len() ==> v[(#[trigger] wires[i]).0 as int] == w[wires[i].0 as int],
    ensures
        wires_sum(wires, v) == wires_sum(wires, w),
    decreases wires.len(),
{
    if wires.len() > 0 {
        let rest = wires.drop_last();
        assert forall|i: int| 0 <= i < rest.len() implies v[(#[trigger] rest[i]).0 as int]
            == w[rest[i].0 as int] by {
            assert(rest[i] == wires[i]);
        }
        lemma_sum_agree(rest, v, w);
        assert(wires[wires.len() - 1] == wires.last());
    }
}

/// Completeness: the values of an honest prover satisfy the circuit exactly when as many
/// signatures are present as the threshold says, and the light client accepts their public
/// part exactly when, moreover, the threshold is at least the expected one.
pub proof fn law_honest_threshold_is_accepted(
    circuit: Circuit,
    wires: ThresholdWires,
    signatures: Seq<bool>,
    threshold: u32,
    expected_threshold: u32,
)
    requires
        counts_signatures(circuit, wires),
        signatures.len() == wires.sig_bits@.len(),
        signatures.len() <= u32::MAX,
    ensures
        circuit.satisfied(wires.assignment(signatures, threshold as u64)) <==> threshold
            <= count_signed(signatures),
        ({
            let values = wires.assignment(signatures, threshold as u64);
            accepts(
                seq![
                    values[wires.count.0 as int] as u32,
                    values[wires.threshold.0 as int] as u32,
                    values[wires.difference.0 as int] as u32,
                ],
                expected_threshold,
            ) <==> expected_threshold <= threshold <= count_signed(signatures)
        }),
{
    lemma_assignment(wires, signatures, threshold as u64);
}

} // verus!
