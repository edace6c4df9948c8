use vstd::prelude::*;

use crate::value::{Value, UNSIGNED_MAX};
use arrayvec::ArrayVec;

verus! {

/// The most partial sums that averaging may set aside.
pub const MAX_CARRIES: usize = 4;

#[verifier::external_type_specification]
#[verifier::external_body]
#[verifier::reject_recursive_types(T)]
pub struct ExArrayVec<T, const CAP: usize>(ArrayVec<T, CAP>);

/// What a fixed-capacity list of set-aside partial sums holds, in order of insertion.
pub uninterp spec fn carries_of(v: ArrayVec<u32, 4>) -> Seq<u32>;

/// Relies on `ArrayVec::new`: a new list is empty.
#[verifier::external_body]
fn carries_new() -> (r: ArrayVec<u32, 4>)
    ensures
        carries_of(r) == Seq::<u32>::empty(),
{
    ArrayVec::new()
}

/// Relies on `ArrayVec::push`: appends at the end, and panics only when the list is full.
#[verifier::external_body]
fn carries_push(v: &mut ArrayVec<u32, 4>, x: u32)
    requires
        carries_of(*old(v)).len() < 4,
    ensures
        carries_of(*final(v)) == carries_of(*old(v)).push(x),
{
    v.push(x)
}

/// Relies on `ArrayVec::as_slice`: the elements in order of insertion.
#[verifier::external_body]
fn carries_slice(v: &ArrayVec<u32, 4>) -> (r: &[u32])
    ensures
        r@ == carries_of(*v),
{
    v.as_slice()
}

/// The sum of a sequence of unsigned fractions, as an integer number of `2^-32` units.
pub open spec fn sum_of(s: Seq<u32>) -> nat
    decreases s.len(),
{
    if s.len() == 0 {
        0
    } else {
        sum_of(s.drop_last()) + s.last() as nat
    }
}

/// The running accumulator and the number of partial sums set aside after adding up `s`
/// from the left: whenever the next element would overflow the accumulator, the
/// accumulator is set aside and restarted from that element.
pub open spec fn flush_state(s: Seq<u32>) -> (nat, nat)
    decreases s.len(),
{
    if s.len() == 0 {
        (0, 0)
    } else {
        let (acc, flushes) = flush_state(s.drop_last());
        if acc + s.last() as nat <= UNSIGNED_MAX as nat {
            (acc + s.last() as nat, flushes)
        } else {
            (s.last() as nat, flushes + 1)
        }
    }
}

/// Whether averaging `s` stays within the partial sums it may set aside.
pub open spec fn fits_carries(s: Seq<u32>) -> bool {
    flush_state(s).1 <= MAX_CARRIES as nat
}

proof fn lemma_flushes_grow(s: Seq<u32>, j: int, k: int)
    requires
        0 <= j <= k <= s.len(),
    ensures
        flush_state(s.take(j)).1 <= flush_state(s.take(k)).1,
    decreases k - j,
{
    if j < k {
        lemma_flushes_grow(s, j, k - 1);
        assert(s.take(k).drop_last() =~= s.take(k - 1));
    }
}

proof fn lemma_sum_bound(s: Seq<u32>)
    ensures
        sum_of(s) <= s.len() * (UNSIGNED_MAX as nat),
    decreases s.len(),
{
    if s.len() > 0 {
        lemma_sum_bound(s.drop_last());
        assert(sum_of(s.drop_last()) + s.last() as nat <= (s.len() - 1) * (UNSIGNED_MAX as nat)
            + UNSIGNED_MAX as nat);
        assert((s.len() - 1) * (UNSIGNED_MAX as nat) + UNSIGNED_MAX as nat == s.len() * (
        UNSIGNED_MAX as nat)) by (nonlinear_arith);
    }
}

proof fn lemma_flush_sum(s: Seq<u32>, carries: Seq<u32>, acc: nat)
    requires
        s.len() > 0,
        flush_state(s.drop_last()).0 == acc,
        sum_of(carries) + acc == sum_of(s.drop_last()),
    ensures
        acc + s.last() as nat > UNSIGNED_MAX as nat ==> sum_of(carries.push(acc as u32))
            + s.last() as nat == sum_of(s),
{
    if acc + s.last() as nat > UNSIGNED_MAX as nat {
        assert(acc <= UNSIGNED_MAX as nat) by {
            lemma_acc_bound(s.drop_last());
        }
        assert(carries.push(acc as u32).drop_last() =~= carries);
    }
}

proof fn lemma_acc_bound(s: Seq<u32>)
    ensures
        flush_state(s).0 <= UNSIGNED_MAX as nat,
    decreases s.len(),
{
    if s.len() > 0 {
        lemma_acc_bound(s.drop_last());
    }
}

/// The average of unsigned fractions (`bits / 2^32` each), computed with one division at
/// the end so that no precision is lost on the way: the result is the exact average
/// rounded down. Partial sums that would overflow the accumulator are set aside, at most
/// `MAX_CARRIES` of them; needing more is outside what this averaging is built for.
pub fn average_fixed(samples: &[u32]) -> (r: u32)
    requires
        samples@.len() > 0,
        fits_carries(samples@),
    ensures
        r as nat == sum_of(samples@) / samples@.len(),
        r as nat * samples@.len() <= sum_of(samples@) < (r as nat + 1) * samples@.len(),
{
    let len = samples.len();
    let ghost s = samples@;
    let mut cur = carries_new();
    let mut acc: u32 = 0;
    let mut flushed: usize = 0;
    let mut i: usize = 0;
    while i < len
        invariant
            0 <= i <= len,
            len == s.len(),
            s == samples@,
            flush_state(s.take(i as int)).0 == acc as nat,
            flush_state(s.take(i as int)).1 == carries_of(cur).len(),
            sum_of(carries_of(cur)) + acc as nat == sum_of(s.take(i as int)),
            carries_of(cur).len() <= MAX_CARRIES,
            flushed == carries_of(cur).len(),
            fits_carries(s),
        decreases len - i,
    {
        let x = samples[i];
        let ghost before = s.take(i as int);
        assert(s.take(i + 1).drop_last() =~= before);
        proof {
            lemma_flush_sum(s.take(i + 1), carries_of(cur), acc as nat);
        }
        match acc.checked_add(x) {
            Some(n) => {
                acc = n;
            },
            None => {
                proof {
                    lemma_flushes_grow(s, i + 1, len as int);
                    assert(s.take(len as int) =~= s);
                }
                carries_push(&mut cur, acc);
                flushed = flushed + 1;
                acc = x;
            },
        }
        i = i + 1;
    }
    assert(s.take(len as int) =~= s);
    let carries = carries_slice(&cur);
    let mut total: u64 = acc as u64;
    let mut j: usize = 0;
    while j < carries.len()
        invariant
            0 <= j <= carries@.len(),
            carries@ == carries_of(cur),
            carries@.len() <= MAX_CARRIES,
            total as nat == acc as nat + sum_of(carries@.take(j as int)),
            total as nat <= (j + 1) * (UNSIGNED_MAX as nat),
        decreases carries@.len() - j,
    {
        assert(carries@.take(j + 1).drop_last() =~= carries@.take(j as int));
        total = total + carries[j] as u64;
        j = j + 1;
    }
    assert(carries@.take(carries@.len() as int) =~= carries@);
    proof {
        lemma_sum_bound(s);
        assert(sum_of(s) / (len as nat) <= UNSIGNED_MAX as nat) by (nonlinear_arith)
            requires
                sum_of(s) <= len * (UNSIGNED_MAX as nat),
                len > 0,
        ;
    }
    proof {
        let q = sum_of(s) / (len as nat);
        assert(q * (len as nat) <= sum_of(s) < (q + 1) * (len as nat)) by (nonlinear_arith)
            requires
                q == sum_of(s) / (len as nat),
                len > 0,
        ;
    }
    (total / len as u64) as u32
}

/// Whether `samples` can be averaged: not empty, and within the partial sums that
/// averaging may set aside.
pub fn averageable(samples: &[u32]) -> (r: bool)
    ensures
        r == (samples@.len() > 0 && fits_carries(samples@)),
{
    let len = samples.len();
    let ghost s = samples@;
    let mut acc: u32 = 0;
    let mut flushed: usize = 0;
    let mut i: usize = 0;
    while i < len
        invariant
            0 <= i <= len,
            len == s.len(),
            s == samples@,
            flush_state(s.take(i as int)) == (acc as nat, flushed as nat),
            flushed <= i,
        decreases len - i,
    {
        let x = samples[i];
        assert(s.take(i + 1).drop_last() =~= s.take(i as int));
        match acc.checked_add(x) {
            Some(n) => {
                acc = n;
            },
            None => {
                flushed = flushed + 1;
                acc = x;
            },
        }
        i = i + 1;
    }
    assert(s.take(len as int) =~= s);
    len > 0 && flushed <= MAX_CARRIES
}

/// The blend of `natural` and `target` (unsigned forms) by the coefficient `t / u32::MAX`:
/// `natural * (1 - t) + target * t`, rounded down.
pub open spec fn blend(natural: nat, target: nat, t: nat) -> nat {
    (natural * ((UNSIGNED_MAX as nat - t) as nat) + target * t) / (UNSIGNED_MAX as nat)
}

/// The unsigned forms of a stream of samples.
pub open spec fn units_of(amount: Seq<Value>) -> Seq<u32> {
    amount.map_values(|v: Value| v.unsigned() as u32)
}

/// Whether a stream of modulation samples can be averaged into a coefficient.
pub open spec fn modulation_ready(amount: Seq<Value>) -> bool {
    amount.len() > 0 && fits_carries(units_of(amount))
}

/// The coefficient that a stream of modulation samples gives: the average of their
/// unsigned forms, rounded down.
pub open spec fn modulation_of(amount: Seq<Value>) -> nat {
    sum_of(units_of(amount)) / amount.len()
}

/// The effective value of a parameter with base `natural`, driven towards `wire_value`
/// by the modulation stream `amount`; without a modulation stream it is `natural`.
pub open spec fn lerp_spec(natural: Value, wire_value: Value, amount: Option<Seq<Value>>) -> Value {
    match amount {
        Some(a) => Value {
            bits: (blend(natural.unsigned(), wire_value.unsigned(), modulation_of(a)) - 0x8000_0000) as i32,
        },
        None => natural,
    }
}

/// Whether a stream of samples can be averaged into a coefficient.
pub fn modulation_fits(samples: &Vec<Value>) -> (r: bool)
    ensures
        r == modulation_ready(samples@),
{
    let units = unsigned_forms(samples);
    averageable(units.as_slice())
}

fn unsigned_forms(samples: &Vec<Value>) -> (r: Vec<u32>)
    ensures
        r@ == units_of(samples@),
{
    let mut units: Vec<u32> = Vec::new();
    let mut i: usize = 0;
    while i < samples.len()
        invariant
            0 <= i <= samples@.len(),
            units@ =~= samples@.take(i as int).map_values(|v: Value| v.unsigned() as u32),
        decreases samples@.len() - i,
    {
        units.push(samples[i].to_u());
        i = i + 1;
    }
    assert(samples@.take(samples@.len() as int) =~= samples@);
    assert(units@ =~= units_of(samples@));
    units
}

pub trait Lerp: Sized {
    spec fn spec_lerp(&self, wire_value: &Self, amount: Option<Seq<Value>>) -> Self;

    fn lerp(&self, wire_value: &Self, amount: Option<&Vec<Value>>) -> (r: Self)
        requires
            amount matches Some(a) ==> modulation_ready(a@),
        ensures
            r == self.spec_lerp(wire_value, match amount {
                Some(a) => Some(a@),
                None => None,
            }),
    ;
}

proof fn lemma_blend_bound(n: nat, w: nat, t: nat)
    requires
        n <= UNSIGNED_MAX as nat,
        w <= UNSIGNED_MAX as nat,
        t <= UNSIGNED_MAX as nat,
    ensures
        blend(n, w, t) <= UNSIGNED_MAX as nat,
{
    let d = UNSIGNED_MAX as nat;
    assert(n * ((d - t) as nat) + w * t <= d * ((d - t) as nat) + d * t) by (nonlinear_arith)
        requires
            n <= d,
            w <= d,
            t <= d,
    ;
    assert(d * ((d - t) as nat) + d * t == d * d) by (nonlinear_arith)
        requires
            t <= d,
    ;
    assert((n * ((d - t) as nat) + w * t) / d <= d) by (nonlinear_arith)
        requires
            n * ((d - t) as nat) + w * t <= d * d,
            d > 0,
    ;
}

impl Lerp for Value {
    open spec fn spec_lerp(&self, wire_value: &Value, amount: Option<Seq<Value>>) -> Value {
        lerp_spec(*self, *wire_value, amount)
    }

    fn lerp(&self, wire_value: &Value, amount: Option<&Vec<Value>>) -> (r: Value) {
        let samples = match amount {
            Some(a) => a,
            None => {
                return *self;
            },
        };
        let units = unsigned_forms(samples);
        let t = average_fixed(units.as_slice());
        proof {
            lemma_sum_bound(units@);
            assert(sum_of(units@) / units@.len() <= UNSIGNED_MAX as nat) by (nonlinear_arith)
                requires
                    sum_of(units@) <= units@.len() * (UNSIGNED_MAX as nat),
                    units@.len() > 0,
            ;
        }
        let n = self.to_u() as u128;
        let w = wire_value.to_u() as u128;
        let d = UNSIGNED_MAX as u128;
        let tt = t as u128;
        proof {
            lemma_blend_bound(n as nat, w as nat, tt as nat);
            assert(n * (d - tt) <= d * d) by (nonlinear_arith)
                requires
                    n <= d,
                    tt <= d,
            ;
            assert(w * tt <= d * d) by (nonlinear_arith)
                requires
                    w <= d,
                    tt <= d,
            ;
        }
        let mixed = (n * (d - tt) + w * tt) / d;
        Value::from_u(mixed as u32)
    }
}


/// A blend by `0` is exactly the natural value, and a blend by the largest coefficient is
/// exactly the target.
pub proof fn lemma_blend_ends(natural: nat, target: nat)
    requires
        natural <= UNSIGNED_MAX as nat,
        target <= UNSIGNED_MAX as nat,
    ensures
        blend(natural, target, 0) == natural,
        blend(natural, target, UNSIGNED_MAX as nat) == target,
{
    let d = UNSIGNED_MAX as nat;
    assert((natural * d + target * 0) / d == natural) by (nonlinear_arith)
        requires
            d > 0,
    ;
    assert((natural * 0 + target * d) / d == target) by (nonlinear_arith)
        requires
            d > 0,
    ;
}

/// A blend between the ends is the linear interpolation rounded down: it lies within one
/// unit below the exact value, and between the two values blended.
pub proof fn lemma_blend_between(natural: nat, target: nat, t: nat)
    requires
        natural <= UNSIGNED_MAX as nat,
        target <= UNSIGNED_MAX as nat,
        t <= UNSIGNED_MAX as nat,
    ensures
        blend(natural, target, t) * (UNSIGNED_MAX as nat) <= natural * ((UNSIGNED_MAX as nat - t) as nat) + target * t,
        natural * ((UNSIGNED_MAX as nat - t) as nat) + target * t < (blend(natural, target, t) + 1) * (UNSIGNED_MAX as nat),
        natural <= target ==> natural <= blend(natural, target, t) <= target,
        target <= natural ==> target <= blend(natural, target, t) <= natural,
{
    let d = UNSIGNED_MAX as nat;
    let e = natural * ((d - t) as nat) + target * t;
    let b = blend(natural, target, t);
    assert(b * d <= e < (b + 1) * d) by (nonlinear_arith)
        requires
            b == e / d,
            d > 0,
    ;
    if natural <= target {
        assert(natural * d <= e <= target * d) by (nonlinear_arith)
            requires
                e == natural * ((d - t) as nat) + target * t,
                natural <= target,
                t <= d,
        ;
        assert(natural <= b <= target) by (nonlinear_arith)
            requires
                natural * d <= e <= target * d,
                b * d <= e < (b + 1) * d,
                d > 0,
        ;
    } else {
        assert(target * d <= e <= natural * d) by (nonlinear_arith)
            requires
                e == natural * ((d - t) as nat) + target * t,
                target <= natural,
                t <= d,
        ;
        assert(target <= b <= natural) by (nonlinear_arith)
            requires
                target * d <= e <= natural * d,
                b * d <= e < (b + 1) * d,
                d > 0,
        ;
    }
}

/// A parameter modulated by an average of `0` keeps exactly its natural value; one
/// modulated by the largest average takes exactly the wire's value; one without
/// modulation keeps its natural value.
pub proof fn lemma_lerp_ends(natural: Value, wire_value: Value, amount: Seq<Value>)
    ensures
        modulation_of(amount) == 0 ==> lerp_spec(natural, wire_value, Some(amount)) == natural,
        modulation_of(amount) == UNSIGNED_MAX as nat ==> lerp_spec(natural, wire_value, Some(amount)) == wire_value,
        lerp_spec(natural, wire_value, None) == natural,
{
    lemma_blend_ends(natural.unsigned(), wire_value.unsigned());
}

} // verus!
