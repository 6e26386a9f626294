//! What a maker does over a whole run of calls.
//!
//! A run is described by the batch size and by `offers`, one path per call:
//! `offers[k]` is the path that call `k` generates if it has to generate one.
//! A call that shares the stored path never looks at its offer.

use vstd::prelude::*;
use vstd::arithmetic::div_mod::lemma_fundamental_div_mod;
use vstd::arithmetic::div_mod::lemma_fundamental_div_mod_converse;
use vstd::arithmetic::div_mod::lemma_mod_decreases;
use vstd::arithmetic::div_mod::lemma_mod_pos_bound;
use crate::formation::Formation;
use crate::maker::MakerState;

verus! {

/// The state of a maker that started in `start` and was called once for
/// each entry of `offers`.
pub open spec fn state_after(start: MakerState, batch_max: nat, offers: Seq<Formation>) -> MakerState
    decreases offers.len(),
{
    if offers.len() == 0 {
        start
    } else {
        state_after(start, batch_max, offers.drop_last()).step(batch_max, offers.last())
    }
}

/// The path that call `k` of such a run hands out.
pub open spec fn handed_out(start: MakerState, batch_max: nat, offers: Seq<Formation>, k: int) -> Formation
    recommends
        0 <= k < offers.len(),
{
    state_after(start, batch_max, offers.take(k)).hands_out(batch_max, offers[k])
}

/// How many calls of such a run generated a path instead of sharing one.
pub open spec fn generated(start: MakerState, batch_max: nat, offers: Seq<Formation>) -> nat
    decreases offers.len(),
{
    if offers.len() == 0 {
        0
    } else {
        let before = offers.drop_last();
        let earlier = generated(start, batch_max, before);
        if state_after(start, batch_max, before).reuses(batch_max) {
            earlier
        } else {
            earlier + 1
        }
    }
}

/// The call that opened the batch which call `k` belongs to, when every
/// batch is filled to `batch_max`.
pub open spec fn opening_call(k: int, batch_max: nat) -> int {
    k - k % (batch_max as int)
}

/// The number of batches that `n` calls begin: `n / batch_max`, rounded up.
pub open spec fn batches_begun(n: nat, batch_max: nat) -> int {
    (n + batch_max - 1) / (batch_max as int)
}

/// Counting on by one either raises the remainder by one or wraps it to
/// zero and raises the quotient.
proof fn lemma_next_remainder(p: int, m: int)
    requires
        0 <= p,
        1 <= m,
    ensures
        0 <= p % m < m,
        p % m <= p,
        p % m + 1 < m ==> (p + 1) % m == p % m + 1 && (p + 1) / m == p / m,
        p % m + 1 == m ==> (p + 1) % m == 0 && (p + 1) / m == p / m + 1,
{
    lemma_mod_pos_bound(p, m);
    lemma_mod_decreases(p as nat, m as nat);
    lemma_fundamental_div_mod(p, m);
    let q = p / m;
    let r = p % m;
    if r + 1 < m {
        assert(p + 1 == q * m + (r + 1)) by (nonlinear_arith)
            requires
                p == m * q + r,
        ;
        lemma_fundamental_div_mod_converse(p + 1, m, q, r + 1);
    } else {
        assert(p + 1 == (q + 1) * m + 0) by (nonlinear_arith)
            requires
                p == m * q + r,
                r + 1 == m,
        ;
        lemma_fundamental_div_mod_converse(p + 1, m, q + 1, 0);
    }
}

/// The quotient rounded up grows exactly where the remainder is zero.
proof fn lemma_next_ceiling(p: int, m: int)
    requires
        0 <= p,
        1 <= m,
    ensures
        p % m == 0 ==> (p + m) / m == (p + m - 1) / m + 1,
        p % m != 0 ==> (p + m) / m == (p + m - 1) / m,
{
    lemma_mod_pos_bound(p, m);
    lemma_fundamental_div_mod(p, m);
    let q = p / m;
    let r = p % m;
    assert(p + m == (q + 1) * m + r) by (nonlinear_arith)
        requires
            p == m * q + r,
    ;
    lemma_fundamental_div_mod_converse(p + m, m, q + 1, r);
    if r == 0 {
        assert(p + m - 1 == q * m + (m - 1)) by (nonlinear_arith)
            requires
                p == m * q + r,
                r == 0,
        ;
        lemma_fundamental_div_mod_converse(p + m - 1, m, q, m - 1);
    } else {
        assert(p + m - 1 == (q + 1) * m + (r - 1)) by (nonlinear_arith)
            requires
                p == m * q + r,
        ;
        lemma_fundamental_div_mod_converse(p + m - 1, m, q + 1, r - 1);
    }
}

/// Where a maker that started empty stands after a run.
///
/// After no call it is still empty. After `n > 0` calls it stores the path
/// generated by the call that opened the batch of the last call, and counts
/// the place of the last call in that batch: at least one and at most
/// `batch_max` members. The next call shares the stored path unless `n` is a
/// multiple of `batch_max`.
pub proof fn lemma_state_from_empty(batch_max: nat, offers: Seq<Formation>)
    requires
        batch_max >= 1,
    ensures
        offers.len() == 0 ==> state_after(MakerState::empty(), batch_max, offers)
            == MakerState::empty(),
        offers.len() > 0 ==> state_after(MakerState::empty(), batch_max, offers) == (MakerState {
            template: Some(offers[opening_call(offers.len() - 1, batch_max)]),
            members: ((offers.len() - 1) % (batch_max as int) + 1) as nat,
        }),
        offers.len() > 0 ==> 1 <= state_after(MakerState::empty(), batch_max, offers).members
            <= batch_max,
        state_after(MakerState::empty(), batch_max, offers).wf(),
        state_after(MakerState::empty(), batch_max, offers).reuses(batch_max) <==> (
        offers.len() as int) % (batch_max as int) != 0,
    decreases offers.len(),
{
    let m = batch_max as int;
    if offers.len() > 0 {
        let before = offers.drop_last();
        let last = offers.len() - 1;
        lemma_state_from_empty(batch_max, before);
        lemma_next_remainder(last, m);
        if last > 0 {
            lemma_next_remainder(last - 1, m);
            assert(before[opening_call(last - 1, batch_max)] == offers[opening_call(
                last - 1,
                batch_max,
            )]);
        } else {
            lemma_fundamental_div_mod_converse(0, m, 0, 0);
        }
    } else {
        lemma_fundamental_div_mod_converse(0, m, 0, 0);
    }
}

/// Call `k` of a run from the empty state hands out what the opening call
/// of its batch generated.
proof fn lemma_handed_out_from_empty(batch_max: nat, offers: Seq<Formation>, k: int)
    requires
        batch_max >= 1,
        0 <= k < offers.len(),
    ensures
        handed_out(MakerState::empty(), batch_max, offers, k) == offers[opening_call(k, batch_max)],
{
    let m = batch_max as int;
    let before = offers.take(k);
    lemma_state_from_empty(batch_max, before);
    if k > 0 {
        lemma_next_remainder(k - 1, m);
        assert(before[opening_call(k - 1, batch_max)] == offers[opening_call(k - 1, batch_max)]);
    }
}

/// A run of `n` calls from the empty state generates `n / batch_max` paths,
/// rounded up.
proof fn lemma_generated_from_empty(batch_max: nat, offers: Seq<Formation>)
    requires
        batch_max >= 1,
    ensures
        generated(MakerState::empty(), batch_max, offers) == batches_begun(offers.len(), batch_max),
    decreases offers.len(),
{
    let m = batch_max as int;
    if offers.len() == 0 {
        lemma_fundamental_div_mod_converse(m - 1, m, 0, m - 1);
    } else {
        let before = offers.drop_last();
        lemma_generated_from_empty(batch_max, before);
        lemma_state_from_empty(batch_max, before);
        lemma_next_ceiling(before.len() as int, m);
    }
}

/// Batches of a maker that starts empty, for any batch size of at least one.
///
/// Over `n` calls exactly `n / batch_max`, rounded up, paths are generated.
/// Call `k` hands out the path generated by the call that opened its batch,
/// which is call `k - k % batch_max`; so any two calls of one batch hand out
/// the same path, field for field.
pub proof fn lemma_batches_share_one_path(batch_max: nat, offers: Seq<Formation>)
    requires
        batch_max >= 1,
    ensures
        generated(MakerState::empty(), batch_max, offers) == batches_begun(offers.len(), batch_max),
        forall|k: int|
            0 <= k < offers.len() ==> #[trigger] handed_out(
                MakerState::empty(),
                batch_max,
                offers,
                k,
            ) == offers[opening_call(k, batch_max)],
        forall|i: int, j: int|
            0 <= i < offers.len() && 0 <= j < offers.len() && i / (batch_max as int) == j / (
            batch_max as int) ==> #[trigger] handed_out(MakerState::empty(), batch_max, offers, i)
                == #[trigger] handed_out(MakerState::empty(), batch_max, offers, j),
{
    let m = batch_max as int;
    let empty = MakerState::empty();
    lemma_generated_from_empty(batch_max, offers);
    assert forall|k: int| 0 <= k < offers.len() implies #[trigger] handed_out(
        empty,
        batch_max,
        offers,
        k,
    ) == offers[opening_call(k, batch_max)] by {
        lemma_handed_out_from_empty(batch_max, offers, k);
    }
    assert forall|i: int, j: int|
        0 <= i < offers.len() && 0 <= j < offers.len() && i / m == j / m implies #[trigger] handed_out(
        empty,
        batch_max,
        offers,
        i,
    ) == #[trigger] handed_out(empty, batch_max, offers, j) by {
        lemma_fundamental_div_mod(i, m);
        lemma_fundamental_div_mod(j, m);
        assert(opening_call(i, batch_max) == opening_call(j, batch_max));
    }
}

/// With a batch size of zero nothing is ever shared: from any state, every
/// call generates, and hands out what it generated.
pub proof fn lemma_batch_of_zero_never_shares(start: MakerState, offers: Seq<Formation>)
    ensures
        generated(start, 0, offers) == offers.len(),
        forall|k: int|
            0 <= k < offers.len() ==> #[trigger] handed_out(start, 0, offers, k) == offers[k],
    decreases offers.len(),
{
    if offers.len() > 0 {
        lemma_batch_of_zero_never_shares(start, offers.drop_last());
    }
}

} // verus!
