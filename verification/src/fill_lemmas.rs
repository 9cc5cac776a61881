//! What the water-filling keeps and what it reaches: it never hands out more
//! than there is, it uses all there is unless the growing slots or the rounds
//! run out first, it treats equal slots equally, and it leaves every slot
//! within its constraints.

use vstd::prelude::*;
use crate::fill::distributed;
use crate::fill::distribution_fits;
use crate::fill::least_size;
use crate::fill::lemma_least_size;
use crate::fill::lemma_round_is_defined;
use crate::fill::raise_fits;
use crate::fill::raised_all;
use crate::fill::round;
use crate::fill::round_limit;
use crate::fill::same_constraints;
use crate::fill::round_fits;
use crate::fill::settled;
use crate::fill::share_count;
use crate::fill::step_size;
use crate::fill::total_size;
use crate::fill::Slot;

verus! {

impl Slot {
    /// Whether the extent lies within the constraints.
    pub open spec fn within(self) -> bool {
        &&& self.min <= self.size
        &&& self.max matches Some(ceiling) ==> self.size <= ceiling
    }
}

/// How far two extents are apart.
pub open spec fn distance(a: int, b: int) -> int {
    if a <= b {
        b - a
    } else {
        a - b
    }
}

impl Slot {
    /// Whether the slot still grows or rests at its ceiling.
    pub open spec fn growing_or_capped(self) -> bool {
        self.grow || self.max == Some(self.size)
    }
}

/// How many of the `rounds` are left when the distribution comes to rest.
pub open spec fn rounds_left(slots: Seq<Slot>, space: int, rounds: nat) -> nat
    decreases rounds,
{
    if settled(slots, space, rounds) {
        rounds
    } else {
        rounds_left(round(slots, space), space, (rounds - 1) as nat)
    }
}

/// An advance adds to the sum of the extents no more than the step for each
/// slot that shares, where these are at or above their floors.
pub proof fn lemma_raise_adds_at_most(slots: Seq<Slot>, floor: Option<i32>, step: int)
    requires
        0 <= step,
        raise_fits(slots, floor, step),
        forall|i: int| 0 <= i < slots.len() && (#[trigger] slots[i]).sharing(floor) ==> slots[i].min <= slots[i].size,
    ensures
        total_size(raised_all(slots, floor, step)) <= total_size(slots) + share_count(slots, floor) * step,
    decreases slots.len(),
{
    if slots.len() > 0 {
        let front = slots.drop_last();
        let last = slots.last();
        assert(forall|i: int| 0 <= i < front.len() ==> front[i] == slots[i]);
        lemma_raise_adds_at_most(front, floor, step);
        assert(raised_all(slots, floor, step).drop_last() =~= raised_all(front, floor, step));
        assert(slots[slots.len() - 1] == last);
        if last.sharing(floor) {
            assert(last.advance_fits(step));
            assert(last.advanced(step).size <= last.size + step);
            assert((share_count(front, floor) + 1) * step == share_count(front, floor) * step + step)
                by (nonlinear_arith);
        }
    }
}

/// The step of a round is not negative, and all the slots that share it
/// together receive no more than the space that is left.
pub proof fn lemma_step_is_affordable(slots: Seq<Slot>, space: int)
    requires
        least_size(slots, None) is Some,
        space - total_size(slots) > 0,
    ensures
        0 <= step_size(slots, space),
        share_count(slots, least_size(slots, None)) * step_size(slots, space) <= space - total_size(slots),
{
    lemma_round_is_defined(slots);
    let count = share_count(slots, least_size(slots, None)) as int;
    let left = space - total_size(slots);
    let share = left / count;
    let step = step_size(slots, space);
    assert(0 <= share && count * share <= left) by (nonlinear_arith)
        requires
            share == left / count,
            count >= 1,
            left > 0,
    ;
    assert(0 <= step <= share);
    assert(count * step <= count * share) by (nonlinear_arith)
        requires
            0 <= step <= share,
            count >= 1,
    ;
}

/// A distribution keeps the number of the slots and the constraints of each,
/// and lets none grow that did not grow.
pub proof fn lemma_distribution_keeps_constraints(slots: Seq<Slot>, space: int, rounds: nat)
    ensures
        same_constraints(slots, distributed(slots, space, rounds)),
    decreases rounds,
{
    if !settled(slots, space, rounds) {
        lemma_distribution_keeps_constraints(round(slots, space), space, (rounds - 1) as nat);
    }
}

/// The distribution never hands out more than there is: where the slots leave
/// space at the start and every growing slot is at or above its floor, the sum
/// of the extents at the end is at most the space. It is exactly the space
/// where the distribution came to rest with a round to spare and a slot that
/// still grows.
pub proof fn lemma_distribution_conserves(slots: Seq<Slot>, space: int, rounds: nat)
    requires
        total_size(slots) <= space,
        distribution_fits(slots, space, rounds),
        forall|i: int| 0 <= i < slots.len() && (#[trigger] slots[i]).grow ==> slots[i].min <= slots[i].size,
    ensures
        total_size(distributed(slots, space, rounds)) <= space,
        rounds_left(slots, space, rounds) > 0 && least_size(distributed(slots, space, rounds), None) is Some
            ==> total_size(distributed(slots, space, rounds)) == space,
        forall|i: int|
            0 <= i < slots.len() && (#[trigger] distributed(slots, space, rounds)[i]).grow ==> distributed(
                slots,
                space,
                rounds,
            )[i].min <= distributed(slots, space, rounds)[i].size,
    decreases rounds,
{
    if !settled(slots, space, rounds) {
        let floor = least_size(slots, None);
        let step = step_size(slots, space);
        let next = round(slots, space);
        lemma_step_is_affordable(slots, space);
        lemma_raise_adds_at_most(slots, floor, step);
        assert forall|i: int| 0 <= i < next.len() && (#[trigger] next[i]).grow implies next[i].min <= next[i].size by {
            if slots[i].sharing(floor) {
                assert(slots[i].advance_fits(step));
            }
        }
        lemma_distribution_conserves(next, space, (rounds - 1) as nat);
        assert(distributed(slots, space, rounds) == distributed(next, space, (rounds - 1) as nat));
    }
}

/// Where exactly one slot shares, the count is one, and an advance that does
/// not take that slot to a ceiling adds exactly the step to the sum.
proof fn lemma_single_sharer(slots: Seq<Slot>, floor: Option<i32>, step: int, k: int)
    requires
        0 <= k < slots.len(),
        0 <= step,
        slots[k].sharing(floor),
        slots[k].max is None,
        slots[k].min <= slots[k].size,
        slots[k].advance_fits(step),
        forall|i: int| 0 <= i < slots.len() && i != k ==> !(#[trigger] slots[i]).sharing(floor),
    ensures
        share_count(slots, floor) == 1,
        total_size(raised_all(slots, floor, step)) == total_size(slots) + step,
    decreases slots.len(),
{
    let front = slots.drop_last();
    let last = slots.len() - 1;
    assert(forall|i: int| 0 <= i < front.len() ==> front[i] == slots[i]);
    assert(raised_all(slots, floor, step).drop_last() =~= raised_all(front, floor, step));
    assert(slots[last] == slots.last());
    if k == last {
        lemma_no_sharer(front, floor, step);
    } else {
        lemma_single_sharer(front, floor, step, k);
    }
}

/// Where no slot shares, the count is zero and an advance changes nothing.
proof fn lemma_no_sharer(slots: Seq<Slot>, floor: Option<i32>, step: int)
    requires
        forall|i: int| 0 <= i < slots.len() ==> !(#[trigger] slots[i]).sharing(floor),
    ensures
        share_count(slots, floor) == 0,
        raised_all(slots, floor, step) == slots,
    decreases slots.len(),
{
    assert(raised_all(slots, floor, step) =~= slots);
    if slots.len() > 0 {
        let front = slots.drop_last();
        assert(forall|i: int| 0 <= i < front.len() ==> front[i] == slots[i]);
        assert(slots[slots.len() - 1] == slots.last());
        lemma_no_sharer(front, floor, step);
    }
}

/// An only growing slot without a ceiling takes all that is left: where
/// exactly one slot grows, has no ceiling and is at or above its floor, and
/// the slots leave space at the start, the distribution adds all that space
/// to it and changes no other slot.
pub proof fn lemma_only_grower_takes_all(slots: Seq<Slot>, space: int, k: int)
    requires
        0 <= k < slots.len(),
        slots[k].grow,
        slots[k].max is None,
        slots[k].min <= slots[k].size,
        forall|i: int| 0 <= i < slots.len() && i != k ==> !(#[trigger] slots[i]).grow,
        total_size(slots) <= space,
        distribution_fits(slots, space, round_limit(slots)),
    ensures
        total_size(distributed(slots, space, round_limit(slots))) == space,
        distributed(slots, space, round_limit(slots))[k].size == slots[k].size + (space - total_size(slots)),
        forall|i: int|
            0 <= i < slots.len() && i != k ==> #[trigger] distributed(slots, space, round_limit(slots))[i]
                == slots[i],
{
    let rounds = round_limit(slots);
    lemma_single_sharer(slots, None, 0, k);
    assert(rounds == 2);
    if total_size(slots) < space {
        let floor = least_size(slots, None);
        lemma_least_size(slots, None);
        assert(slots[k].candidate(None));
        assert(floor == Some(slots[k].size)) by {
            let w = choose|i: int|
                0 <= i < slots.len() && (#[trigger] slots[i]).candidate(None) && slots[i].size == floor.unwrap();
            assert(w == k);
        }
        lemma_least_size(slots, floor);
        assert(least_size(slots, floor) is None) by {
            if least_size(slots, floor) is Some {
                let w = choose|i: int|
                    0 <= i < slots.len() && (#[trigger] slots[i]).candidate(floor) && slots[i].size == least_size(
                        slots,
                        floor,
                    ).unwrap();
                assert(w == k);
            }
        }
        let step = step_size(slots, space);
        assert(slots[k].sharing(floor));
        lemma_single_sharer(slots, floor, 0, k);
        assert(share_count(slots, floor) == 1);
        assert(step == (space - total_size(slots)) / 1);
        assert(step == space - total_size(slots));
        assert(slots[k].advance_fits(step));
        lemma_single_sharer(slots, floor, step, k);
        let next = round(slots, space);
        assert(total_size(next) == space);
        assert(settled(next, space, 1));
        assert(distributed(slots, space, rounds) == distributed(next, space, 1));
    }
}

/// Equal slots are treated equally: two slots that agree at the start agree at
/// the end.
pub proof fn lemma_equal_slots_stay_equal(slots: Seq<Slot>, space: int, rounds: nat, i: int, j: int)
    requires
        0 <= i < slots.len(),
        0 <= j < slots.len(),
        slots[i] == slots[j],
    ensures
        distributed(slots, space, rounds)[i] == distributed(slots, space, rounds)[j],
    decreases rounds,
{
    if !settled(slots, space, rounds) {
        lemma_equal_slots_stay_equal(round(slots, space), space, (rounds - 1) as nat, i, j);
    }
}

/// A round moves a slot that shares it up, and no further than to the next
/// larger growing slot.
proof fn lemma_round_raises(slots: Seq<Slot>, space: int, i: int)
    requires
        0 <= i < slots.len(),
        least_size(slots, None) is Some,
        space - total_size(slots) > 0,
        round_fits(slots, space),
        slots[i].within(),
        slots[i].grow,
    ensures
        slots[i].size <= round(slots, space)[i].size,
        round(slots, space)[i].within(),
        round(slots, space)[i].growing_or_capped(),
        forall|j: int|
            0 <= j < slots.len() && (#[trigger] slots[j]).grow && slots[i].size < slots[j].size ==> round(
                slots,
                space,
            )[i].size <= slots[j].size && round(slots, space)[j] == slots[j],
{
    let floor = least_size(slots, None);
    let step = step_size(slots, space);
    lemma_step_is_affordable(slots, space);
    lemma_least_size(slots, None);
    lemma_least_size(slots, floor);
    if slots[i].sharing(floor) {
        assert(slots[i].advance_fits(step));
        assert forall|j: int|
            0 <= j < slots.len() && (#[trigger] slots[j]).grow && slots[i].size < slots[j].size implies round(
            slots,
            space,
        )[i].size <= slots[j].size && round(slots, space)[j] == slots[j] by {
            assert(slots[j].candidate(floor));
        }
    } else {
        assert(slots[i].candidate(None));
    }
}

/// Like slots never drift apart: of two slots with the same constraints, both
/// within them and each growing or at its ceiling, the extents are no further
/// apart at the end than they were at the start.
pub proof fn lemma_like_slots_converge(slots: Seq<Slot>, space: int, rounds: nat, i: int, j: int)
    requires
        0 <= i < slots.len(),
        0 <= j < slots.len(),
        distribution_fits(slots, space, rounds),
        slots[i].min == slots[j].min,
        slots[i].max == slots[j].max,
        slots[i].within(),
        slots[j].within(),
        slots[i].growing_or_capped(),
        slots[j].growing_or_capped(),
    ensures
        distance(distributed(slots, space, rounds)[i].size as int, distributed(slots, space, rounds)[j].size as int)
            <= distance(slots[i].size as int, slots[j].size as int),
    decreases rounds,
{
    if !settled(slots, space, rounds) {
        let next = round(slots, space);
        if slots[i].grow {
            lemma_round_raises(slots, space, i);
        }
        if slots[j].grow {
            lemma_round_raises(slots, space, j);
        }
        assert(distance(next[i].size as int, next[j].size as int) <= distance(
            slots[i].size as int,
            slots[j].size as int,
        )) by {
            if slots[i].grow && slots[j].grow && slots[i].size == slots[j].size {
                assert(slots[i] == slots[j]);
                assert(next[i] == next[j]);
            }
        }
        lemma_like_slots_converge(next, space, (rounds - 1) as nat, i, j);
    }
}

/// The distribution leaves every slot within its constraints that was within
/// them at the start.
pub proof fn lemma_distribution_keeps_within(slots: Seq<Slot>, space: int, rounds: nat)
    requires
        distribution_fits(slots, space, rounds),
        forall|i: int| 0 <= i < slots.len() ==> (#[trigger] slots[i]).within(),
    ensures
        forall|i: int| 0 <= i < slots.len() ==> (#[trigger] distributed(slots, space, rounds)[i]).within(),
    decreases rounds,
{
    lemma_distribution_keeps_constraints(slots, space, rounds);
    if !settled(slots, space, rounds) {
        let floor = least_size(slots, None);
        let step = step_size(slots, space);
        let next = round(slots, space);
        assert forall|i: int| 0 <= i < next.len() implies (#[trigger] next[i]).within() by {
            assert(slots[i].within());
            if slots[i].sharing(floor) {
                assert(slots[i].advance_fits(step));
            }
        }
        lemma_distribution_keeps_within(next, space, (rounds - 1) as nat);
        assert(next.len() == slots.len());
        assert(distributed(slots, space, rounds) == distributed(next, space, (rounds - 1) as nat));
    }
}

} // verus!
