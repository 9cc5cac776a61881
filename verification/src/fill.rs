//! Water-filling: the distribution of a container's leftover main-axis space
//! among its growing children, smallest first, in bounded rounds.
//!
//! The algorithm works on plain values, one [`Slot`] per child, so that it can
//! be stated and checked apart from the tree that it serves.

use vstd::prelude::*;
use rayon::iter::IntoParallelRefIterator;
use rayon::iter::ParallelIterator;
use crate::error::LayoutError;

verus! {

/// One child as the distribution sees it along the main axis.
#[derive(Debug, Clone, Copy, PartialEq, Eq)]
pub struct Slot {
    /// The current extent.
    pub size: i32,
    /// The floor below which a grown extent is never left.
    pub min: i32,
    /// The optional ceiling; a slot that reaches it stops growing.
    pub max: Option<i32>,
    /// Whether the slot still takes part in the distribution.
    pub grow: bool,
}

impl Slot {
    /// A growing slot; where `above` is given, one that lies above it.
    pub open spec fn candidate(self, above: Option<i32>) -> bool {
        self.grow && match above {
            Some(floor) => self.size > floor,
            None => true,
        }
    }

    /// A growing slot; where `at` is given, one whose extent is exactly that.
    pub open spec fn sharing(self, at: Option<i32>) -> bool {
        self.grow && match at {
            Some(floor) => self.size == floor,
            None => true,
        }
    }

    /// The extent after a growth of `step`, held to the floor `min`.
    pub open spec fn raised(self, step: int) -> int {
        let grown = self.size + step;
        if grown < self.min {
            self.min as int
        } else {
            grown
        }
    }

    /// Whether a growth of `step` takes the slot to its ceiling.
    pub open spec fn capped(self, step: int) -> bool {
        match self.max {
            Some(ceiling) => self.raised(step) >= ceiling,
            None => false,
        }
    }

    /// Whether the extent after a growth of `step` can be stored.
    pub open spec fn advance_fits(self, step: int) -> bool {
        self.capped(step) || self.raised(step) <= i32::MAX
    }

    /// The slot after a growth of `step`: raised, and where that reaches the
    /// ceiling, set to the ceiling and taken out of the distribution.
    pub open spec fn advanced(self, step: int) -> Slot {
        if self.capped(step) {
            Slot { size: self.max.unwrap(), grow: false, ..self }
        } else {
            Slot { size: self.raised(step) as i32, ..self }
        }
    }

    /// Whether the slot grows and, where `above` is given, lies above it.
    pub fn is_candidate(&self, above: Option<i32>) -> (b: bool)
        ensures
            b == self.candidate(above),
    {
        self.grow && match above {
            Some(floor) => self.size > floor,
            None => true,
        }
    }

    /// Whether the slot grows and, where `at` is given, has exactly that
    /// extent.
    pub fn is_sharing(&self, at: Option<i32>) -> (b: bool)
        ensures
            b == self.sharing(at),
    {
        self.grow && match at {
            Some(floor) => self.size == floor,
            None => true,
        }
    }

    /// Grows the slot by `step`. Fails, leaving the slot as it was, where the
    /// new extent cannot be stored.
    fn advance(&mut self, step: i128) -> (r: Result<(), LayoutError>)
        requires
            -0x1_0000_0000_0000_0000_0000_0000_0000 <= step <= 0x1_0000_0000_0000_0000_0000_0000_0000,
        ensures
            r is Ok <==> old(self).advance_fits(step as int),
            r is Ok ==> *final(self) == old(self).advanced(step as int),
            r is Err ==> *final(self) == *old(self),
    {
        let grown: i128 = self.size as i128 + step;
        let raised: i128 = if grown < self.min as i128 {
            self.min as i128
        } else {
            grown
        };
        match self.max {
            Some(ceiling) => {
                if raised >= ceiling as i128 {
                    self.size = ceiling;
                    self.grow = false;
                    return Ok(());
                }
            },
            None => {},
        }
        if raised > i32::MAX as i128 {
            return Err(LayoutError::Overflow);
        }
        self.size = raised as i32;
        Ok(())
    }
}

/// The sum of the extents.
pub open spec fn total_size(slots: Seq<Slot>) -> int
    decreases slots.len(),
{
    if slots.len() == 0 {
        0
    } else {
        total_size(slots.drop_last()) + slots.last().size
    }
}

/// The least extent among the candidates, if there is one.
pub open spec fn least_size(slots: Seq<Slot>, above: Option<i32>) -> Option<i32>
    decreases slots.len(),
{
    if slots.len() == 0 {
        None
    } else {
        let rest = least_size(slots.drop_last(), above);
        let last = slots.last();
        if !last.candidate(above) {
            rest
        } else {
            match rest {
                Some(least) => if least <= last.size {
                    Some(least)
                } else {
                    Some(last.size)
                },
                None => Some(last.size),
            }
        }
    }
}

/// The number of slots that share in a round.
pub open spec fn share_count(slots: Seq<Slot>, at: Option<i32>) -> nat
    decreases slots.len(),
{
    if slots.len() == 0 {
        0
    } else {
        share_count(slots.drop_last(), at) + if slots.last().sharing(at) {
            1nat
        } else {
            0nat
        }
    }
}

/// The main-axis space that a container of `count` children has for them:
/// its extent less the padding on both sides and the gaps between neighbours.
pub open spec fn available(extent: i32, padding: i32, gap: i32, count: nat) -> int {
    extent - 2 * padding - gap * (if count == 0 {
        0
    } else {
        count - 1
    })
}

/// What a round adds to each of the smallest growing slots: an equal share of
/// the space that is left, but no more than takes them to the next larger
/// growing slot.
pub open spec fn step_size(slots: Seq<Slot>, space: int) -> int {
    let floor = least_size(slots, None).unwrap();
    let share = (space - total_size(slots)) / (share_count(slots, Some(floor)) as int);
    match least_size(slots, Some(floor)) {
        Some(next) => if next - floor < share {
            next - floor
        } else {
            share
        },
        None => share,
    }
}

/// The slots with each one that shares at `floor` advanced by `step`.
pub open spec fn raised_all(slots: Seq<Slot>, floor: Option<i32>, step: int) -> Seq<Slot> {
    Seq::new(
        slots.len(),
        |i: int|
            if slots[i].sharing(floor) {
                slots[i].advanced(step)
            } else {
                slots[i]
            },
    )
}

/// Whether every extent that such an advance assigns can be stored.
pub open spec fn raise_fits(slots: Seq<Slot>, floor: Option<i32>, step: int) -> bool {
    forall|i: int|
        0 <= i < slots.len() && (#[trigger] slots[i]).sharing(floor) ==> slots[i].advance_fits(step)
}

/// One round: each of the smallest growing slots advances by the step.
pub open spec fn round(slots: Seq<Slot>, space: int) -> Seq<Slot> {
    raised_all(slots, least_size(slots, None), step_size(slots, space))
}

/// Whether every extent that a round assigns can be stored.
pub open spec fn round_fits(slots: Seq<Slot>, space: int) -> bool {
    raise_fits(slots, least_size(slots, None), step_size(slots, space))
}

/// Whether the distribution has come to rest: no round is left, no space is
/// left, or no slot grows any more.
pub open spec fn settled(slots: Seq<Slot>, space: int, rounds: nat) -> bool {
    rounds == 0 || space - total_size(slots) <= 0 || least_size(slots, None) is None
}

/// The slots after at most `rounds` rounds.
pub open spec fn distributed(slots: Seq<Slot>, space: int, rounds: nat) -> Seq<Slot>
    decreases rounds,
{
    if settled(slots, space, rounds) {
        slots
    } else {
        distributed(round(slots, space), space, (rounds - 1) as nat)
    }
}

/// Whether every extent assigned in the course of at most `rounds` rounds can
/// be stored.
pub open spec fn distribution_fits(slots: Seq<Slot>, space: int, rounds: nat) -> bool
    decreases rounds,
{
    settled(slots, space, rounds) || (round_fits(slots, space) && distribution_fits(
        round(slots, space),
        space,
        (rounds - 1) as nat,
    ))
}

/// The number of rounds that a distribution is given: one more than there are
/// growing slots at its start.
pub open spec fn round_limit(slots: Seq<Slot>) -> nat {
    share_count(slots, None) + 1
}

/// Whether `after` holds the slots of `before` with their constraints, none
/// growing that did not grow: all that a distribution keeps of every slot.
pub open spec fn same_constraints(before: Seq<Slot>, after: Seq<Slot>) -> bool {
    &&& after.len() == before.len()
    &&& forall|i: int|
        0 <= i < before.len() ==> {
            &&& (#[trigger] after[i]).min == before[i].min
            &&& after[i].max == before[i].max
            &&& after[i].grow ==> before[i].grow
        }
}

/// The slots of a container of the given extent, padding and gap after the
/// distribution of its leftover space.
pub open spec fn water_filled(slots: Seq<Slot>, extent: i32, padding: i32, gap: i32) -> Seq<Slot> {
    distributed(slots, available(extent, padding, gap, slots.len()), round_limit(slots))
}

/// Whether that distribution assigns only extents that can be stored.
pub open spec fn water_fill_fits(slots: Seq<Slot>, extent: i32, padding: i32, gap: i32) -> bool {
    distribution_fits(slots, available(extent, padding, gap, slots.len()), round_limit(slots))
}

/// The sum of the extents lies within what so many `i32` values can reach.
pub proof fn lemma_total_bounds(slots: Seq<Slot>)
    ensures
        -0x8000_0000 * slots.len() <= total_size(slots) <= 0x7fff_ffff * slots.len(),
    decreases slots.len(),
{
    if slots.len() > 0 {
        lemma_total_bounds(slots.drop_last());
    }
}

/// The least extent is that of a candidate, and no candidate lies below it;
/// there is none exactly where there is no candidate.
pub proof fn lemma_least_size(slots: Seq<Slot>, above: Option<i32>)
    ensures
        match least_size(slots, above) {
            Some(least) => {
                &&& exists|i: int| 0 <= i < slots.len() && (#[trigger] slots[i]).candidate(above) && slots[i].size == least
                &&& forall|i: int| 0 <= i < slots.len() && (#[trigger] slots[i]).candidate(above) ==> least <= slots[i].size
            },
            None => forall|i: int| 0 <= i < slots.len() ==> !(#[trigger] slots[i]).candidate(above),
        },
    decreases slots.len(),
{
    if slots.len() > 0 {
        let front = slots.drop_last();
        lemma_least_size(front, above);
        assert(forall|i: int| 0 <= i < front.len() ==> front[i] == slots[i]);
        match least_size(front, above) {
            Some(least) => {
                let w = choose|i: int| 0 <= i < front.len() && (#[trigger] front[i]).candidate(above) && front[i].size == least;
                assert(slots[w].candidate(above) && slots[w].size == least);
                let last = slots.len() - 1;
                assert(slots[last] == slots.last());
            },
            None => {
                let last = slots.len() - 1;
                assert(slots[last] == slots.last());
            },
        }
    }
}

/// No more slots share than there are, and a slot that shares is counted.
pub proof fn lemma_share_count(slots: Seq<Slot>, at: Option<i32>)
    ensures
        share_count(slots, at) <= slots.len(),
        (exists|i: int| 0 <= i < slots.len() && (#[trigger] slots[i]).sharing(at)) ==> share_count(slots, at) >= 1,
    decreases slots.len(),
{
    if slots.len() > 0 {
        let front = slots.drop_last();
        lemma_share_count(front, at);
        if exists|i: int| 0 <= i < slots.len() && (#[trigger] slots[i]).sharing(at) {
            let w = choose|i: int| 0 <= i < slots.len() && (#[trigger] slots[i]).sharing(at);
            if w < front.len() {
                assert(front[w].sharing(at));
            }
        }
    }
}

/// Where a slot grows, the smallest growing slots are at least one, and the
/// next larger growing slot, if there is one, lies strictly above them.
pub proof fn lemma_round_is_defined(slots: Seq<Slot>)
    requires
        least_size(slots, None) is Some,
    ensures
        1 <= share_count(slots, least_size(slots, None)) <= slots.len(),
        least_size(slots, least_size(slots, None)) matches Some(next) ==> next > least_size(slots, None).unwrap(),
{
    let floor = least_size(slots, None);
    lemma_least_size(slots, None);
    lemma_least_size(slots, floor);
    let w = choose|i: int| 0 <= i < slots.len() && (#[trigger] slots[i]).candidate(None) && slots[i].size == floor.unwrap();
    assert(slots[w].sharing(floor));
    lemma_share_count(slots, floor);
}

/// rayon's `par_iter`, `map` and `sum` over the extents, each widened to
/// `i128`: the sum of the extents, which so wide cannot overflow.
#[verifier::external_body]
fn par_total(slots: &Vec<Slot>) -> (total: i128)
    ensures
        total == total_size(slots@),
{
    slots.par_iter().map(|slot| slot.size as i128).sum()
}

/// rayon's `par_iter`, `filter`, `map` and `min` over the extents of the
/// candidates: the least of them, `None` where there is no candidate.
#[verifier::external_body]
fn par_least(slots: &Vec<Slot>, above: Option<i32>) -> (least: Option<i32>)
    ensures
        least == least_size(slots@, above),
{
    slots.par_iter().filter(|slot| slot.is_candidate(above)).map(|slot| slot.size).min()
}

/// rayon's `par_iter`, `filter` and `count` over the slots that share: how
/// many they are.
#[verifier::external_body]
fn par_count(slots: &Vec<Slot>, at: Option<i32>) -> (count: usize)
    ensures
        count == share_count(slots@, at),
{
    slots.par_iter().filter(|slot| slot.is_sharing(at)).count()
}

/// cgmath's `Zero::is_zero` on a number of rounds: whether none is left.
#[verifier::external_body]
fn is_zero(rounds: u128) -> (zero: bool)
    ensures
        zero == (rounds == 0),
{
    cgmath::Zero::is_zero(&rounds)
}

/// The space that a container has for `count` children, as [`available`]
/// states it.
fn compute_available(extent: i32, padding: i32, gap: i32, count: usize) -> (space: i128)
    ensures
        space == available(extent, padding, gap, count as nat),
        -0x2_0000_0000_0000_0000_0000_0000 <= space <= 0x2_0000_0000_0000_0000_0000_0000,
{
    let gaps: usize = if count == 0 {
        0
    } else {
        count - 1
    };
    assert(-0x8000_0000_0000_0000_0000_0000 <= (gap as int) * (gaps as int) <= 0x8000_0000_0000_0000_0000_0000)
        by (nonlinear_arith)
        requires
            -0x8000_0000 <= gap <= 0x7fff_ffff,
            0 <= gaps <= 0xffff_ffff_ffff_ffff,
    ;
    extent as i128 - 2 * (padding as i128) - (gap as i128) * (gaps as i128)
}

/// Distributes the leftover main-axis space of a container among the growing
/// slots: round after round the smallest of them receive an equal share, no
/// more than takes them to the next larger one, and a slot that reaches its
/// ceiling leaves the distribution. It ends when no space, no growing slot or
/// no round is left.
///
/// Fails exactly where an extent that a round assigns does not fit in an
/// `i32`; the slots are then left partly advanced. Either way each slot keeps
/// its constraints, and none grows that did not grow.
pub fn water_fill(slots: &mut Vec<Slot>, extent: i32, padding: i32, gap: i32) -> (r: Result<
    (),
    LayoutError,
>)
    ensures
        r is Ok <==> water_fill_fits(old(slots)@, extent, padding, gap),
        r is Ok ==> final(slots)@ == water_filled(old(slots)@, extent, padding, gap),
        same_constraints(old(slots)@, final(slots)@),
{
    let ghost start = slots@;
    let n = slots.len();
    let space = compute_available(extent, padding, gap, n);
    let growing = par_count(slots, None);
    proof {
        lemma_share_count(start, None);
    }
    let mut rounds: u128 = growing as u128 + 1;
    let mut total = par_total(slots);
    let mut floor = par_least(slots, None);
    proof {
        lemma_total_bounds(slots@);
    }
    while space - total > 0 && floor.is_some() && !is_zero(rounds)
        invariant
            n == slots@.len(),
            start == old(slots)@,
            n == start.len(),
            space == available(extent, padding, gap, n as nat),
            total == total_size(slots@),
            floor == least_size(slots@, None),
            same_constraints(start, slots@),
            -0x8000_0000 * n <= total <= 0x7fff_ffff * n,
            -0x2_0000_0000_0000_0000_0000_0000 <= space <= 0x2_0000_0000_0000_0000_0000_0000,
            distributed(start, space as int, round_limit(start)) == distributed(slots@, space as int, rounds as nat),
            distribution_fits(start, space as int, round_limit(start)) == distribution_fits(
                slots@,
                space as int,
                rounds as nat,
            ),
        decreases rounds,
    {
        let ghost before = slots@;
        let low = floor.unwrap();
        let sharers = par_count(slots, floor);
        let next = par_least(slots, floor);
        proof {
            lemma_round_is_defined(before);
        }
        let left: u128 = (space - total) as u128;
        let share: u128 = left / (sharers as u128);
        let step: i128 = match next {
            Some(above) => {
                let reach: i128 = above as i128 - low as i128;
                if reach < share as i128 {
                    reach
                } else {
                    share as i128
                }
            },
            None => share as i128,
        };
        assert(step == step_size(before, space as int));
        let mut i: usize = 0;
        while i < n
            invariant
                i <= n,
                n == slots@.len(),
                n == before.len(),
                start == old(slots)@,
                n == start.len(),
                space == available(extent, padding, gap, n as nat),
                floor == least_size(before, None),
                step == step_size(before, space as int),
                same_constraints(start, before),
                0 <= step <= 0x4_0000_0000_0000_0000_0000_0000,
                !settled(before, space as int, rounds as nat),
                distribution_fits(start, space as int, round_limit(start)) == distribution_fits(
                    before,
                    space as int,
                    rounds as nat,
                ),
                forall|j: int| 0 <= j < i ==> slots@[j] == round(before, space as int)[j],
                forall|j: int| i <= j < n ==> slots@[j] == before[j],
                forall|j: int| 0 <= j < i && (#[trigger] before[j]).sharing(floor) ==> before[j].advance_fits(step as int),
            decreases n - i,
        {
            assert(slots@[i as int] == before[i as int]);
            if slots[i].is_sharing(floor) {
                match slots[i].advance(step) {
                    Ok(()) => {},
                    Err(e) => {
                        proof {
                            assert(before[i as int].sharing(floor) && !before[i as int].advance_fits(step as int));
                            assert forall|j: int| 0 <= j < n implies {
                                &&& (#[trigger] slots@[j]).min == start[j].min
                                &&& slots@[j].max == start[j].max
                                &&& slots@[j].grow ==> start[j].grow
                            } by {
                                if j < i {
                                    assert(slots@[j] == round(before, space as int)[j]);
                                }
                            }
                        }
                        return Err(e);
                    },
                }
            }
            i += 1;
        }
        assert(slots@ =~= round(before, space as int));
        assert(round_fits(before, space as int));
        rounds = rounds - 1;
        total = par_total(slots);
        floor = par_least(slots, None);
        proof {
            lemma_total_bounds(slots@);
        }
    }
    Ok(())
}

} // verus!
