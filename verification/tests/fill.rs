use teacup::error::LayoutError;
use teacup::fill::water_fill;
use teacup::fill::Slot;

fn grower(size: i32) -> Slot {
    Slot { size, min: 0, max: None, grow: true }
}

fn capped(size: i32, max: i32) -> Slot {
    Slot { size, min: 0, max: Some(max), grow: true }
}

fn fixed(size: i32) -> Slot {
    Slot { size, min: 0, max: None, grow: false }
}

fn sizes(slots: &[Slot]) -> Vec<i32> {
    slots.iter().map(|slot| slot.size).collect()
}

#[test]
fn equal_growers_share_equally_and_leave_the_remainder() {
    let mut slots = vec![grower(0), grower(0), grower(0)];
    assert_eq!(water_fill(&mut slots, 800, 16, 16), Ok(()));
    assert_eq!(sizes(&slots), vec![245, 245, 245]);
    assert!(slots.iter().all(|slot| slot.grow));
}

#[test]
fn constrained_child_competes_in_three_hundred() {
    let mut slots = vec![capped(0, 200), grower(0)];
    assert_eq!(water_fill(&mut slots, 300, 0, 0), Ok(()));
    assert_eq!(sizes(&slots), vec![150, 150]);
    assert!(slots[0].size <= 200);
    assert_eq!(slots[0].size + slots[1].size, 300);
}

#[test]
fn constrained_child_stops_at_its_ceiling() {
    let mut slots = vec![capped(0, 200), grower(0)];
    assert_eq!(water_fill(&mut slots, 500, 0, 0), Ok(()));
    assert_eq!(sizes(&slots), vec![200, 300]);
    assert!(!slots[0].grow);
    assert!(slots[1].grow);
}

#[test]
fn smaller_grower_catches_up_first() {
    let mut slots = vec![Slot { size: 100, min: 100, max: Some(200), grow: true }, grower(0)];
    assert_eq!(water_fill(&mut slots, 300, 0, 0), Ok(()));
    assert_eq!(sizes(&slots), vec![150, 150]);
}

#[test]
fn smaller_grower_does_not_overtake_with_little_space() {
    let mut slots = vec![grower(100), grower(0)];
    assert_eq!(water_fill(&mut slots, 150, 0, 0), Ok(()));
    assert_eq!(sizes(&slots), vec![100, 50]);
}

#[test]
fn ceilings_are_reached_one_after_the_other() {
    let mut slots = vec![capped(0, 5), capped(0, 12), grower(0)];
    assert_eq!(water_fill(&mut slots, 30, 0, 0), Ok(()));
    assert_eq!(sizes(&slots), vec![5, 12, 13]);
    assert_eq!(slots.iter().map(|slot| slot.grow).collect::<Vec<_>>(), vec![false, false, true]);
}

#[test]
fn tiers_merge_before_the_space_is_shared() {
    let mut slots = vec![capped(0, 25), capped(10, 32), grower(20)];
    assert_eq!(water_fill(&mut slots, 81, 0, 0), Ok(()));
    assert_eq!(sizes(&slots), vec![25, 28, 28]);
}

#[test]
fn rounds_can_run_out_before_the_space_does() {
    let mut slots = vec![capped(0, 25), capped(10, 32), grower(20)];
    assert_eq!(water_fill(&mut slots, 90, 0, 0), Ok(()));
    assert_eq!(sizes(&slots), vec![25, 32, 32]);
    assert!(slots[2].grow);
}

#[test]
fn slot_above_its_ceiling_is_taken_down_to_it() {
    let mut slots = vec![capped(40, 30), grower(0)];
    assert_eq!(water_fill(&mut slots, 100, 0, 0), Ok(()));
    assert_eq!(sizes(&slots), vec![30, 70]);
}

#[test]
fn slot_below_its_floor_is_raised_to_it() {
    let mut slots = vec![fixed(10), Slot { size: 5, min: 20, max: None, grow: true }, grower(30)];
    assert_eq!(water_fill(&mut slots, 100, 5, 10), Ok(()));
    assert_eq!(sizes(&slots), vec![10, 30, 30]);
}

#[test]
fn padding_and_gaps_are_taken_off_the_space() {
    let mut slots = vec![grower(7)];
    assert_eq!(water_fill(&mut slots, 100, 10, 99), Ok(()));
    assert_eq!(sizes(&slots), vec![80]);
    let mut slots = vec![grower(0), fixed(10), fixed(10)];
    assert_eq!(water_fill(&mut slots, 100, 10, 5), Ok(()));
    assert_eq!(sizes(&slots), vec![50, 10, 10]);
}

#[test]
fn only_growing_slots_receive_space() {
    let mut slots = vec![grower(50), fixed(80)];
    assert_eq!(water_fill(&mut slots, 200, 0, 0), Ok(()));
    assert_eq!(sizes(&slots), vec![120, 80]);
}

#[test]
fn nothing_is_distributed_without_space() {
    let mut slots = vec![grower(50), fixed(80)];
    assert_eq!(water_fill(&mut slots, 100, 0, 0), Ok(()));
    assert_eq!(sizes(&slots), vec![50, 80]);
    let mut slots = vec![grower(60), grower(40)];
    assert_eq!(water_fill(&mut slots, 100, 0, 0), Ok(()));
    assert_eq!(sizes(&slots), vec![60, 40]);
}

#[test]
fn nothing_is_distributed_without_growers() {
    let mut slots = vec![fixed(10), fixed(20)];
    assert_eq!(water_fill(&mut slots, 1000, 0, 0), Ok(()));
    assert_eq!(sizes(&slots), vec![10, 20]);
}

#[test]
fn no_slots_is_no_work() {
    let mut slots: Vec<Slot> = Vec::new();
    assert_eq!(water_fill(&mut slots, 1000, 3, 4), Ok(()));
    assert!(slots.is_empty());
}

#[test]
fn all_capped_growers_leave_space_unused() {
    let mut slots = vec![capped(0, 10), capped(0, 20)];
    assert_eq!(water_fill(&mut slots, 100, 0, 0), Ok(()));
    assert_eq!(sizes(&slots), vec![10, 20]);
    assert!(slots.iter().all(|slot| !slot.grow));
}

#[test]
fn equal_slots_end_equal() {
    let mut slots = vec![capped(3, 90), fixed(11), capped(3, 90), grower(40)];
    assert_eq!(water_fill(&mut slots, 200, 2, 1), Ok(()));
    assert_eq!(slots[0], slots[2]);
}

#[test]
fn sum_never_exceeds_the_space() {
    let mut slots = vec![capped(1, 9), grower(5), grower(2), fixed(4)];
    assert_eq!(water_fill(&mut slots, 50, 3, 2), Ok(()));
    let total: i32 = sizes(&slots).iter().sum();
    assert!(total <= 50 - 6 - 6);
}

#[test]
fn extent_beyond_i32_is_an_overflow() {
    let mut slots = vec![Slot { size: -10, min: i32::MAX, max: None, grow: true }, fixed(i32::MIN)];
    assert_eq!(water_fill(&mut slots, i32::MAX, 0, 0), Err(LayoutError::Overflow));
}

#[test]
fn failed_distribution_keeps_the_constraints() {
    let mut slots = vec![capped(0, 10), Slot { size: 20, min: i32::MAX, max: None, grow: true }, fixed(i32::MIN)];
    assert_eq!(water_fill(&mut slots, i32::MAX, 0, 0), Err(LayoutError::Overflow));
    assert_eq!(slots.len(), 3);
    assert_eq!(slots.iter().map(|slot| (slot.min, slot.max)).collect::<Vec<_>>(), vec![
        (0, Some(10)),
        (i32::MAX, None),
        (0, None),
    ]);
    assert!(!slots[2].grow);
}

#[test]
fn ceiling_guards_against_overflow() {
    let mut slots = vec![Slot { size: -10, min: 0, max: Some(i32::MAX), grow: true }, fixed(i32::MIN)];
    assert_eq!(water_fill(&mut slots, i32::MAX, 0, 0), Ok(()));
    assert_eq!(sizes(&slots), vec![i32::MAX, i32::MIN]);
}
