use std::cell::RefCell;

use salsa_generic::volatile::Resident;
use salsa_generic::{EvictionPolicy, Id, Volatile};

fn id(i: u32) -> Id {
    Id::from_index(i)
}

fn evict_all(policy: &mut Volatile) -> Vec<u32> {
    let evicted = RefCell::new(Vec::new());
    policy.for_each_evicted(|id| {
        evicted.borrow_mut().push(id.index());
        true
    });
    evicted.into_inner()
}

#[test]
fn zero_capacity_disables_eviction() {
    let mut policy = Volatile::new(0);
    assert!(!policy.record_insert(id(1)));
    assert!(!policy.record_insert(id(2)));
    assert_eq!(evict_all(&mut policy), Vec::<u32>::new());
}

#[test]
fn crossing_capacity_reports_an_eviction_point() {
    let mut policy = Volatile::new(2);
    assert!(!policy.record_insert(id(1)));
    assert!(!policy.record_insert(id(2)));
    assert!(policy.record_insert(id(3)));
}

#[test]
fn reinserting_a_resident_value_does_not_grow_the_policy() {
    let mut policy = Volatile::new(2);
    assert!(!policy.record_insert(id(1)));
    assert!(!policy.record_insert(id(2)));
    assert!(!policy.record_insert(id(1)));
    assert!(!policy.record_insert(id(2)));
}

#[test]
fn values_of_the_current_generation_are_kept() {
    let mut policy = Volatile::new(1);
    assert!(!policy.record_insert(id(1)));
    // The eviction point starts generation two; both values were inserted
    // in generation one, which is still kept.
    assert!(policy.record_insert(id(2)));
    assert_eq!(evict_all(&mut policy), Vec::<u32>::new());
}

#[test]
fn old_values_are_evicted_down_to_capacity_in_insertion_order() {
    let mut policy = Volatile::new(1);
    assert!(!policy.record_insert(id(1)));
    assert!(policy.record_insert(id(2))); // generation 2
    assert!(policy.record_insert(id(3))); // generation 3
    // Values inserted in generation one may go now; the pass stops once the
    // policy is back at its capacity.
    assert_eq!(evict_all(&mut policy), vec![1, 2]);
    assert_eq!(evict_all(&mut policy), Vec::<u32>::new());
}

#[test]
fn a_recent_read_protects_a_value() {
    let mut policy = Volatile::new(1);
    assert!(!policy.record_insert(id(1)));
    assert!(policy.record_insert(id(2))); // generation 2
    policy.record_use(id(1)); // read in generation 2
    assert!(policy.record_insert(id(3))); // generation 3
    assert_eq!(evict_all(&mut policy), vec![2]);
}

#[test]
fn refused_values_stay_resident() {
    let mut policy = Volatile::new(1);
    assert!(!policy.record_insert(id(1)));
    assert!(policy.record_insert(id(2)));
    assert!(policy.record_insert(id(3)));
    let offered = RefCell::new(Vec::new());
    policy.for_each_evicted(|id| {
        offered.borrow_mut().push(id.index());
        id.index() != 1
    });
    // Value 1 is refused and stays; value 2 goes, which reaches capacity.
    assert_eq!(offered.into_inner(), vec![1, 2]);
    assert_eq!(evict_all(&mut policy), vec![1]);
}

#[test]
fn setting_capacity_to_zero_forgets_every_value() {
    let mut policy = Volatile::new(1);
    assert!(!policy.record_insert(id(1)));
    assert!(policy.record_insert(id(2)));
    policy.set_capacity(0);
    assert_eq!(evict_all(&mut policy), Vec::<u32>::new());
    policy.set_capacity(1);
    assert!(!policy.record_insert(id(3)));
}

#[test]
fn volatile_retires_values() {
    assert!(<Volatile as EvictionPolicy>::retires_values());
}

#[test]
fn resident_entries_compare_by_fields() {
    let a = Resident { id: id(1), last_read: 2 };
    let b = Resident { id: id(1), last_read: 2 };
    assert_eq!(a, b);
}
