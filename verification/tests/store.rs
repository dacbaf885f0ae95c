use framework::store::Slab;

#[test]
fn insert_then_get_returns_item() {
    let mut slab: Slab<u32> = Slab::new();
    let a = slab.insert(10);
    let b = slab.insert(20);
    assert_eq!(slab.get(&a), Some(&10));
    assert_eq!(slab.get(&b), Some(&20));
}

#[test]
fn free_returns_item_and_empties_slot() {
    let mut slab: Slab<u32> = Slab::new();
    let a = slab.insert(10);
    let b = slab.insert(20);
    assert_eq!(slab.free(a), Some(10));
    assert_eq!(slab.get(&a), None);
    assert_eq!(slab.get(&b), Some(&20));
}

#[test]
fn double_free_returns_none() {
    let mut slab: Slab<u32> = Slab::new();
    let a = slab.insert(7);
    assert_eq!(slab.free(a), Some(7));
    assert_eq!(slab.free(a), None);
    assert_eq!(slab.get(&a), None);
}

#[test]
fn insert_reuses_most_recently_freed_slot() {
    let mut slab: Slab<u32> = Slab::new();
    let a = slab.insert(1);
    let b = slab.insert(2);
    let c = slab.insert(3);
    slab.free(a);
    slab.free(c);
    // the slot of `c` was freed last, so it is reused first
    let d = slab.insert(4);
    assert_eq!(slab.get(&c), Some(&4));
    assert_eq!(slab.get(&d), Some(&4));
    let e = slab.insert(5);
    assert_eq!(slab.get(&a), Some(&5));
    assert_eq!(slab.get(&e), Some(&5));
    assert_eq!(slab.get(&b), Some(&2));
    // no free slot is left: the next item gets a new slot
    let f = slab.insert(6);
    assert_eq!(slab.get(&f), Some(&6));
    assert_eq!(slab.get(&a), Some(&5));
}

#[test]
fn insert_then_free_roundtrip_restores_contents() {
    let mut slab: Slab<u32> = Slab::new();
    let a = slab.insert(1);
    let b = slab.insert(2);
    slab.free(a);
    let c = slab.insert(3);
    assert_eq!(slab.free(c), Some(3));
    assert_eq!(slab.get(&a), None);
    assert_eq!(slab.get(&b), Some(&2));
    let d = slab.insert(9);
    assert_eq!(slab.get(&a), Some(&9));
    assert_eq!(slab.get(&d), Some(&9));
}

#[test]
fn handle_past_the_end_reads_as_empty() {
    let mut big: Slab<u32> = Slab::new();
    big.insert(1);
    big.insert(2);
    let far = big.insert(3);
    let mut small: Slab<u32> = Slab::new();
    small.insert(5);
    assert_eq!(small.get(&far), None);
    assert_eq!(small.get_mut(far), None);
    assert_eq!(small.free(far), None);
}

#[test]
fn get_mut_writes_through() {
    let mut slab: Slab<u32> = Slab::new();
    let a = slab.insert(1);
    let b = slab.insert(2);
    if let Some(x) = slab.get_mut(a) {
        *x = 42;
    }
    assert_eq!(slab.get(&a), Some(&42));
    assert_eq!(slab.get(&b), Some(&2));
    slab.free(b);
    assert!(slab.get_mut(b).is_none());
}

#[test]
fn handle_clone_refers_to_same_slot() {
    let mut slab: Slab<u32> = Slab::new();
    let a = slab.insert(11);
    let copy = a.clone();
    assert_eq!(slab.get(&copy), Some(&11));
}
