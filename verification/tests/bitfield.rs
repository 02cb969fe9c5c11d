use shanks::bitfield::BitField;

#[test]
fn new_keeps_the_mask() {
    assert_eq!(BitField::new(0b101).value(), 0b101);
    assert_eq!(u64::from(BitField::new(77)), 77);
    assert_eq!(BitField::from(77u64), BitField::new(77));
    assert_eq!(BitField::default(), BitField::new(0));
    assert_eq!(BitField::empty(), BitField::new(0));
}

#[test]
fn get_reads_single_bits() {
    let bf = BitField::new(0b1010);
    assert!(!bf.get(0));
    assert!(bf.get(1));
    assert!(!bf.get(2));
    assert!(bf.get(3));
    assert!(!bf.get(63));
    assert!(BitField::new(1 << 63).get(63));
}

#[test]
fn set_unset_toggle_change_one_bit() {
    let mut bf = BitField::new(0);
    bf.set(5);
    assert_eq!(bf.value(), 32);
    bf.set(5);
    assert_eq!(bf.value(), 32);
    bf.set(63);
    assert_eq!(bf.value(), 32 | (1 << 63));
    bf.unset(5);
    assert_eq!(bf.value(), 1 << 63);
    bf.unset(5);
    assert_eq!(bf.value(), 1 << 63);
    bf.toggle(0);
    assert_eq!(bf.value(), (1 << 63) | 1);
    bf.toggle(63);
    assert_eq!(bf.value(), 1);
}

#[test]
fn is_empty_and_count() {
    assert!(BitField::new(0).is_empty());
    assert!(!BitField::new(8).is_empty());
    assert_eq!(BitField::new(0).count(), 0);
    assert_eq!(BitField::new(0b1011).count(), 3);
    assert_eq!(BitField::new(u64::MAX).count(), 64);
}

#[test]
fn first_and_last() {
    assert_eq!(BitField::new(0).first(), None);
    assert_eq!(BitField::new(0).last(), None);
    assert_eq!(BitField::new(0b101000).first(), Some(3));
    assert_eq!(BitField::new(0b101000).last(), Some(5));
    assert_eq!(BitField::new(1).first(), Some(0));
    assert_eq!(BitField::new(1).last(), Some(0));
    assert_eq!(BitField::new(1 << 63).first(), Some(63));
    assert_eq!(BitField::new(u64::MAX).last(), Some(63));
}

#[test]
fn set_algebra() {
    let a = BitField::new(0b1100);
    let b = BitField::new(0b1010);
    assert_eq!(a.intersection(b), BitField::new(0b1000));
    assert_eq!(a.union(b), BitField::new(0b1110));
    assert_eq!(a.difference(b), BitField::new(0b0100));
    assert_eq!(b.difference(a), BitField::new(0b0010));
    assert_eq!(a.symmetric_difference(b), BitField::new(0b0110));
    assert_eq!(a & b, BitField::new(0b1000));
    assert_eq!(a | b, BitField::new(0b1110));
    assert_eq!(a ^ b, BitField::new(0b0110));
    assert_eq!(!a, BitField::new(!0b1100u64));
}

#[test]
fn subset_and_superset() {
    let small = BitField::new(0b0100);
    let large = BitField::new(0b1100);
    assert!(small.is_subset(large));
    assert!(!large.is_subset(small));
    assert!(large.is_superset(small));
    assert!(!small.is_superset(large));
    assert!(small.is_subset(small));
    assert!(small.is_superset(small));
    assert!(BitField::new(0).is_subset(small));
    assert!(!BitField::new(0b0011).is_subset(large));
}

#[test]
fn positions_are_ascending() {
    assert_eq!(BitField::new(0b1010).positions(), vec![1, 3]);
    assert_eq!(BitField::new(0).positions(), Vec::<u32>::new());
    assert_eq!(BitField::new((1 << 63) | 1).positions(), vec![0, 63]);
    let all: Vec<u32> = (0..64).collect();
    assert_eq!(BitField::new(u64::MAX).positions(), all);
}

#[test]
fn binary_text_has_64_digits() {
    assert_eq!(BitField::new(0).to_string(), "0".repeat(64));
    assert_eq!(BitField::new(5).to_string(), format!("{}101", "0".repeat(61)));
    assert_eq!(BitField::new(1 << 63).to_string(), format!("1{}", "0".repeat(63)));
}
