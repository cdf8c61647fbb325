use urcu::hash_map::RcuHashMapAccessor;
use urcu::hashmap::RcuHashMap;

fn assert_sorted_eq(mut left: Vec<(u32, u32)>, mut right: Vec<(u32, u32)>) {
    left.sort();
    right.sort();
    assert_eq!(left, right);
}

#[test]
fn get() {
    let mut hashmap = RcuHashMap::<u32, u32>::new();

    assert_eq!(hashmap.get(&2367), None);
    assert_eq!(hashmap.get(&6068), None);
    assert_eq!(hashmap.get(&9823), None);
    assert_eq!(hashmap.get(&7038), None);
    assert_eq!(hashmap.get(&7321), None);
    assert_eq!(hashmap.get(&9810), None);

    hashmap.insert(2367, 9848);
    hashmap.insert(6068, 4733);
    hashmap.insert(9823, 4944);
    assert_eq!(hashmap.get(&2367), Some(&9848));
    assert_eq!(hashmap.get(&6068), Some(&4733));
    assert_eq!(hashmap.get(&9823), Some(&4944));
    assert_eq!(hashmap.get(&7038), None);
    assert_eq!(hashmap.get(&7321), None);
    assert_eq!(hashmap.get(&9810), None);

    hashmap.insert(7038, 6341);
    hashmap.insert(7321, 2556);
    hashmap.remove(&9823);
    assert_eq!(hashmap.get(&2367), Some(&9848));
    assert_eq!(hashmap.get(&6068), Some(&4733));
    assert_eq!(hashmap.get(&9823), None);
    assert_eq!(hashmap.get(&7038), Some(&6341));
    assert_eq!(hashmap.get(&7321), Some(&2556));
    assert_eq!(hashmap.get(&9810), None);

    hashmap.remove(&2367);
    hashmap.remove(&7038);
    hashmap.remove(&7321);
    hashmap.remove(&9823);
    hashmap.insert(9810, 7691);
    assert_eq!(hashmap.get(&2367), None);
    assert_eq!(hashmap.get(&6068), Some(&4733));
    assert_eq!(hashmap.get(&9823), None);
    assert_eq!(hashmap.get(&7038), None);
    assert_eq!(hashmap.get(&7321), None);
    assert_eq!(hashmap.get(&9810), Some(&7691));

    hashmap.remove(&7038);
    hashmap.remove(&6068);
    hashmap.remove(&9810);
    hashmap.remove(&9823);
    assert_eq!(hashmap.get(&2367), None);
    assert_eq!(hashmap.get(&6068), None);
    assert_eq!(hashmap.get(&9823), None);
    assert_eq!(hashmap.get(&7038), None);
    assert_eq!(hashmap.get(&7321), None);
    assert_eq!(hashmap.get(&9810), None);
}

#[test]
fn contains() {
    let mut hashmap = RcuHashMap::<u32, u32>::new();

    assert!(!hashmap.contains(&6847));
    assert!(!hashmap.contains(&6614));
    assert!(!hashmap.contains(&1330));
    assert!(!hashmap.contains(&5154));
    assert!(!hashmap.contains(&8996));

    hashmap.insert(6847, 6228);
    assert!(hashmap.contains(&6847));
    assert!(!hashmap.contains(&6614));
    assert!(!hashmap.contains(&1330));
    assert!(!hashmap.contains(&5154));
    assert!(!hashmap.contains(&8996));

    hashmap.insert(6614, 1920);
    hashmap.insert(1330, 2524);
    assert!(hashmap.contains(&6847));
    assert!(hashmap.contains(&6614));
    assert!(hashmap.contains(&1330));
    assert!(!hashmap.contains(&5154));
    assert!(!hashmap.contains(&8996));

    hashmap.insert(5154, 7117);
    hashmap.insert(8996, 5158);
    hashmap.remove(&6614);
    hashmap.remove(&6614);
    assert!(hashmap.contains(&6847));
    assert!(!hashmap.contains(&6614));
    assert!(hashmap.contains(&1330));
    assert!(hashmap.contains(&5154));
    assert!(hashmap.contains(&8996));

    hashmap.remove(&6847);
    hashmap.remove(&1330);
    hashmap.remove(&5154);
    hashmap.remove(&5154);
    hashmap.remove(&6847);
    hashmap.remove(&8996);
    assert!(!hashmap.contains(&6847));
    assert!(!hashmap.contains(&6614));
    assert!(!hashmap.contains(&1330));
    assert!(!hashmap.contains(&5154));
    assert!(!hashmap.contains(&8996));
}

#[test]
fn test_iter() {
    let mut hashmap = RcuHashMap::<u32, u32>::new();

    assert_sorted_eq(hashmap.iter().to_vec(), vec![]);

    hashmap.insert(5837, 4209);
    assert_sorted_eq(hashmap.iter().to_vec(), vec![(5837, 4209)]);

    hashmap.insert(6030, 9028);
    hashmap.insert(8423, 3333);
    assert_sorted_eq(
        hashmap.iter().to_vec(),
        vec![(5837, 4209), (6030, 9028), (8423, 3333)],
    );

    hashmap.remove(&99);
    assert_sorted_eq(
        hashmap.iter().to_vec(),
        vec![(5837, 4209), (6030, 9028), (8423, 3333)],
    );

    hashmap.remove(&6030);
    assert_sorted_eq(hashmap.iter().to_vec(), vec![(5837, 4209), (8423, 3333)]);

    hashmap.insert(8423, 3333);
    hashmap.insert(8423, 3333);
    assert_sorted_eq(hashmap.iter().to_vec(), vec![(5837, 4209), (8423, 3333)]);

    hashmap.remove(&5837);
    hashmap.remove(&8423);
    hashmap.remove(&8423);
    hashmap.remove(&8423);
    hashmap.remove(&5837);
    assert_sorted_eq(hashmap.iter().to_vec(), vec![]);
}

#[test]
fn hashmap_insert_and_remove_hand_back_entries() {
    let mut hashmap = RcuHashMap::<u32, u32>::new();
    assert!(hashmap.insert(1, 10).is_none());
    let replaced = hashmap.insert(1, 11).unwrap();
    assert_eq!((*replaced.key(), *replaced.value()), (1, 10));
    assert_eq!(hashmap.get(&1), Some(&11));
    assert!(hashmap.remove(&2).is_none());
    let removed = hashmap.remove(&1).unwrap().take_ownership();
    assert_eq!((*removed.key(), *removed.value()), (1, 11));
    assert_eq!(hashmap.get(&1), None);
}

#[test]
fn hashmap_iter_yields_each_entry_once() {
    let mut hashmap = RcuHashMap::<u32, u32>::new();
    for k in 0..20u32 {
        hashmap.insert(k, k * 2);
    }
    for k in 0..20u32 {
        if k % 3 == 0 {
            hashmap.remove(&k);
        }
    }
    let mut iter = hashmap.iter();
    let mut seen = Vec::new();
    while let Some((k, v)) = iter.next() {
        assert_eq!(*v, *k * 2);
        seen.push(*k);
    }
    seen.sort();
    let expected: Vec<u32> = (0..20u32).filter(|k| k % 3 != 0).collect();
    assert_eq!(seen, expected);
}

#[test]
fn accessor_reads_and_writes() {
    let mut hashmap = RcuHashMap::<u32, u32>::new();
    {
        let mut access: RcuHashMapAccessor<u32, u32> = hashmap.access();
        assert!(access.insert(4, 40).is_none());
        assert_eq!(access.get(&4), Some(&40));
        assert_eq!(*access.remove(&4).unwrap().value(), 40);
        assert_eq!(access.get(&4), None);
        access.insert(5, 50);
        assert_eq!(access.iter().to_vec(), vec![(5, 50)]);
    }
    assert_eq!(hashmap.get(&5), Some(&50));
}

#[test]
fn hashmap_with_string_keys() {
    let mut hashmap = RcuHashMap::<String, u32>::new();
    assert!(hashmap.insert("one".to_string(), 1).is_none());
    assert!(hashmap.insert("two".to_string(), 2).is_none());
    assert_eq!(hashmap.get(&"one".to_string()), Some(&1));
    assert_eq!(*hashmap.insert("one".to_string(), 11).unwrap().value(), 1);
    assert_eq!(hashmap.get(&"one".to_string()), Some(&11));
    assert!(hashmap.remove(&"two".to_string()).is_some());
    assert!(!hashmap.contains(&"two".to_string()));
}

#[test]
fn hashmap_empty_finds_nothing() {
    let hashmap = RcuHashMap::<String, u32>::new();
    assert_eq!(hashmap.get(&"x".to_string()), None);
    assert!(!hashmap.contains(&"x".to_string()));
    assert!(hashmap.iter().next().is_none());
}
