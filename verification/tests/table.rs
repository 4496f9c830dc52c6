use hashmap::{Entry, HashMap, Key, BUCKETS};

fn chain_of(ht: &HashMap<i32, i32>, index: usize) -> Vec<(i32, i32)> {
    let entry: &Entry<i32, i32> = ht.bucket(index).unwrap();
    let mut out = Vec::new();
    let mut it = entry.iter();
    while let Some(pair) = it.next() {
        out.push(*pair);
    }
    out
}

fn all_pairs(ht: &HashMap<i32, i32>) -> Vec<(i32, i32)> {
    let mut out = Vec::new();
    for index in 0..BUCKETS {
        out.extend(chain_of(ht, index));
    }
    out
}

fn bucket_of<K: Key + Clone>(key: K) -> usize {
    HashMap::<K, ()>::get_entry(&key)
}

#[test]
fn new_table_has_256_empty_buckets() {
    assert_eq!(BUCKETS, 256);
    let ht: HashMap<i32, i32> = HashMap::new();
    for index in 0..BUCKETS {
        assert!(chain_of(&ht, index).is_empty());
    }
    assert!(ht.bucket(BUCKETS).is_none());
    assert!(ht.bucket(usize::MAX).is_none());
}

#[test]
fn insert_then_get() {
    let mut ht = HashMap::new();
    assert_eq!(ht.insert(1, 42), None);
    assert_eq!(ht.get(&1), Some(&42));
}

#[test]
fn second_key_does_not_disturb_the_first() {
    let mut ht = HashMap::new();
    assert_eq!(ht.insert(1, 42), None);
    assert_eq!(ht.insert(288, 666), None);
    assert_eq!(ht.get(&288), Some(&666));
    assert_eq!(ht.get(&1), Some(&42));
}

#[test]
fn insert_over_a_key_returns_the_old_value() {
    let mut ht = HashMap::new();
    assert_eq!(ht.insert(1, 42), None);
    assert_eq!(ht.insert(288, 666), None);
    assert_eq!(ht.insert(1, 99), Some(42));
    assert_eq!(ht.get(&1), Some(&99));
    assert_eq!(ht.get(&288), Some(&666));
}

#[test]
fn get_of_a_key_never_inserted_is_none() {
    let mut ht = HashMap::new();
    assert_eq!(ht.get(&7), None);
    ht.insert(1, 42);
    ht.insert(288, 666);
    assert_eq!(ht.get(&7), None);
    assert_eq!(ht.get(&575), None);
}

#[test]
fn three_hundred_keys_keep_their_values() {
    let mut ht = HashMap::new();
    for i in 0..300 {
        assert_eq!(ht.insert(i, i * 7 + 1), None);
    }
    for i in 0..300 {
        assert_eq!(ht.get(&i), Some(&(i * 7 + 1)));
    }
    assert_eq!(ht.get(&300), None);
    assert_eq!(ht.get(&-1), None);
    assert_eq!(all_pairs(&ht).len(), 300);
}

#[test]
fn round_trip_for_many_keys_and_values() {
    let mut ht = HashMap::new();
    for k in [i32::MIN, -1000, -1, 0, 1, 255, 256, 65536, i32::MAX] {
        for v in [0, -5, 17] {
            ht.insert(k, v);
            assert_eq!(ht.get(&k), Some(&v));
        }
    }
}

#[test]
fn overwrite_keeps_one_pair_for_the_key() {
    let mut ht = HashMap::new();
    assert_eq!(ht.insert(5, 1), None);
    assert_eq!(ht.insert(5, 2), Some(1));
    assert_eq!(ht.get(&5), Some(&2));
    assert_eq!(all_pairs(&ht), vec![(5, 2)]);
    assert_eq!(ht.insert(5, 3), Some(2));
    assert_eq!(all_pairs(&ht), vec![(5, 3)]);
}

#[test]
fn bucket_index_is_the_hash_modulo_256() {
    assert_eq!(bucket_of(1i32), 6381476838 % 256);
    assert_eq!(bucket_of(1i32), 230);
    assert_eq!(bucket_of(288i32), 230);
    assert_eq!(bucket_of(7i32), 44);
    assert_eq!(bucket_of(-1i32), 193);
    assert_eq!(bucket_of(i32::MIN), 5);
    assert_eq!(bucket_of(7u8), 172);
    assert_eq!(bucket_of(0x1234u16), 11);
    assert_eq!(bucket_of(0xdeadbeefu32), 125);
    assert_eq!(bucket_of(0x0123456789abcdefu64), 69);
    assert_eq!(bucket_of(-1i8), 164);
    assert_eq!(bucket_of(-2i16), 2);
    assert_eq!(bucket_of(i64::MIN), 133);
    assert_eq!(bucket_of(u128::MAX), 245);
    assert_eq!(bucket_of(i128::MIN), 133);
    assert_eq!(bucket_of(300usize), 114);
    assert_eq!(bucket_of(-300isize), 241);
}

#[test]
fn bucket_index_is_the_same_on_every_call() {
    for k in -500..500 {
        let first = bucket_of(k);
        assert!(first < BUCKETS);
        assert_eq!(bucket_of(k), first);
        assert_eq!(bucket_of(k), first);
    }
}

#[test]
fn bucket_index_does_not_depend_on_the_table() {
    let mut ht = HashMap::new();
    let before = HashMap::<i32, i32>::get_entry(&1);
    ht.insert(1, 1);
    ht.insert(2, 2);
    assert_eq!(HashMap::<i32, i32>::get_entry(&1), before);
    assert_eq!(HashMap::<i32, String>::get_entry(&1), before);
}

#[test]
fn keys_of_one_bucket_grow_its_chain_by_one_each() {
    let keys = [1, 288, 575, 862, 1149, 1436, 1723];
    let mut ht = HashMap::new();
    for (n, k) in keys.iter().enumerate() {
        assert_eq!(bucket_of(*k), 230);
        assert_eq!(chain_of(&ht, 230).len(), n);
        assert_eq!(ht.insert(*k, k * 2), None);
        assert_eq!(chain_of(&ht, 230).len(), n + 1);
    }
    assert_eq!(
        chain_of(&ht, 230),
        vec![(1723, 3446), (1436, 2872), (1149, 2298), (862, 1724), (575, 1150), (288, 576), (1, 2)]
    );
    assert_eq!(all_pairs(&ht).len(), keys.len());
    for k in keys {
        assert_eq!(ht.get(&k), Some(&(k * 2)));
    }
}

#[test]
fn a_new_pair_goes_in_front_of_the_chain() {
    let mut ht = HashMap::new();
    ht.insert(1, 10);
    ht.insert(288, 20);
    assert_eq!(chain_of(&ht, 230), vec![(288, 20), (1, 10)]);
}

#[test]
fn overwrite_in_a_chain_keeps_the_order_of_the_chain() {
    let mut ht = HashMap::new();
    ht.insert(1, 10);
    ht.insert(288, 20);
    ht.insert(575, 30);
    assert_eq!(ht.insert(288, 21), Some(20));
    assert_eq!(ht.insert(1, 11), Some(10));
    assert_eq!(chain_of(&ht, 230), vec![(575, 30), (288, 21), (1, 11)]);
}

#[test]
fn no_chain_holds_a_key_twice() {
    let mut ht = HashMap::new();
    let mut distinct = Vec::new();
    for round in 0..4 {
        for k in (0..600).step_by(round + 1) {
            ht.insert(k, k + round as i32);
            if !distinct.contains(&k) {
                distinct.push(k);
            }
        }
    }
    let mut total = 0;
    for index in 0..BUCKETS {
        let chain = chain_of(&ht, index);
        for (i, (k, _)) in chain.iter().enumerate() {
            assert_eq!(bucket_of(*k), index);
            for (other, _) in &chain[i + 1..] {
                assert_ne!(k, other);
            }
        }
        total += chain.len();
    }
    assert_eq!(total, distinct.len());
}

#[test]
fn the_last_value_stored_under_a_key_is_the_one_found() {
    let mut ht = HashMap::new();
    for round in 0..3 {
        for k in 0..50 {
            ht.insert(k, k * 100 + round);
        }
    }
    for k in 0..50 {
        assert_eq!(ht.get(&k), Some(&(k * 100 + 2)));
    }
}

#[test]
fn get_mut_writes_the_stored_value() {
    let mut ht = HashMap::new();
    ht.insert(1, 42);
    ht.insert(288, 666);
    *ht.get_mut(&1).unwrap() += 1;
    assert_eq!(ht.get(&1), Some(&43));
    assert_eq!(ht.get(&288), Some(&666));
    assert_eq!(chain_of(&ht, 230), vec![(288, 666), (1, 43)]);
}

#[test]
fn get_mut_of_a_missing_key_is_none() {
    let mut ht: HashMap<i32, i32> = HashMap::new();
    assert!(ht.get_mut(&1).is_none());
    ht.insert(1, 42);
    assert!(ht.get_mut(&288).is_none());
    assert!(ht.get_mut(&2).is_none());
    assert_eq!(all_pairs(&ht), vec![(1, 42)]);
}

#[test]
fn get_mut_returns_the_value_of_the_key() {
    let mut ht = HashMap::new();
    ht.insert(1, 42);
    ht.insert(288, 666);
    assert_eq!(ht.get_mut(&1), Some(&mut 42));
    assert_eq!(ht.get_mut(&288), Some(&mut 666));
}

#[test]
fn values_need_not_be_numbers() {
    let mut ht: HashMap<u64, String> = HashMap::new();
    assert_eq!(ht.insert(10, String::from("ten")), None);
    assert_eq!(ht.insert(11, String::from("eleven")), None);
    assert_eq!(ht.insert(10, String::from("TEN")), Some(String::from("ten")));
    ht.get_mut(&11).unwrap().push('!');
    assert_eq!(ht.get(&10).map(|s| s.as_str()), Some("TEN"));
    assert_eq!(ht.get(&11).map(|s| s.as_str()), Some("eleven!"));
    assert_eq!(ht.get(&12), None);
}

#[test]
fn keys_of_every_integer_type() {
    let mut a: HashMap<u8, u8> = HashMap::new();
    for k in 0..=255u8 {
        assert_eq!(a.insert(k, 255 - k), None);
    }
    for k in 0..=255u8 {
        assert_eq!(a.get(&k), Some(&(255 - k)));
    }
    let mut b: HashMap<i8, i8> = HashMap::new();
    b.insert(-128, 1);
    b.insert(127, 2);
    assert_eq!(b.get(&-128), Some(&1));
    assert_eq!(b.get(&127), Some(&2));
    let mut c: HashMap<u16, u16> = HashMap::new();
    c.insert(u16::MAX, 1);
    assert_eq!(c.get(&u16::MAX), Some(&1));
    assert_eq!(c.get(&0), None);
    let mut d: HashMap<i16, i16> = HashMap::new();
    d.insert(-1, 1);
    assert_eq!(d.get(&-1), Some(&1));
    let mut e: HashMap<u32, u32> = HashMap::new();
    e.insert(u32::MAX, 1);
    assert_eq!(e.get(&u32::MAX), Some(&1));
    let mut f: HashMap<i64, i64> = HashMap::new();
    f.insert(i64::MIN, 1);
    f.insert(i64::MAX, 2);
    assert_eq!(f.get(&i64::MIN), Some(&1));
    assert_eq!(f.get(&i64::MAX), Some(&2));
    let mut g: HashMap<u64, u64> = HashMap::new();
    g.insert(u64::MAX, 1);
    assert_eq!(g.get(&u64::MAX), Some(&1));
    assert_eq!(g.get(&(u64::MAX - 1)), None);
    let mut h: HashMap<usize, usize> = HashMap::new();
    for k in 0..1000usize {
        h.insert(k, k + 1);
    }
    for k in 0..1000usize {
        assert_eq!(h.get(&k), Some(&(k + 1)));
    }
    let mut i: HashMap<isize, isize> = HashMap::new();
    i.insert(-1, 1);
    assert_eq!(i.get(&-1), Some(&1));
    assert_eq!(i.get(&1), None);
    let mut j: HashMap<u128, u128> = HashMap::new();
    j.insert(1 << 100, 1);
    assert_eq!(j.get(&(1 << 100)), Some(&1));
    assert_eq!(j.get(&0), None);
    let mut k: HashMap<i128, i128> = HashMap::new();
    k.insert(i128::MIN, 1);
    assert_eq!(k.get(&i128::MIN), Some(&1));
    assert_eq!(k.get(&i128::MAX), None);
}

#[test]
fn one_byte_keys_spread_over_the_buckets() {
    let mut ht: HashMap<u8, ()> = HashMap::new();
    for k in 0..=255u8 {
        ht.insert(k, ());
    }
    let mut seen = [false; 256];
    for k in 0..=255u8 {
        seen[bucket_of(k)] = true;
    }
    assert!(seen.iter().all(|s| *s));
}

#[test]
fn the_scripted_run_ends() {
    hashmap::test();
}
