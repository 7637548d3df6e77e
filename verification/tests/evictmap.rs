use playground::evictmap::bucket::minheap::MinHeap;
use playground::evictmap::bucket::Bucket;
use playground::evictmap::EvictMap;

#[test]
fn scenario_1() {
    let mut map = EvictMap::default();
    assert_eq!(map.add("apibox"), 0);
    assert_eq!(map.add("apibox"), 1);
    assert_eq!(map.add("apibox"), 2);
    assert_eq!(map.add("sitebox"), 0);
    assert!(!map.remove(&"apibox", 3));
    assert!(map.remove(&"apibox", 1)); // remove 1 first
    assert!(map.remove(&"apibox", 0)); // then 0
    assert_eq!(map.add("apibox"), 0); // get back 0 first
    assert_eq!(map.add("apibox"), 1); // then 1
    println!("{map:#?}");
}

#[test]
fn scenario_2() {
    let mut map = EvictMap::default();
    for _ in 0..300 {
        map.add("");
    }
    for i in 40..120 {
        map.remove(&"", i);
    }
    for i in 40..120 {
        assert_eq!(map.add(""), i);
    }
}

#[test]
fn fresh_key_counts_from_zero() {
    let mut map = EvictMap::default();
    for expected in 0..50 {
        assert_eq!(map.add(String::from("host")), expected);
    }
}

#[test]
fn smallest_released_comes_back_first() {
    let mut map = EvictMap::default();
    for expected in 0..4 {
        assert_eq!(map.add(7u32), expected);
    }
    assert!(map.remove(&7, 2));
    assert!(map.remove(&7, 0));
    assert_eq!(map.add(7), 0);
    assert_eq!(map.add(7), 2);
    assert_eq!(map.add(7), 4);
}

#[test]
fn allocation_never_returns_a_slot_in_use() {
    let mut map = EvictMap::default();
    let mut in_use: Vec<usize> = Vec::new();
    // a fixed mix of allocations and releases
    let script = [1, 1, 1, 0, 1, 0, 0, 1, 1, 1, 0, 1, 0, 1, 1, 0, 0, 0, 1, 1];
    let mut turn = 0usize;
    for step in script {
        if step == 1 {
            let number = map.add('k');
            assert!(!in_use.contains(&number));
            let smallest_free = (0..).find(|n| !in_use.contains(n)).unwrap();
            assert_eq!(number, smallest_free);
            in_use.push(number);
        } else {
            let victim = in_use.remove(turn % in_use.len());
            assert!(map.remove(&'k', victim));
        }
        turn += 3;
    }
}

#[test]
fn release_of_unused_slot_is_refused_and_changes_nothing() {
    let mut map = EvictMap::default();
    assert_eq!(map.add(1u8), 0);
    assert_eq!(map.add(1u8), 1);
    assert!(!map.remove(&1, 2));
    assert!(!map.remove(&1, usize::MAX));
    assert_eq!(map.add(1u8), 2);
}

#[test]
fn release_for_unknown_key_is_refused() {
    let mut map: EvictMap<&str> = EvictMap::default();
    assert!(!map.remove(&"nobody", 0));
    assert_eq!(map.add("nobody"), 0);
}

#[test]
fn double_release_fails() {
    let mut map = EvictMap::default();
    assert_eq!(map.add("a"), 0);
    assert_eq!(map.add("a"), 1);
    assert!(map.remove(&"a", 1));
    assert!(!map.remove(&"a", 1));
    assert_eq!(map.add("a"), 1);
    assert!(map.remove(&"a", 1));
}

#[test]
fn keys_are_independent() {
    let mut map = EvictMap::default();
    assert_eq!(map.add("a"), 0);
    assert_eq!(map.add("a"), 1);
    assert_eq!(map.add("b"), 0);
    assert!(map.remove(&"a", 0));
    assert!(!map.remove(&"b", 1));
    assert_eq!(map.add("b"), 1);
    assert_eq!(map.add("a"), 0);
    assert_eq!(map.add("a"), 2);
}

#[test]
fn bucket_hands_out_smallest_free_slot() {
    let mut bucket = Bucket::default();
    assert_eq!(bucket.add_one(), 0);
    assert_eq!(bucket.add_one(), 1);
    assert_eq!(bucket.add_one(), 2);
    assert_eq!(bucket.remove(1), Some(()));
    assert_eq!(bucket.remove(0), Some(()));
    assert_eq!(bucket.remove(0), None);
    assert_eq!(bucket.remove(7), None);
    assert_eq!(bucket.add_one(), 0);
    assert_eq!(bucket.add_one(), 1);
    assert_eq!(bucket.add_one(), 3);
}

#[test]
fn heap_pops_in_ascending_order() {
    let mut heap = MinHeap::default();
    assert_eq!(heap.pop(), None);
    for value in [5usize, 3, 9, 1, 3, 8, 0, 7, 2, 6, 4] {
        heap.push(value);
    }
    let mut out = Vec::new();
    while let Some(value) = heap.pop() {
        out.push(value);
    }
    assert_eq!(out, vec![0, 1, 2, 3, 3, 4, 5, 6, 7, 8, 9]);
    assert_eq!(heap.pop(), None);
}
