use indexmap::IndexMap;
use playground::bag::bag::Bag;
use playground::bag::counter::Counter;
use playground::bag::treebag::Bag as TreeBag;

fn s(text: &str) -> String {
    text.to_string()
}

#[test]
fn test_insert_and_get() {
    let mut bag = Bag::default();
    bag.insert(1, s("a"));
    bag.insert(1, s("b"));
    bag.insert(2, s("c"));

    assert_eq!(bag.get(&1), Some(&vec![s("a"), s("b")]));
    assert_eq!(bag.get(&2), Some(&vec![s("c")]));
    assert_eq!(bag.get(&3), None);
}

#[test]
fn test_get_mut() {
    let mut bag = Bag::default();
    bag.insert(1, s("a"));
    bag.insert(1, s("b"));

    if let Some(values) = bag.get_mut(&1) {
        values.push(s("c"));
    }

    assert_eq!(bag.get(&1), Some(&vec![s("a"), s("b"), s("c")]));
}

#[test]
fn test_len_and_is_empty() {
    let mut bag = Bag::default();
    assert_eq!(bag.len(), 0);
    assert!(bag.is_empty());

    bag.insert(1, s("a"));
    assert_eq!(bag.len(), 1);
    assert!(!bag.is_empty());

    bag.insert(2, s("b"));
    assert_eq!(bag.len(), 2);
}

#[test]
fn test_as_inner() {
    let mut bag = Bag::default();
    bag.insert(1, s("a"));
    bag.insert(2, s("b"));

    let inner: &IndexMap<_, _> = bag.as_inner();
    assert_eq!(inner.len(), 2);
    assert_eq!(inner[&1], vec![s("a")]);
    assert_eq!(inner[&2], vec![s("b")]);
}

#[test]
fn test_into_inner() {
    let mut bag = Bag::default();
    bag.insert(1, s("a"));
    bag.insert(2, s("b"));

    let inner: IndexMap<_, _> = bag.into_inner();
    assert_eq!(inner.len(), 2);
    assert_eq!(inner[&1], vec![s("a")]);
    assert_eq!(inner[&2], vec![s("b")]);
}

#[test]
fn test_index() {
    let mut bag = Bag::default();
    bag.insert(1, s("a"));
    bag.insert(1, s("b"));

    assert_eq!(*bag.index(&1), vec![s("a"), s("b")]);
}

#[test]
fn test_from_iter() {
    let bag = Bag::from_pairs(vec![(1, s("a")), (1, s("b")), (2, s("c"))]);

    assert_eq!(bag.get(&1), Some(&vec![s("a"), s("b")]));
    assert_eq!(bag.get(&2), Some(&vec![s("c")]));
}

#[test]
fn test_extend() {
    let mut bag = Bag::default();
    bag.extend(vec![(1, s("a")), (1, s("b")), (2, s("c"))]);

    assert_eq!(bag.get(&1), Some(&vec![s("a"), s("b")]));
    assert_eq!(bag.get(&2), Some(&vec![s("c")]));
}

#[test]
fn bag_keeps_keys_in_the_order_of_their_first_item() {
    let bag = Bag::from_pairs(vec![
        (3, s("hello world")),
        (3, s("foobar")),
        (7, s("fizz")),
        (7, s("buzz")),
        (6, s("rust")),
        (3, s("again")),
    ]);
    let inner = bag.into_inner();
    let keys: Vec<i32> = inner.keys().copied().collect();
    assert_eq!(keys, vec![3, 7, 6]);
    assert_eq!(inner[&3], vec![s("hello world"), s("foobar"), s("again")]);
    assert_eq!(inner[&7], vec![s("fizz"), s("buzz")]);
    assert_eq!(inner[&6], vec![s("rust")]);
}

#[test]
fn tree_bag_gathers_items_by_key() {
    let mut bag = TreeBag::default();
    bag.insert("b", 1);
    bag.insert("a", 2);
    bag.insert("b", 3);
    bag.extend(vec![("c", 4), ("a", 5)]);
    let inner = bag.into_inner();
    let pairs: Vec<(&str, Vec<i32>)> = inner.into_iter().collect();
    assert_eq!(
        pairs,
        vec![("a", vec![2, 5]), ("b", vec![1, 3]), ("c", vec![4])]
    );
    let bag = TreeBag::from_pairs(vec![(2u8, 'x'), (1, 'y'), (2, 'z')]);
    let inner = bag.into_inner();
    assert_eq!(inner.get(&2), Some(&vec!['x', 'z']));
    assert_eq!(inner.get(&1), Some(&vec!['y']));
    assert_eq!(inner.len(), 2);
}

#[test]
fn counter_counts_each_value() {
    let counter = Counter::from_values("aaaaabbbbbffc".chars().collect());
    assert_eq!(counter.get(&'a'), 5);
    assert_eq!(counter.get(&'b'), 5);
    assert_eq!(counter.get(&'f'), 2);
    assert_eq!(counter.get(&'c'), 1);
    assert_eq!(counter.get(&'z'), 0);
    let mut counter = counter;
    counter.extend(vec!['z', 'a']);
    assert_eq!(counter.get(&'z'), 1);
    assert_eq!(counter.get(&'a'), 6);
    let empty: Counter<u8> = Counter::default();
    assert_eq!(empty.get(&0), 0);
}
