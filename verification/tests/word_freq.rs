use playground::word_freq::counter::{bump, SortedCounter};

fn words(text: &str) -> Vec<String> {
    text.split(' ').map(String::from).collect()
}

#[test]
fn words_come_out_by_their_counts() {
    let counter = SortedCounter::from_values(words("b a c a b a d d d d"));
    let sorted = counter.into_sorted();
    assert_eq!(
        sorted,
        vec![
            ("d".to_string(), 4),
            ("a".to_string(), 3),
            ("b".to_string(), 2),
            ("c".to_string(), 1),
        ]
    );
}

#[test]
fn every_word_is_counted_once_per_occurrence() {
    let counter = SortedCounter::from_values(words("x y x z x y"));
    assert_eq!(counter.0.get_priority("x"), Some(&3));
    assert_eq!(counter.0.get_priority("y"), Some(&2));
    assert_eq!(counter.0.get_priority("z"), Some(&1));
    assert_eq!(counter.0.get_priority("w"), None);
    assert_eq!(counter.0.len(), 3);
}

#[test]
fn words_of_one_count_all_come_out() {
    let counter = SortedCounter::from_values(words("p q r q p r s"));
    let sorted = counter.into_sorted();
    let counts: Vec<usize> = sorted.iter().map(|pair| pair.1).collect();
    assert_eq!(counts, vec![2, 2, 2, 1]);
    let mut twice: Vec<&str> = sorted[..3].iter().map(|pair| pair.0.as_str()).collect();
    twice.sort();
    assert_eq!(twice, vec!["p", "q", "r"]);
    assert_eq!(sorted[3].0, "s");
}

#[test]
fn no_words_no_counts() {
    let counter = SortedCounter::from_values(Vec::new());
    assert!(counter.0.is_empty());
    assert_eq!(counter.into_sorted(), Vec::new());
}

#[test]
fn bump_adds_one() {
    let mut count = 41;
    bump(&mut count);
    assert_eq!(count, 42);
}
