use moxnotify::buttons::{find_hint, hint_combination, hint_combinations};

#[test]
fn hint_labels_count_in_bijective_base() {
    let chars: Vec<char> = "abc".chars().collect();
    let labels = hint_combinations(14, &chars);
    assert_eq!(
        labels,
        vec!["a", "b", "c", "aa", "ab", "ac", "ba", "bb", "bc", "ca", "cb", "cc", "aaa", "aab"]
    );
    assert_eq!(hint_combination(0, &"x".chars().collect()), "x");
    assert_eq!(hint_combination(3, &"x".chars().collect()), "xxxx");
}

#[test]
fn hint_labels_are_distinct() {
    let chars: Vec<char> = "sadfjklewcmpgh".chars().collect();
    let labels = hint_combinations(300, &chars);
    for i in 0..labels.len() {
        for j in (i + 1)..labels.len() {
            assert_ne!(labels[i], labels[j]);
        }
    }
}

#[test]
fn hints_are_found() {
    let labels = vec!["a".to_string(), "b".to_string(), "aa".to_string()];
    assert_eq!(find_hint(&labels, "aa"), Some(2));
    assert_eq!(find_hint(&labels, "c"), None);
}
