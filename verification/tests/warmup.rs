use deet::list::LinkedList;
use deet::vecops::{add_n, add_n_inplace, dedup, find_element, LetterCounts};

#[test]
fn test_add_n() {
    assert_eq!(add_n(vec![1], 2), vec![3]);
}

#[test]
fn test_add_n_inplace() {
    let mut v = vec![1];
    add_n_inplace(&mut v, 2);
    assert_eq!(v, vec![3]);
}

#[test]
fn test_dedup() {
    let mut v = vec![3, 1, 0, 1, 4, 4];
    dedup(&mut v);
    assert_eq!(v, vec![3, 1, 0, 4]);
}

#[test]
fn test_add_n_empty() {
    assert_eq!(add_n(vec![], 7), vec![]);
}

#[test]
fn test_add_n_negative() {
    assert_eq!(add_n(vec![5, -3, 0], -2), vec![3, -5, -2]);
}

#[test]
fn test_dedup_all_equal() {
    let mut v = vec![2, 2, 2, 2];
    dedup(&mut v);
    assert_eq!(v, vec![2]);
}

#[test]
fn test_dedup_empty() {
    let mut v: Vec<i32> = vec![];
    dedup(&mut v);
    assert_eq!(v, vec![]);
}

#[test]
fn test_find_element_counts_down() {
    let letters: Vec<char> = vec!['h', 'e', 'l', 'l', 'o'];
    let mut counts = LetterCounts::new();
    counts.insert('l', 2);
    // The recorded count is 2, so the second 'l' is found.
    assert_eq!(find_element(&letters, 'l', &mut counts), Some(3));
    assert_eq!(counts.get('l'), Some(1));
    // Now the count is 1, so the first 'l' is found.
    assert_eq!(find_element(&letters, 'l', &mut counts), Some(2));
    assert_eq!(counts.get('l'), Some(0));
    // A count of zero can never be matched.
    assert_eq!(find_element(&letters, 'l', &mut counts), None);
}

#[test]
fn test_find_element_missing_letter() {
    let letters: Vec<char> = vec!['a', 'b'];
    let mut counts = LetterCounts::new();
    counts.insert('a', 1);
    assert_eq!(find_element(&letters, 'z', &mut counts), None);
    assert_eq!(counts.get('a'), Some(1));
}

#[test]
fn test_find_element_too_few_occurrences() {
    let letters: Vec<char> = vec!['a', 'b', 'a'];
    let mut counts = LetterCounts::new();
    counts.insert('a', 3);
    assert_eq!(find_element(&letters, 'a', &mut counts), None);
    assert_eq!(counts.get('a'), Some(3));
}

#[test]
fn test_linked_list_front() {
    let mut list: LinkedList<u32> = LinkedList::new();
    assert!(list.is_empty());
    assert_eq!(list.get_size(), 0);
    for i in 1..12 {
        list.push_front(i);
    }
    assert_eq!(list.get_size(), 11);
    assert!(!list.is_empty());
    assert_eq!(list.pop_front(), Some(11));
    assert_eq!(list.pop_front(), Some(10));
    assert_eq!(list.get_size(), 9);
}

#[test]
fn test_linked_list_clone_and_eq() {
    let mut list: LinkedList<u32> = LinkedList::new();
    for i in 1..12 {
        list.push_front(i);
    }
    let mut list2: LinkedList<u32> = LinkedList::new();
    for i in 1..12 {
        list2.push_front(i);
    }
    let list3 = list.clone();
    assert!(list == list2);
    assert!(list == list3);
    assert_eq!(list3.get_size(), 11);
    list2.push_front(99);
    assert!(list != list2);
    let mut shorter = list.clone();
    shorter.pop_front();
    assert!(list != shorter);
}

#[test]
fn test_linked_list_tail() {
    let mut list: LinkedList<i32> = LinkedList::new();
    list.push_tail(1);
    list.push_tail(2);
    list.push_front(0);
    list.push_tail(3);
    assert_eq!(list.get_size(), 4);
    assert_eq!(list.pop_front(), Some(0));
    assert_eq!(list.pop_front(), Some(1));
    assert_eq!(list.pop_front(), Some(2));
    assert_eq!(list.pop_front(), Some(3));
    assert_eq!(list.pop_front(), None);
    assert!(list.is_empty());
}
