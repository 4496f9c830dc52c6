use hashmap::{LinkedList, LinkedListIterMut};

fn list_of(items: &[i32]) -> LinkedList<i32> {
    let mut list = LinkedList::Nil;
    for item in items.iter().rev() {
        list = list.push(*item);
    }
    list
}

fn collect(list: &LinkedList<i32>) -> Vec<i32> {
    let mut out = Vec::new();
    let mut it = list.iter();
    while let Some(item) = it.next() {
        out.push(*item);
    }
    out
}

#[test]
fn push_puts_the_element_in_front() {
    let list = LinkedList::Nil.push(1).push(2).push(3);
    assert_eq!(collect(&list), vec![3, 2, 1]);
}

#[test]
fn push_builds_a_node_that_owns_the_old_chain() {
    let list = LinkedList::Nil.push(7);
    match list {
        LinkedList::Elem(head, rest) => {
            assert_eq!(head, 7);
            assert!(matches!(*rest, LinkedList::Nil));
        }
        LinkedList::Nil => panic!("a pushed chain is not empty"),
    }
}

#[test]
fn follow_gives_the_tail() {
    let list = list_of(&[1, 2, 3]);
    assert_eq!(collect(list.follow()), vec![2, 3]);
    assert_eq!(collect(list.follow().follow()), vec![3]);
    assert_eq!(collect(list.follow().follow().follow()), Vec::<i32>::new());
}

#[test]
fn follow_of_the_empty_chain_is_the_empty_chain() {
    let list: LinkedList<i32> = LinkedList::Nil;
    assert!(matches!(list.follow(), LinkedList::Nil));
    assert!(matches!(list.follow().follow(), LinkedList::Nil));
}

#[test]
fn follow_mut_writes_the_tail() {
    let mut list = list_of(&[1, 2, 3]);
    *list.follow_mut() = list_of(&[9]);
    assert_eq!(collect(&list), vec![1, 9]);
}

#[test]
fn follow_mut_of_the_empty_chain_writes_the_chain_itself() {
    let mut list: LinkedList<i32> = LinkedList::Nil;
    *list.follow_mut() = list_of(&[4, 5]);
    assert_eq!(collect(&list), vec![4, 5]);
}

#[test]
fn follow_mut_can_grow_a_chain_at_its_end() {
    let mut list = list_of(&[1]);
    *list.follow_mut() = list_of(&[2]);
    assert_eq!(collect(&list), vec![1, 2]);
    *list.follow_mut().follow_mut() = list_of(&[3]);
    assert_eq!(collect(&list), vec![1, 2, 3]);
    *list.follow_mut().follow_mut().follow_mut().follow_mut() = list_of(&[4]);
    assert_eq!(collect(&list), vec![1, 2, 3, 4]);
}

#[test]
fn iter_walks_head_to_tail_and_then_stays_at_the_end() {
    let list = list_of(&[10, 20]);
    let mut it = list.iter();
    assert_eq!(it.next(), Some(&10));
    assert_eq!(it.next(), Some(&20));
    assert_eq!(it.next(), None);
    assert_eq!(it.next(), None);
}

#[test]
fn iter_can_be_started_again() {
    let list = list_of(&[1, 2, 3]);
    assert_eq!(collect(&list), vec![1, 2, 3]);
    assert_eq!(collect(&list), vec![1, 2, 3]);
}

#[test]
fn iter_over_the_empty_chain_ends_at_once() {
    let list: LinkedList<i32> = LinkedList::Nil;
    let mut it = list.iter();
    assert_eq!(it.next(), None);
}

#[test]
fn iter_mut_hands_out_every_element_for_writing() {
    let mut list = list_of(&[1, 2, 3]);
    let mut it = list.iter_mut();
    while let Some(item) = it.next() {
        *item *= 10;
    }
    assert_eq!(collect(&list), vec![10, 20, 30]);
}

#[test]
fn iter_mut_keeps_what_it_did_not_reach() {
    let mut list = list_of(&[1, 2, 3]);
    let mut it = list.iter_mut();
    if let Some(first) = it.next() {
        *first = 5;
    }
    assert_eq!(collect(&list), vec![5, 2, 3]);
}

#[test]
fn iter_mut_ends_with_none() {
    let mut list = list_of(&[1]);
    let mut it = list.iter_mut();
    assert_eq!(it.next(), Some(&mut 1));
    assert_eq!(it.next(), None);
    assert_eq!(it.next(), None);
    assert!(it.ll.is_none());
}

#[test]
fn iter_mut_elements_outlive_the_walk() {
    let mut list = list_of(&[1, 2]);
    let (first, second) = {
        let mut it = list.iter_mut();
        (it.next(), it.next())
    };
    *first.unwrap() = 7;
    *second.unwrap() = 8;
    assert_eq!(collect(&list), vec![7, 8]);
}

#[test]
fn iter_mut_can_start_anywhere() {
    let mut list = list_of(&[1, 2, 3]);
    let mut it = LinkedListIterMut { ll: Some(list.follow_mut()) };
    while let Some(item) = it.next() {
        *item = 0;
    }
    assert_eq!(collect(&list), vec![1, 0, 0]);
}

#[test]
fn clone_copies_the_chain() {
    let list = list_of(&[1, 2, 3]);
    let mut copy = list.clone();
    *copy.follow_mut() = LinkedList::Nil;
    assert_eq!(collect(&copy), vec![1]);
    assert_eq!(collect(&list), vec![1, 2, 3]);
}

#[test]
fn long_chain_is_walked_in_full() {
    let mut list = LinkedList::Nil;
    for i in 0..1000 {
        list = list.push(i);
    }
    let items = collect(&list);
    assert_eq!(items.len(), 1000);
    assert_eq!(items[0], 999);
    assert_eq!(items[999], 0);
}
