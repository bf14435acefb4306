use moite_moite::arena::Arena;
use moite_moite::sync::{split, Side};
use moite_moite::SplitMut;

#[test]
fn split_mut_on_a_pair_borrows_both_components() {
    let mut value = ("baguette", "delicieux");
    {
        let (left, right) = value.split_mut();
        *right = "exquis";

        assert_eq!(*left, "baguette");
        assert_eq!(*right, "exquis");
    }
    assert_eq!(value, ("baguette", "exquis"));
}

#[test]
fn split_mut_writes_reach_the_pair() {
    let mut value = (1u32, vec![2u8, 3]);
    {
        let (left, right) = value.split_mut();
        *left += 41;
        right.push(4);
    }
    assert_eq!(value, (42, vec![2, 3, 4]));
}

#[test]
fn mutating_right_leaves_left_alone() {
    let mut arena = Arena::new();
    let (mut left, mut right) = split(("baguette", "delicieux"), &mut arena);
    *right.right_mut(&mut arena) = "exquis";
    assert_eq!(*left.left_mut(&mut arena), "baguette");
    assert_eq!(*right.right_mut(&mut arena), "exquis");
}

#[test]
fn mutating_left_leaves_right_alone() {
    let mut arena = Arena::new();
    let (mut left, mut right) = split((10u64, 20u64), &mut arena);
    *left.left_mut(&mut arena) = 11;
    assert_eq!(*right.right_mut(&mut arena), 20);
    assert_eq!(*left.left_mut(&mut arena), 11);
}

#[test]
fn appending_to_left_buffer_leaves_right_buffer_alone() {
    let mut arena = Arena::new();
    let (mut left, mut right) = split(("hello".to_owned(), "!".to_owned()), &mut arena);
    left.left_mut(&mut arena).push_str(", world");
    assert_eq!(*right.right_mut(&mut arena), "!");
    assert_eq!(*left.left_mut(&mut arena), "hello, world");
    let hello = left.left_mut(&mut arena).clone();
    let greeting = format!("{}{}", hello, right.right_mut(&mut arena));
    assert_eq!(greeting, "hello, world!");
}

#[test]
fn split_round_trips_a_pair() {
    let mut arena = Arena::new();
    let (mut left, mut right) = split((vec![1u8, 2, 3], "abc".to_owned()), &mut arena);
    assert_eq!(*left.left_mut(&mut arena), vec![1u8, 2, 3]);
    assert_eq!(*right.right_mut(&mut arena), "abc".to_owned());
}

#[test]
fn split_round_trips_a_pair_of_unit_like_values() {
    let mut arena = Arena::new();
    let (mut left, mut right) = split(((), Option::<u8>::None), &mut arena);
    assert_eq!(*left.left_mut(&mut arena), ());
    assert_eq!(*right.right_mut(&mut arena), None);
}

#[test]
fn handles_know_their_side_and_share_their_cell() {
    let mut arena = Arena::new();
    let (left, right) = split((1u8, 2u8), &mut arena);
    assert_eq!(left.side(), Side::Left);
    assert_eq!(right.side(), Side::Right);
    assert_eq!(left.whole(), right.whole());
    assert!(arena.contains(left.whole()));
}

#[test]
fn handles_of_two_splits_do_not_meet() {
    let mut arena = Arena::new();
    let (mut l1, mut r1) = split((1u8, 2u8), &mut arena);
    let (mut l2, mut r2) = split((3u8, 4u8), &mut arena);
    assert_ne!(l1.whole(), l2.whole());
    *l1.left_mut(&mut arena) = 100;
    *r2.right_mut(&mut arena) = 200;
    assert_eq!(*l1.left_mut(&mut arena), 100);
    assert_eq!(*r1.right_mut(&mut arena), 2);
    assert_eq!(*l2.left_mut(&mut arena), 3);
    assert_eq!(*r2.right_mut(&mut arena), 200);
}

#[test]
fn a_part_that_is_a_pair_splits_further_by_borrow() {
    let mut arena = Arena::new();
    let (mut left, mut right) = split(((1u8, 2u8), 3u8), &mut arena);
    {
        let (a, b) = left.left_mut(&mut arena).split_mut();
        *a = 10;
        *b = 20;
    }
    assert_eq!(*left.left_mut(&mut arena), (10, 20));
    assert_eq!(*right.right_mut(&mut arena), 3);
}
