use tetris::supply::{bag_from_picks, fill_bag, fresh_bag, SupplyQueue, BAG_SIZE};
use tetris::tetromino::{TetrominoType, ALL_KINDS};
use tetris::tetromino::TetrominoType::{I, J, L, O, S, T, Z};

fn is_one_of_each(kinds: &[TetrominoType]) -> bool {
    kinds.len() == 7 && ALL_KINDS.iter().all(|k| kinds.iter().filter(|x| *x == k).count() == 1)
}

#[test]
fn bag_holds_seven() {
    assert_eq!(BAG_SIZE, 7);
    assert!(is_one_of_each(&ALL_KINDS));
}

#[test]
fn picks_that_choose_each_position_itself_keep_the_order() {
    assert_eq!(bag_from_picks(&[6, 5, 4, 3, 2, 1]), vec![I, O, T, S, Z, J, L]);
}

#[test]
fn picks_of_zero_rotate_the_first_piece_to_the_end() {
    assert_eq!(bag_from_picks(&[0, 0, 0, 0, 0, 0]), vec![O, T, S, Z, J, L, I]);
}

#[test]
fn mixed_picks_give_the_expected_bag() {
    assert_eq!(bag_from_picks(&[2, 5, 0, 1, 1, 0]), vec![L, Z, S, O, I, J, T]);
}

#[test]
fn every_bag_from_picks_is_one_of_each() {
    for a in 0..7 {
        for b in 0..6 {
            for c in 0..5 {
                for d in 0..4 {
                    for e in 0..3 {
                        for f in 0..2 {
                            assert!(is_one_of_each(&bag_from_picks(&[a, b, c, d, e, f])));
                        }
                    }
                }
            }
        }
    }
}

#[test]
fn fresh_bags_are_one_of_each_and_vary() {
    let first = fresh_bag();
    assert!(is_one_of_each(&first));
    let mut differs = false;
    for _ in 0..50 {
        let bag = fresh_bag();
        assert!(is_one_of_each(&bag));
        differs = differs || bag != first;
    }
    assert!(differs);
}

#[test]
fn new_queue_is_empty() {
    let mut queue = SupplyQueue::new();
    assert_eq!(queue.len(), 0);
    assert_eq!(queue.peek(0), None);
    assert_eq!(queue.pop(), None);
    assert_eq!(queue.len(), 0);
}

#[test]
fn fill_brings_the_queue_to_the_target() {
    let mut queue = SupplyQueue::new();
    fill_bag(&mut queue, 5);
    assert_eq!(queue.len(), 5);
    let mut kinds = Vec::new();
    for i in 0..5 {
        kinds.push(queue.peek(i).unwrap());
    }
    assert_eq!(queue.peek(5), None);
    for i in 0..5 {
        for j in (i + 1)..5 {
            assert_ne!(kinds[i], kinds[j]);
        }
    }
}

#[test]
fn fill_leaves_a_long_enough_queue_alone() {
    let mut queue = SupplyQueue::new();
    fill_bag(&mut queue, 5);
    let before: Vec<_> = (0..5).map(|i| queue.peek(i)).collect();
    fill_bag(&mut queue, 5);
    fill_bag(&mut queue, 3);
    fill_bag(&mut queue, 0);
    assert_eq!(queue.len(), 5);
    let after: Vec<_> = (0..5).map(|i| queue.peek(i)).collect();
    assert_eq!(after, before);
}

#[test]
fn fill_keeps_what_waits_and_adds_behind_it() {
    let mut queue = SupplyQueue::new();
    fill_bag(&mut queue, 3);
    let before: Vec<_> = (0..3).map(|i| queue.peek(i)).collect();
    fill_bag(&mut queue, 16);
    assert_eq!(queue.len(), 16);
    let after: Vec<_> = (0..3).map(|i| queue.peek(i)).collect();
    assert_eq!(after, before);
}

#[test]
fn pop_gives_the_pieces_in_queue_order() {
    let mut queue = SupplyQueue::new();
    fill_bag(&mut queue, 5);
    let waiting: Vec<_> = (0..5).map(|i| queue.peek(i).unwrap()).collect();
    for (taken, kind) in waiting.iter().enumerate() {
        assert_eq!(queue.pop(), Some(*kind));
        assert_eq!(queue.len(), 4 - taken);
    }
    assert_eq!(queue.pop(), None);
}

#[test]
fn every_seven_pops_are_one_of_each() {
    let mut queue = SupplyQueue::new();
    fill_bag(&mut queue, 5);
    let mut popped = Vec::new();
    for _ in 0..(7 * 30) {
        popped.push(queue.pop().unwrap());
        fill_bag(&mut queue, 5);
        assert_eq!(queue.len(), 5);
    }
    for window in popped.chunks(7) {
        assert!(is_one_of_each(window));
    }
}

#[test]
fn one_long_fill_is_drawn_bag_by_bag() {
    let mut queue = SupplyQueue::new();
    fill_bag(&mut queue, 7 * 12 + 3);
    assert_eq!(queue.len(), 87);
    let mut popped = Vec::new();
    while let Some(kind) = queue.pop() {
        popped.push(kind);
    }
    assert_eq!(popped.len(), 87);
    for window in popped.chunks_exact(7) {
        assert!(is_one_of_each(window));
    }
    let rest = &popped[84..];
    assert!(rest[0] != rest[1] && rest[0] != rest[2] && rest[1] != rest[2]);
}

#[test]
fn windows_stay_aligned_when_fills_and_pops_mix() {
    let mut queue = SupplyQueue::new();
    let mut popped = Vec::new();
    for round in 0..40 {
        fill_bag(&mut queue, 1 + (round * 5) % 11);
        for _ in 0..(1 + round % 4) {
            if let Some(kind) = queue.pop() {
                popped.push(kind);
            }
        }
    }
    assert!(popped.len() >= 35);
    for window in popped.chunks_exact(7) {
        assert!(is_one_of_each(window));
    }
}
