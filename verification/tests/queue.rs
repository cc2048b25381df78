use typoo::queue::{EmptyListError, WordQueue};
use typoo::shuffle::{identity_order, Shuffler};

fn word_list(words: &[&str]) -> Vec<String> {
    words.iter().map(|w| w.to_string()).collect()
}

fn numbered_words(n: usize) -> Vec<String> {
    (0..n).map(|i| format!("word{}", i)).collect()
}

/// The sequence of a queue that stands at position zero.
fn sequence_of(queue: &WordQueue) -> Vec<String> {
    assert_eq!(queue.current_index(), 0);
    let mut sequence = Vec::new();
    if let Ok(first) = queue.current() {
        sequence.push(first.to_string());
    }
    sequence.extend(queue.peek_upcoming(queue.len()));
    sequence
}

fn sorted(mut words: Vec<String>) -> Vec<String> {
    words.sort();
    words
}

#[test]
fn identity_order_counts_up() {
    assert_eq!(identity_order(0), Vec::<usize>::new());
    assert_eq!(identity_order(1), vec![0]);
    assert_eq!(identity_order(5), vec![0, 1, 2, 3, 4]);
}

#[test]
fn a_shuffle_rearranges_and_loses_nothing() {
    let mut shuffler = Shuffler::new(1);
    for n in [0usize, 1, 2, 3, 10, 100, 1000] {
        let mut order = identity_order(n);
        shuffler.shuffle(&mut order);
        assert_eq!(order.len(), n);
        order.sort();
        assert_eq!(order, identity_order(n));
    }
}

#[test]
fn a_shuffle_keeps_repeated_items() {
    let mut shuffler = Shuffler::new(99);
    let mut order = vec![3, 1, 3, 3, 7, 1, 0];
    shuffler.shuffle(&mut order);
    order.sort();
    assert_eq!(order, vec![0, 1, 1, 3, 3, 3, 7]);
}

#[test]
fn a_shuffle_changes_the_order() {
    let mut shuffler = Shuffler::new(2024);
    let mut order = identity_order(64);
    shuffler.shuffle(&mut order);
    assert_ne!(order, identity_order(64));
    let mut again = order.clone();
    shuffler.shuffle(&mut again);
    assert_ne!(again, order);
}

#[test]
fn the_same_seed_gives_the_same_shuffles() {
    let mut a = Shuffler::new(7);
    let mut b = Shuffler::new(7);
    for _ in 0..5 {
        let mut x = identity_order(40);
        let mut y = identity_order(40);
        a.shuffle(&mut x);
        b.shuffle(&mut y);
        assert_eq!(x, y);
    }
}

#[test]
fn different_seeds_give_different_shuffles() {
    let mut a = Shuffler::new(1);
    let mut b = Shuffler::new(2);
    let mut x = identity_order(40);
    let mut y = identity_order(40);
    a.shuffle(&mut x);
    b.shuffle(&mut y);
    assert_ne!(x, y);
}

#[test]
fn a_new_queue_stands_at_the_first_word() {
    let mut shuffler = Shuffler::new(3);
    let queue = WordQueue::new(word_list(&["the", "cat", "sat"]), &mut shuffler);
    assert_eq!(queue.len(), 3);
    assert_eq!(queue.current_index(), 0);
    let current = queue.current().unwrap();
    assert!(["the", "cat", "sat"].contains(&current));
}

#[test]
fn a_new_queue_holds_the_words_of_the_list() {
    let mut shuffler = Shuffler::new(11);
    let words = numbered_words(30);
    let queue = WordQueue::new(words.clone(), &mut shuffler);
    assert_eq!(sorted(sequence_of(&queue)), sorted(words));
}

#[test]
fn a_new_queue_is_shuffled() {
    let mut shuffler = Shuffler::new(11);
    let words = numbered_words(30);
    let queue = WordQueue::new(words.clone(), &mut shuffler);
    assert_ne!(sequence_of(&queue), words);
}

#[test]
fn repeated_words_stay_repeated() {
    let mut shuffler = Shuffler::new(5);
    let words = word_list(&["a", "b", "a", "a", "c"]);
    let queue = WordQueue::new(words.clone(), &mut shuffler);
    assert_eq!(sorted(sequence_of(&queue)), sorted(words));
}

#[test]
fn an_empty_queue_has_no_current_word() {
    let mut shuffler = Shuffler::new(0);
    let mut queue = WordQueue::new(Vec::new(), &mut shuffler);
    assert_eq!(queue.len(), 0);
    assert_eq!(queue.current(), Err(EmptyListError));
    assert_eq!(queue.peek_upcoming(3), Vec::<String>::new());
    queue.advance(&mut shuffler);
    assert_eq!(queue.current_index(), 0);
    assert_eq!(queue.current(), Err(EmptyListError));
}

#[test]
fn advance_walks_through_the_sequence() {
    let mut shuffler = Shuffler::new(21);
    let mut queue = WordQueue::new(numbered_words(6), &mut shuffler);
    let sequence = sequence_of(&queue);
    for i in 0..6 {
        assert_eq!(queue.current_index(), i);
        assert_eq!(queue.current().unwrap(), sequence[i]);
        if i < 5 {
            queue.advance(&mut shuffler);
        }
    }
}

#[test]
fn a_full_pass_returns_to_position_zero() {
    for n in [1usize, 2, 3, 7, 50] {
        let mut shuffler = Shuffler::new(n as u64);
        let words = numbered_words(n);
        let mut queue = WordQueue::new(words.clone(), &mut shuffler);
        for pass in 0..3 {
            for step in 0..n {
                assert_eq!(queue.current_index(), step, "pass {}", pass);
                queue.advance(&mut shuffler);
            }
            assert_eq!(queue.current_index(), 0);
            assert_eq!(queue.len(), n);
            assert_eq!(sorted(sequence_of(&queue)), sorted(words.clone()));
        }
    }
}

#[test]
fn as_many_steps_as_words_return_to_the_same_position() {
    let mut shuffler = Shuffler::new(31);
    let words = numbered_words(7);
    let mut queue = WordQueue::new(words.clone(), &mut shuffler);
    for start in 0..7 {
        assert_eq!(queue.current_index(), start);
        for _ in 0..7 {
            queue.advance(&mut shuffler);
        }
        assert_eq!(queue.current_index(), start);
        queue.advance(&mut shuffler);
    }
}

#[test]
fn the_end_of_a_pass_reshuffles() {
    let mut shuffler = Shuffler::new(8);
    let mut queue = WordQueue::new(numbered_words(40), &mut shuffler);
    let first_pass = sequence_of(&queue);
    for _ in 0..40 {
        queue.advance(&mut shuffler);
    }
    let second_pass = sequence_of(&queue);
    assert_ne!(first_pass, second_pass);
    assert_eq!(sorted(first_pass), sorted(second_pass));
}

#[test]
fn a_queue_of_one_word_repeats_it() {
    let mut shuffler = Shuffler::new(4);
    let mut queue = WordQueue::new(word_list(&["solo"]), &mut shuffler);
    for _ in 0..5 {
        assert_eq!(queue.current(), Ok("solo"));
        assert_eq!(queue.current_index(), 0);
        assert_eq!(queue.peek_upcoming(3), Vec::<String>::new());
        queue.advance(&mut shuffler);
    }
}

#[test]
fn a_preview_shows_the_words_that_follow() {
    let mut shuffler = Shuffler::new(13);
    let mut queue = WordQueue::new(numbered_words(8), &mut shuffler);
    let sequence = sequence_of(&queue);
    assert_eq!(queue.peek_upcoming(3), sequence[1..4].to_vec());
    assert_eq!(queue.peek_upcoming(1), sequence[1..2].to_vec());
    queue.advance(&mut shuffler);
    queue.advance(&mut shuffler);
    assert_eq!(queue.peek_upcoming(3), sequence[3..6].to_vec());
    assert_eq!(queue.peek_upcoming(2), sequence[3..5].to_vec());
}

#[test]
fn a_preview_of_nothing_is_empty() {
    let mut shuffler = Shuffler::new(13);
    let queue = WordQueue::new(numbered_words(8), &mut shuffler);
    assert_eq!(queue.peek_upcoming(0), Vec::<String>::new());
}

#[test]
fn a_preview_stops_at_the_end_of_the_pass() {
    let mut shuffler = Shuffler::new(17);
    let mut queue = WordQueue::new(numbered_words(5), &mut shuffler);
    let sequence = sequence_of(&queue);
    assert_eq!(queue.peek_upcoming(100), sequence[1..].to_vec());
    assert_eq!(queue.peek_upcoming(usize::MAX), sequence[1..].to_vec());
    for _ in 0..3 {
        queue.advance(&mut shuffler);
    }
    assert_eq!(queue.current_index(), 3);
    assert_eq!(queue.peek_upcoming(3), sequence[4..].to_vec());
    queue.advance(&mut shuffler);
    assert_eq!(queue.current_index(), 4);
    assert_eq!(queue.peek_upcoming(3), Vec::<String>::new());
}

#[test]
fn a_preview_is_never_longer_than_asked_and_leaves_out_the_current_word() {
    let mut shuffler = Shuffler::new(23);
    let mut queue = WordQueue::new(numbered_words(9), &mut shuffler);
    for _ in 0..30 {
        let current = queue.current().unwrap().to_string();
        for n in 0..12 {
            let preview = queue.peek_upcoming(n);
            assert!(preview.len() <= n);
            assert_eq!(preview.len(), n.min(9 - queue.current_index() - 1));
            assert!(!preview.contains(&current));
        }
        queue.advance(&mut shuffler);
    }
}

#[test]
fn a_preview_does_not_move_the_queue() {
    let mut shuffler = Shuffler::new(29);
    let queue = WordQueue::new(numbered_words(9), &mut shuffler);
    let before = queue.current().unwrap().to_string();
    let first = queue.peek_upcoming(4);
    let second = queue.peek_upcoming(4);
    assert_eq!(first, second);
    assert_eq!(queue.current_index(), 0);
    assert_eq!(queue.current().unwrap(), before);
}
