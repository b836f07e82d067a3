use std::collections::VecDeque;

use tetris_bot::{Board, Bot, Evaluator, Gene, Node, Piece, Score, State};

const EVALUATOR_REPEAT: u32 = 10;

fn empty_state_with(current: Piece, queue: Vec<Piece>) -> State {
    State {
        board: Board::new(),
        current_piece: Some(current),
        hold_piece: None,
        next_pieces: VecDeque::from(queue),
        b2b: false,
        last_action: None,
    }
}

#[test]
fn search_halting() {
    let state = State::new_random_state();

    let bot = Bot {
        evaluator: Evaluator::default(),
    };

    let next_state = bot
        .get_move_for_count(state.clone(), EVALUATOR_REPEAT)
        .unwrap();

    assert!(next_state != state);
}

#[test]
fn search_counts_visits() {
    let evaluator = Evaluator::default();
    let state = empty_state_with(Piece::L, vec![Piece::J, Piece::T]);
    let mut root = Node::new(&evaluator, state);
    assert_eq!(root.n, 1);
    for i in 0u32..5 {
        root.search();
        assert_eq!(root.n, 1 + (i + 1));
    }
}

#[test]
fn best_child_takes_first_maximum() {
    let evaluator = Evaluator::default();
    let mut root = Node::new(&evaluator, empty_state_with(Piece::S, vec![]));
    for (reward, value) in [(1i64, 2i64), (4, 3), (5, 2), (3, 4), (2, 2)] {
        let mut child = Node::new(&evaluator, empty_state_with(Piece::Z, vec![]));
        child.reward = reward;
        child.value = value;
        root.children.push(child);
    }
    // Children score 3, 7, 7, 7, 4: the winner is the first one scoring 7.
    let best = root.best_child().unwrap();
    assert_eq!(best.reward, 4);
    assert_eq!(best.value, 3);
}

#[test]
fn ucb_bonus_shrinks_with_visits() {
    let evaluator = Evaluator::default();
    let mut child = Node::new(&evaluator, empty_state_with(Piece::O, vec![]));
    child.reward = 0;
    child.value = 0;
    // With two parent visits the bonus radicand is 200.
    child.n = 1;
    assert_eq!(child.ucb(2), 14);
    child.n = 2;
    assert_eq!(child.ucb(2), 10);
    child.n = 200;
    assert_eq!(child.ucb(2), 1);
    child.n = 201;
    assert_eq!(child.ucb(2), 0);
    let mut last = i64::MAX;
    for n in 1..50 {
        child.n = n;
        let score = child.ucb(2);
        assert!(score <= last);
        last = score;
    }
}

#[test]
fn dead_position_yields_no_move() {
    let mut state = empty_state_with(Piece::O, vec![Piece::I]);
    for y in 18..23 {
        state.board.cells[y] = 0x3ff;
    }
    let bot = Bot::new(Evaluator::default());
    assert!(bot.get_move_for_count(state, EVALUATOR_REPEAT).is_none());
}

#[test]
fn timed_search_still_moves() {
    let state = empty_state_with(Piece::T, vec![Piece::I, Piece::O]);
    let bot = Bot::new(Evaluator::default());
    let next = bot.get_move_for_time(state, 50);
    assert!(next.is_some());
}

#[test]
fn score_update_halves_losses() {
    let mut score = Score::new();
    score.update(10, 100, true);
    assert_eq!(score.attack, 10);
    assert_eq!(score.time, 100);
    score.update(5, 50, false);
    assert_eq!(score.attack, 12);
    assert_eq!(score.time, 150);
}

#[test]
fn score_rates_compare_as_fractions() {
    let a = Score { attack: 3, time: 10 };
    let b = Score { attack: 2, time: 10 };
    assert!(a.rate_at_least(&b));
    assert!(!b.rate_at_least(&a));
    let c = Score { attack: 6, time: 20 };
    assert!(a.rate_at_least(&c));
    assert!(c.rate_at_least(&a));
    let idle = Score::new();
    assert!(a.rate_at_least(&idle));
    assert!(!idle.rate_at_least(&a));
}

#[test]
fn generated_weights_stay_small() {
    for _ in 0..50 {
        let w = i32::generate();
        assert!((-10..=10).contains(&w));
    }
    let e = Evaluator::generate();
    assert!((-10..=10).contains(&e.bumpiness));
    assert!((-10..=10).contains(&e.clear4));
}

#[test]
fn crossover_mixes_parents() {
    let a = 100;
    let b = -60;
    for _ in 0..50 {
        let c = i32::crossover(&a, &b);
        // One of the parents, their average, or a fresh small value, each
        // within the jitter of ten.
        let near = |target: i32| (c - target).abs() <= 10;
        assert!(near(a) || near(b) || near(20) || (-160..=160).contains(&c));
    }
}

#[test]
fn evaluator_scores_empty_board_as_zero() {
    let mut weights = Evaluator::default();
    weights.hight = 3;
    weights.bumpiness = 2;
    let state = empty_state_with(Piece::T, vec![]);
    let (reward, value) = weights.evaluate(&state);
    assert_eq!(reward, 0);
    assert_eq!(value, 0);
}

#[test]
fn evaluator_weighs_column_heights() {
    let mut weights = Evaluator::default();
    weights.hight = 3;
    let mut state = empty_state_with(Piece::T, vec![]);
    state.board.cells[0] = 1;
    state.board.cells[1] = 1;
    state.board.collumn_heights[0] = 2;
    let (_, value) = weights.evaluate(&state);
    // The tallest column is two high, weighted by three.
    assert_eq!(value, 6);
}
