//! The decision driver: builds a tree for one position, searches it for a
//! fixed iteration count or a wall-clock budget, and returns the successor
//! state of the best child.

use vstd::prelude::*;
use crate::evaluate::Evaluator;
use crate::search::{Node, node_wf};
use crate::state::{
    State, lemma_reachable_successor_carries, spec_alive, spec_is_reachable_successor,
    spec_successor_ok,
};

verus! {

#[verifier::external_type_specification]
#[verifier::external_body]
pub struct ExInstant(std::time::Instant);

/// Relies on `std::time::Instant::now` for a monotonic clock reading.
#[verifier::external_body]
fn now_instant() -> std::time::Instant {
    std::time::Instant::now()
}

/// Relies on `Instant::elapsed` and `Duration::as_millis`; nothing can be
/// promised of a clock reading.
#[verifier::external_body]
fn elapsed_millis(start: &std::time::Instant) -> u64 {
    start.elapsed().as_millis() as u64
}

pub struct Bot {
    pub evaluator: Evaluator,
}

impl Bot {
    pub fn new(evaluator: Evaluator) -> (r: Self)
        ensures
            r.evaluator == evaluator,
    {
        Bot { evaluator }
    }

    /// Searches the position's tree exactly `count` times and returns the
    /// best child's state: a placement outcome of the given position
    /// whenever the position is alive and at least one iteration ran, and
    /// nothing when the position is lost or no iteration ran.
    pub fn get_move_for_count(&self, state: State, count: u32) -> (r: Option<State>)
        requires
            state.board.wf(),
        ensures
            r matches Some(s) ==> spec_successor_ok(s) && spec_is_reachable_successor(state, s),
            !spec_alive(state) ==> r is None,
            count == 0 ==> r is None,
            (spec_alive(state) && count >= 1) ==> r is Some,
    {
        let ghost st = state;
        let mut root = Node::new(&self.evaluator, state);
        let mut i: u32 = 0;
        while i < count && root.n < u32::MAX
            invariant
                node_wf(root),
                root.state == st,
                0 <= i <= count,
                (spec_alive(st) && (i >= 1 || root.n > 1)) ==> root.children@.len() >= 1,
                !spec_alive(st) ==> root.children@.len() == 0,
                i == 0 ==> root.children@.len() == 0,
                i >= 1 || root.n == 1,
            decreases count - i,
        {
            root.search();
            i = i + 1;
        }
        match root.best_child() {
            Some(best_child) => {
                proof {
                    crate::search::lemma_node_wf_parts(root);
                }
                let s = best_child.state.clone();
                proof {
                    let ci = choose|ci: int|
                        0 <= ci < root.children@.len() && *best_child == root.children@[ci];
                    assert(spec_is_reachable_successor(st, best_child.state));
                    lemma_reachable_successor_carries(st, best_child.state, s);
                }
                Some(s)
            },
            None => None,
        }
    }

    /// As `get_move_for_count`, but iterating until the wall-clock budget of
    /// `time` milliseconds has passed, checked only between whole
    /// iterations. With a zero budget no iteration may run, so an alive
    /// position can still yield nothing.
    pub fn get_move_for_time(&self, state: State, time: u32) -> (r: Option<State>)
        requires
            state.board.wf(),
        ensures
            r matches Some(s) ==> spec_successor_ok(s) && spec_is_reachable_successor(state, s),
            !spec_alive(state) ==> r is None,
    {
        let ghost st = state;
        let mut root = Node::new(&self.evaluator, state);
        let start = now_instant();
        let mut fuel: u64 = 0xffff_ffff_ffff_ffff;
        while fuel > 0 && root.n < u32::MAX && elapsed_millis(&start) < time as u64
            invariant
                node_wf(root),
                root.state == st,
                !spec_alive(st) ==> root.children@.len() == 0,
            decreases fuel,
        {
            root.search();
            fuel = fuel - 1;
        }
        match root.best_child() {
            Some(best_child) => {
                proof {
                    crate::search::lemma_node_wf_parts(root);
                }
                let s = best_child.state.clone();
                proof {
                    let ci = choose|ci: int|
                        0 <= ci < root.children@.len() && *best_child == root.children@[ci];
                    assert(spec_is_reachable_successor(st, best_child.state));
                    lemma_reachable_successor_carries(st, best_child.state, s);
                }
                Some(s)
            },
            None => None,
        }
    }
}

} // verus!
