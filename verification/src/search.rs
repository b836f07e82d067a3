//! The decision tree: nodes wrap a game state with its heuristic score,
//! expansion materializes every successor once, selection walks the tree by
//! an upper-confidence score, and value estimates back up with a discount.

use vstd::prelude::*;
use crate::evaluate::{EVAL_BOUND, Evaluator, spec_reward};
use crate::state::{State, spec_alive, spec_is_reachable_successor, spec_successor_ok};

verus! {

/// Balances exploration against exploitation: a larger value spreads the
/// search across more children.
pub const EXPLORATION: u32 = 100;

/// One more than the index of the highest set bit; the logarithm the
/// exploration bonus uses.
pub open spec fn spec_log2p1(n: u32) -> u32 {
    if n >= 0x80000000 {
        32u32
    } else if n >= 0x40000000 {
        31u32
    } else if n >= 0x20000000 {
        30u32
    } else if n >= 0x10000000 {
        29u32
    } else if n >= 0x8000000 {
        28u32
    } else if n >= 0x4000000 {
        27u32
    } else if n >= 0x2000000 {
        26u32
    } else if n >= 0x1000000 {
        25u32
    } else if n >= 0x800000 {
        24u32
    } else if n >= 0x400000 {
        23u32
    } else if n >= 0x200000 {
        22u32
    } else if n >= 0x100000 {
        21u32
    } else if n >= 0x80000 {
        20u32
    } else if n >= 0x40000 {
        19u32
    } else if n >= 0x20000 {
        18u32
    } else if n >= 0x10000 {
        17u32
    } else if n >= 0x8000 {
        16u32
    } else if n >= 0x4000 {
        15u32
    } else if n >= 0x2000 {
        14u32
    } else if n >= 0x1000 {
        13u32
    } else if n >= 0x800 {
        12u32
    } else if n >= 0x400 {
        11u32
    } else if n >= 0x200 {
        10u32
    } else if n >= 0x100 {
        9u32
    } else if n >= 0x80 {
        8u32
    } else if n >= 0x40 {
        7u32
    } else if n >= 0x20 {
        6u32
    } else if n >= 0x10 {
        5u32
    } else if n >= 0x8 {
        4u32
    } else if n >= 0x4 {
        3u32
    } else if n >= 0x2 {
        2u32
    } else if n >= 0x1 {
        1u32
    } else {
        0u32
    }
}

fn log2p1(n: u32) -> (r: u32)
    ensures
        r == spec_log2p1(n),
        r <= 32,
        n >= 1 ==> r >= 1,
{
    if n >= 0x80000000 {
        32
    } else if n >= 0x40000000 {
        31
    } else if n >= 0x20000000 {
        30
    } else if n >= 0x10000000 {
        29
    } else if n >= 0x8000000 {
        28
    } else if n >= 0x4000000 {
        27
    } else if n >= 0x2000000 {
        26
    } else if n >= 0x1000000 {
        25
    } else if n >= 0x800000 {
        24
    } else if n >= 0x400000 {
        23
    } else if n >= 0x200000 {
        22
    } else if n >= 0x100000 {
        21
    } else if n >= 0x80000 {
        20
    } else if n >= 0x40000 {
        19
    } else if n >= 0x20000 {
        18
    } else if n >= 0x10000 {
        17
    } else if n >= 0x8000 {
        16
    } else if n >= 0x4000 {
        15
    } else if n >= 0x2000 {
        14
    } else if n >= 0x1000 {
        13
    } else if n >= 0x800 {
        12
    } else if n >= 0x400 {
        11
    } else if n >= 0x200 {
        10
    } else if n >= 0x100 {
        9
    } else if n >= 0x80 {
        8
    } else if n >= 0x40 {
        7
    } else if n >= 0x20 {
        6
    } else if n >= 0x10 {
        5
    } else if n >= 0x8 {
        4
    } else if n >= 0x4 {
        3
    } else if n >= 0x2 {
        2
    } else if n >= 0x1 {
        1
    } else {
        0
    }
}

/// The largest root not past 60 whose square times `b` stays within `a`:
/// the floor of the square root of `a / b`.
pub open spec fn spec_isqrt_from(a: int, b: int, r: int) -> int
    decreases 61 - r,
{
    if r >= 60 {
        60
    } else if (r + 1) * (r + 1) * b > a {
        r
    } else {
        spec_isqrt_from(a, b, r + 1)
    }
}

pub open spec fn spec_isqrt_ratio(a: int, b: int) -> int {
    spec_isqrt_from(a, b, 0)
}

proof fn lemma_isqrt_from_char(a: int, b: int, r0: int)
    requires
        0 <= a,
        1 <= b,
        0 <= r0 <= 60,
        r0 * r0 * b <= a,
    ensures
        r0 <= spec_isqrt_from(a, b, r0) <= 60,
        spec_isqrt_from(a, b, r0) * spec_isqrt_from(a, b, r0) * b <= a,
        spec_isqrt_from(a, b, r0) < 60 ==> (spec_isqrt_from(a, b, r0) + 1) * (spec_isqrt_from(
            a,
            b,
            r0,
        ) + 1) * b > a,
    decreases 61 - r0,
{
    if r0 < 60 && (r0 + 1) * (r0 + 1) * b <= a {
        lemma_isqrt_from_char(a, b, r0 + 1);
    }
}

/// The exact characterization of the integer square-root helper.
pub proof fn lemma_isqrt_char(a: int, b: int)
    requires
        0 <= a,
        1 <= b,
    ensures
        0 <= spec_isqrt_ratio(a, b) <= 60,
        spec_isqrt_ratio(a, b) * spec_isqrt_ratio(a, b) * b <= a,
        spec_isqrt_ratio(a, b) < 60 ==> (spec_isqrt_ratio(a, b) + 1) * (spec_isqrt_ratio(a, b)
            + 1) * b > a,
{
    lemma_isqrt_from_char(a, b, 0);
}

fn isqrt_ratio(a: u32, b: u32) -> (r: u32)
    requires
        a <= 3300,
        b >= 1,
    ensures
        r as int == spec_isqrt_ratio(a as int, b as int),
        r <= 60,
{
    let mut r: u32 = 0;
    loop
        invariant
            a <= 3300,
            b >= 1,
            0 <= r <= 60,
            spec_isqrt_ratio(a as int, b as int) == spec_isqrt_from(a as int, b as int, r as int),
        ensures
            0 <= r <= 60,
            r as int == spec_isqrt_ratio(a as int, b as int),
        decreases 60 - r,
    {
        if r >= 60 {
            break;
        }
        proof {
            assert(((r + 1) as int) * ((r + 1) as int) <= 3721) by (nonlinear_arith)
                requires
                    r <= 60,
            ;
            assert(((r + 1) as int) * ((r + 1) as int) * (b as int) <= 3721 * 0xffff_ffffint)
                by (nonlinear_arith)
                requires
                    0 <= ((r + 1) as int) * ((r + 1) as int) <= 3721,
                    0 <= b <= 0xffff_ffff,
            ;
        }
        let rr = (r + 1) as u64;
        let next = rr * rr * (b as u64);
        if next > a as u64 {
            break;
        }
        r = r + 1;
    }
    r
}

/// The selection score of a child: its own score plus an exploration bonus
/// that grows with the parent's visits and shrinks with the child's.
pub open spec fn spec_ucb(reward: i64, value: i64, parent_n: u32, n: u32) -> int {
    reward + value + spec_isqrt_ratio((EXPLORATION * spec_log2p1(parent_n)) as int, n as int)
}

/// For a fixed reward and value and a fixed parent visit count, the
/// selection score falls as the child's visit count grows: the quantity
/// under the square root strictly shrinks as a fraction, and the rounded
/// score never rises.
pub proof fn lemma_ucb_decreases(reward: i64, value: i64, parent_n: u32, n1: u32, n2: u32)
    requires
        1 <= parent_n,
        1 <= n1 < n2,
    ensures
        (EXPLORATION * spec_log2p1(parent_n)) * n1 < (EXPLORATION * spec_log2p1(parent_n)) * n2,
        spec_ucb(reward, value, parent_n, n2) <= spec_ucb(reward, value, parent_n, n1),
{
    let a = (EXPLORATION * spec_log2p1(parent_n)) as int;
    assert(spec_log2p1(parent_n) >= 1);
    assert(a >= 100);
    assert(a * n1 < a * n2) by (nonlinear_arith)
        requires
            a >= 1,
            0 < n1 < n2,
    ;
    let r1 = spec_isqrt_ratio(a, n1 as int);
    let r2 = spec_isqrt_ratio(a, n2 as int);
    lemma_isqrt_char(a, n1 as int);
    lemma_isqrt_char(a, n2 as int);
    if r2 > r1 {
        assert(r1 < 60);
        assert((r1 + 1) * (r1 + 1) * n1 > a);
        assert(r2 * r2 * (n2 as int) <= a);
        assert((r1 + 1) * (r1 + 1) * n1 <= r2 * r2 * n1) by (nonlinear_arith)
            requires
                0 <= r1 + 1 <= r2,
                n1 >= 1,
        ;
        assert(r2 * r2 * n1 <= r2 * r2 * n2) by (nonlinear_arith)
            requires
                0 <= r2,
                0 < n1 < n2,
        ;
        assert(false);
    }
}

/// One node of the decision tree: a state, its evaluation, its visit count
/// and its materialized children, which it owns exclusively.
pub struct Node {
    pub state: State,
    pub evaluator: Evaluator,
    pub reward: i64,
    pub value: i64,
    pub n: u32,
    pub children: Vec<Node>,
    pub max_children_score: Option<i64>,
}

/// The one-node part of tree soundness: the visit count started at one,
/// the reward stays within the evaluator's bound, the value within the
/// range the discounted backup keeps stable, and the board is sound.
pub open spec fn node_local_wf(node: Node) -> bool {
    &&& node.n >= 1
    &&& -EVAL_BOUND <= node.reward <= EVAL_BOUND
    &&& -9 * (EVAL_BOUND as int) <= node.value <= 9 * (EVAL_BOUND as int)
    &&& node.state.board.wf()
    &&& (match node.max_children_score {
        Some(s) => -10 * (EVAL_BOUND as int) <= s <= 10 * (EVAL_BOUND as int),
        None => true,
    })
}

/// Structural soundness of a tree: every node is sound and no child has
/// been visited more often than its parent.
pub open spec fn node_wf(node: Node) -> bool
    decreases node,
{
    &&& node_local_wf(node)
    &&& (forall|i: int| 0 <= i < node.children.len() ==> (#[trigger] node.children@[i]).n <= node.n)
    &&& (forall|i: int|
        0 <= i < node.children.len() ==> spec_successor_ok((#[trigger] node.children@[i]).state))
    &&& (forall|i: int|
        0 <= i < node.children.len() ==> spec_is_reachable_successor(
            node.state,
            (#[trigger] node.children@[i]).state,
        ))
    &&& (forall|i: int| 0 <= i < node.children.len() ==> node_wf(#[trigger] node.children@[i]))
}

/// Soundness of a tree gives the one-node part for the node and each child.
pub proof fn lemma_node_wf_parts(node: Node)
    requires
        node_wf(node),
    ensures
        node_local_wf(node),
        forall|i: int|
            0 <= i < node.children.len() ==> node_wf(#[trigger] node.children@[i])
                && node_local_wf(node.children@[i]) && node.children@[i].n <= node.n
                && spec_successor_ok(node.children@[i].state) && spec_is_reachable_successor(
                node.state,
                node.children@[i].state,
            ),
{
    assert forall|i: int| 0 <= i < node.children.len() implies node_wf(
        #[trigger] node.children@[i],
    ) && node_local_wf(node.children@[i]) && node.children@[i].n <= node.n
        && spec_successor_ok(node.children@[i].state) && spec_is_reachable_successor(
        node.state,
        node.children@[i].state,
    ) by {
        assert(node_wf(node.children@[i]));
    }
}

/// Truncating division by ten, used by the discounted value backup.
pub open spec fn spec_div10(a: int) -> int {
    if a >= 0 {
        a / 10
    } else {
        -((-a) / 10)
    }
}

fn div10(a: i64) -> (r: i64)
    requires
        -0x7000_0000_0000_0000 <= a <= 0x7000_0000_0000_0000,
    ensures
        r == spec_div10(a as int),
        a >= 0 ==> 0 <= r && 10 * r <= a,
        a < 0 ==> r <= 0 && 10 * r >= a,
{
    if a >= 0 {
        a / 10
    } else {
        -((-a) / 10)
    }
}

impl Node {
    /// A fresh, unexpanded node: visited once, scored by the evaluator.
    pub fn new(evaluator: &Evaluator, state: State) -> (r: Node)
        requires
            state.board.wf(),
        ensures
            node_wf(r),
            r.n == 1,
            r.children@.len() == 0,
            r.state == state,
            r.evaluator == *evaluator,
            r.reward == spec_reward(*evaluator, state),
            exists|d1: int, d2: int|
                crate::evaluate::spec_two_deepest(state.board, d1, d2) && r.value
                    == crate::evaluate::spec_value(*evaluator, state, d1, d2),
            r.max_children_score is None,
    {
        let (reward, value) = evaluator.evaluate(&state);
        Node {
            evaluator: *evaluator,
            state,
            reward,
            value,
            n: 1,
            children: Vec::new(),
            max_children_score: None,
        }
    }

    /// The child's selection score against this node's visit count.
    pub fn ucb(&self, parent_n: u32) -> (r: i64)
        requires
            node_local_wf(*self),
        ensures
            r as int == spec_ucb(self.reward, self.value, parent_n, self.n),
    {
        let l = log2p1(parent_n);
        let a = EXPLORATION * l;
        let e = isqrt_ratio(a, self.n);
        self.reward + self.value + (e as i64)
    }

    /// The child with the best raw score, for the final decision: the first
    /// child attaining the maximal reward plus value, in creation order.
    pub fn best_child(&self) -> (r: Option<&Node>)
        requires
            node_wf(*self),
        ensures
            (self.children@.len() == 0) <==> (r is None),
            r matches Some(c) ==> exists|i: int|
                0 <= i < self.children@.len() && *c == self.children@[i] && (forall|j: int|
                    0 <= j < self.children@.len() ==> (#[trigger] self.children@[j]).reward
                        + self.children@[j].value <= c.reward + c.value) && (forall|j: int|
                    0 <= j < i ==> (#[trigger] self.children@[j]).reward + self.children@[j].value
                        < c.reward + c.value),
    {
        if self.children.len() == 0 {
            return None;
        }
        proof {
            lemma_node_wf_parts(*self);
        }
        let mut best: usize = 0;
        let mut best_score: i64 = self.children[0].reward + self.children[0].value;
        let mut i: usize = 1;
        while i < self.children.len()
            invariant
                node_wf(*self),
                forall|j: int|
                    0 <= j < self.children@.len() ==> node_local_wf(
                        #[trigger] self.children@[j],
                    ),
                0 <= best < i <= self.children@.len(),
                best_score == self.children@[best as int].reward
                    + self.children@[best as int].value,
                forall|j: int|
                    0 <= j < i ==> (#[trigger] self.children@[j]).reward + self.children@[j].value
                        <= best_score,
                forall|j: int|
                    0 <= j < best ==> (#[trigger] self.children@[j]).reward
                        + self.children@[j].value < best_score,
            decreases self.children@.len() - i,
        {
            let s = self.children[i].reward + self.children[i].value;
            if s > best_score {
                best = i;
                best_score = s;
            }
            i = i + 1;
        }
        Some(&self.children[best])
    }

    /// The index of the child the search descends into: the first child
    /// attaining the maximal selection score, in creation order.
    pub fn best_ucb_child(&self) -> (r: Option<usize>)
        requires
            node_wf(*self),
        ensures
            (self.children@.len() == 0) <==> (r is None),
            r matches Some(i) ==> 0 <= i < self.children@.len() && (forall|j: int|
                0 <= j < self.children@.len() ==> spec_ucb(
                    (#[trigger] self.children@[j]).reward,
                    self.children@[j].value,
                    self.n,
                    self.children@[j].n,
                ) <= spec_ucb(
                    self.children@[i as int].reward,
                    self.children@[i as int].value,
                    self.n,
                    self.children@[i as int].n,
                )) && (forall|j: int|
                0 <= j < i ==> spec_ucb(
                    (#[trigger] self.children@[j]).reward,
                    self.children@[j].value,
                    self.n,
                    self.children@[j].n,
                ) < spec_ucb(
                    self.children@[i as int].reward,
                    self.children@[i as int].value,
                    self.n,
                    self.children@[i as int].n,
                )),
    {
        if self.children.len() == 0 {
            return None;
        }
        proof {
            lemma_node_wf_parts(*self);
        }
        let mut best: usize = 0;
        let mut best_score: i64 = self.children[0].ucb(self.n);
        let mut i: usize = 1;
        while i < self.children.len()
            invariant
                node_wf(*self),
                forall|j: int|
                    0 <= j < self.children@.len() ==> node_local_wf(
                        #[trigger] self.children@[j],
                    ),
                0 <= best < i <= self.children@.len(),
                best_score as int == spec_ucb(
                    self.children@[best as int].reward,
                    self.children@[best as int].value,
                    self.n,
                    self.children@[best as int].n,
                ),
                forall|j: int|
                    0 <= j < i ==> spec_ucb(
                        (#[trigger] self.children@[j]).reward,
                        self.children@[j].value,
                        self.n,
                        self.children@[j].n,
                    ) <= best_score,
                forall|j: int|
                    0 <= j < best ==> spec_ucb(
                        (#[trigger] self.children@[j]).reward,
                        self.children@[j].value,
                        self.n,
                        self.children@[j].n,
                    ) < best_score,
            decreases self.children@.len() - i,
        {
            let s = self.children[i].ucb(self.n);
            if s > best_score {
                best = i;
                best_score = s;
            }
            i = i + 1;
        }
        Some(best)
    }

    /// Materializes one child per legal successor, each a fresh node whose
    /// state is a placement outcome of this node's state, evaluated once.
    fn expand(&mut self)
        requires
            node_wf(*old(self)),
        ensures
            node_wf(*final(self)),
            final(self).state == old(self).state,
            final(self).evaluator == old(self).evaluator,
            final(self).reward == old(self).reward,
            final(self).value == old(self).value,
            final(self).n == old(self).n,
            final(self).children@.len() >= old(self).children@.len(),
            final(self).children@.take(old(self).children@.len() as int) == old(self).children@,
            forall|i: int|
                old(self).children@.len() <= i < final(self).children@.len() ==> {
                    let child = #[trigger] final(self).children@[i];
                    &&& child.n == 1
                    &&& child.children@.len() == 0
                    &&& child.evaluator == old(self).evaluator
                    &&& child.reward == crate::evaluate::spec_reward(
                        old(self).evaluator,
                        child.state,
                    )
                    &&& spec_successor_ok(child.state)
                    &&& spec_is_reachable_successor(old(self).state, child.state)
                },
            (old(self).children@.len() == 0 && spec_alive(old(self).state))
                ==> final(self).children@.len() >= 1,
            !spec_alive(old(self).state)
                ==> final(self).children@.len() == old(self).children@.len(),
    {
        let mut actions = self.state.legal_actions();
        let ghost total = actions@.len() as int;
        while actions.len() > 0
            invariant
                node_wf(*self),
                self.state == old(self).state,
                self.evaluator == old(self).evaluator,
                self.reward == old(self).reward,
                self.value == old(self).value,
                self.n == old(self).n,
                forall|i: int|
                    0 <= i < actions@.len() ==> spec_successor_ok(#[trigger] actions@[i]),
                forall|i: int|
                    0 <= i < actions@.len() ==> spec_is_reachable_successor(
                        old(self).state,
                        #[trigger] actions@[i],
                    ),
                self.children@.len() == old(self).children@.len() + (total - actions@.len()),
                actions@.len() <= total,
                self.children@.take(old(self).children@.len() as int) == old(self).children@,
                forall|i: int|
                    old(self).children@.len() <= i < self.children@.len() ==> {
                        let child = #[trigger] self.children@[i];
                        &&& child.n == 1
                        &&& child.children@.len() == 0
                        &&& child.evaluator == old(self).evaluator
                        &&& child.reward == crate::evaluate::spec_reward(
                            old(self).evaluator,
                            child.state,
                        )
                        &&& spec_successor_ok(child.state)
                        &&& spec_is_reachable_successor(old(self).state, child.state)
                    },
            decreases actions@.len(),
        {
            let action = actions.remove(0);
            let child = Node::new(&self.evaluator, action);
            let score = child.reward + child.value;
            let cur: i64 = match self.max_children_score {
                None => score,
                Some(m) => if score > m {
                    score
                } else {
                    m
                },
            };
            self.children.push(child);
            self.max_children_score = Some(cur);
        }
    }

    /// One search iteration: a permanently childless node just reports its
    /// score; an unvisited node expands and backs up its best child's score;
    /// otherwise the search descends into the child with the best selection
    /// score. Either way the node's value moves a step toward the discounted
    /// backup and, unless the node was a permanent leaf, its visit count
    /// grows by exactly one.
    pub fn search(&mut self) -> (r: i64)
        requires
            node_wf(*old(self)),
            old(self).n < u32::MAX,
        ensures
            node_wf(*final(self)),
            final(self).state == old(self).state,
            final(self).evaluator == old(self).evaluator,
            final(self).reward == old(self).reward,
            final(self).children@.len() >= old(self).children@.len(),
            (old(self).n > 1 && old(self).children@.len() == 0) ==> *final(self) == *old(self),
            !(old(self).n > 1 && old(self).children@.len() == 0) ==> final(self).n == old(self).n
                + 1,
            !(old(self).n > 1 && old(self).children@.len() == 0)
                ==> (final(self).max_children_score matches Some(mcs) && final(self).value
                == spec_div10(old(self).value * 9 + spec_div10(mcs * 9))),
            (old(self).children@.len() == 0 && old(self).n == 1 && spec_alive(old(self).state))
                ==> final(self).children@.len() >= 1,
            !spec_alive(old(self).state)
                ==> final(self).children@.len() == old(self).children@.len(),
            r == final(self).reward + final(self).value,
            -10 * (EVAL_BOUND as int) <= r <= 10 * (EVAL_BOUND as int),
        decreases *self,
    {
        if self.n > 1 && self.children.len() == 0 {
            return self.reward + self.value;
        }

        let backup: i64;
        if self.children.len() == 0 {
            self.expand();
            proof {
                lemma_node_wf_parts(*self);
            }
            if self.children.len() == 0 {
                backup = self.reward + self.value;
            } else {
                let mut mx: i64 = self.children[0].reward + self.children[0].value;
                let mut i: usize = 1;
                while i < self.children.len()
                    invariant
                        node_wf(*self),
                        forall|j: int|
                            0 <= j < self.children@.len() ==> node_local_wf(
                                #[trigger] self.children@[j],
                            ),
                        1 <= i <= self.children@.len(),
                        -10 * (EVAL_BOUND as int) <= mx <= 10 * (EVAL_BOUND as int),
                    decreases self.children@.len() - i,
                {
                    let s = self.children[i].reward + self.children[i].value;
                    if s > mx {
                        mx = s;
                    }
                    i = i + 1;
                }
                backup = mx;
            }
        } else {
            let i = self.best_ucb_child().unwrap();
            let mut child = self.children.remove(i);
            proof {
                assert(child == old(self).children@[i as int]);
                assert(decreases_to!(*old(self) => child));
            }
            let s = child.search();
            self.children.insert(i, child);
            backup = s;
        }

        let cur: i64 = match self.max_children_score {
            None => backup,
            Some(m) => if backup > m {
                backup
            } else {
                m
            },
        };
        self.max_children_score = Some(cur);
        let discounted = div10(cur * 9);
        self.value = div10(self.value * 9 + discounted);
        self.n = self.n + 1;
        self.reward + self.value
    }
}

} // verus!
