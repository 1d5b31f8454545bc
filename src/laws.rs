use crate::model::{in_bounds, MazeModel, END_TURN};
use vstd::prelude::*;

verus! {

/// Every move listed among the first `n` is legal and below `n`.
pub proof fn lemma_legal_upto(m: MazeModel, n: int)
    requires
        0 <= n,
    ensures
        forall|i: int|
            0 <= i < m.legal_upto(n).len() ==> m.is_legal(#[trigger] m.legal_upto(n)[i] as int)
                && m.legal_upto(n)[i] < n,
    decreases n,
{
    if n > 0 {
        lemma_legal_upto(m, n - 1);
        let prev = m.legal_upto(n - 1);
        if m.is_legal(n - 1) {
            assert forall|i: int| 0 <= i < prev.len() implies #[trigger] prev.push(
                (n - 1) as usize,
            )[i] == prev[i] by {}
        }
    }
}

/// Every move that the enumerator lists lands inside the grid.
pub proof fn lemma_enumerated_moves_in_bounds(m: MazeModel)
    ensures
        forall|i: int|
            0 <= i < m.legal_moves().len() ==> {
                let a = #[trigger] m.legal_moves()[i] as int;
                &&& 0 <= a < 4
                &&& in_bounds(m.target_x(a), m.target_y(a))
            },
{
    lemma_legal_upto(m, 4);
}

/// On a well-formed grid the agent always has at least two legal moves.
pub proof fn lemma_has_moves(m: MazeModel)
    requires
        m.wf(),
    ensures
        m.legal_moves().len() >= 2,
{
    reveal_with_fuel(MazeModel::legal_upto, 5);
}

/// A legal move from a state that is not over advances the turn by one,
/// adds the target's reward to the score, and changes no cell but the
/// target, which goes from positive to 0 or stays 0.
pub proof fn lemma_transition(m: MazeModel, a: int)
    requires
        m.wf(),
        !m.is_done(),
        m.is_legal(a),
    ensures
        m.step(a).wf(),
        m.step(a).turn == m.turn + 1,
        m.step(a).score == m.score + m.gain(a),
        m.step(a).score >= m.score,
        m.step(a).x == m.target_x(a) && m.step(a).y == m.target_y(a),
        m.step(a).cell(m.target_x(a), m.target_y(a)) == 0,
        m.cell(m.target_x(a), m.target_y(a)) > 0 || m.step(a).grid == m.grid,
        forall|x: int, y: int|
            in_bounds(x, y) && (x != m.target_x(a) || y != m.target_y(a)) ==> #[trigger] m.step(
                a,
            ).cell(x, y) == m.cell(x, y),
{
    let s = m.step(a);
    assert forall|i: int| 0 <= i < crate::model::H implies (#[trigger] s.grid[i]).len()
        == crate::model::W by {
        assert(m.grid[i].len() == crate::model::W);
    }
    if m.cell(m.target_x(a), m.target_y(a)) == 0 {
        assert(s.grid =~~= m.grid);
    }
}

/// A reward is collected once: after a move collects at a cell, a move away
/// and a move back onto that cell add nothing to the score.
pub proof fn lemma_collect_once(m: MazeModel, a: int, b: int, c: int)
    requires
        m.wf(),
        m.turn + 3 <= END_TURN,
        m.is_legal(a),
        m.step(a).is_legal(b),
        m.step(a).step(b).is_legal(c),
        m.step(a).step(b).target_x(c) == m.target_x(a),
        m.step(a).step(b).target_y(c) == m.target_y(a),
    ensures
        m.step(a).step(b).step(c).score == m.step(a).step(b).score,
{
    let m1 = m.step(a);
    lemma_transition(m, a);
    lemma_transition(m1, b);
    assert(m1.target_x(b) != m.target_x(a) || m1.target_y(b) != m.target_y(a));
}

/// At most one index satisfies the greedy choice.
pub proof fn lemma_greedy_index_unique(m: MazeModel, i: int, k: int)
    requires
        m.is_greedy_index(i),
        m.is_greedy_index(k),
    ensures
        i == k,
{
    let moves = m.legal_moves();
    if i < k {
        assert(m.gain(moves[i] as int) < m.gain(moves[k] as int));
        assert(m.gain(moves[k] as int) <= m.gain(moves[i] as int));
    } else if k < i {
        assert(m.gain(moves[k] as int) < m.gain(moves[i] as int));
        assert(m.gain(moves[i] as int) <= m.gain(moves[k] as int));
    }
}

/// Legal play keeps a state well formed: every state reached from a
/// well-formed one has its turn within `0..=END_TURN`, the agent on the grid,
/// and one more turn for each move played.
pub proof fn lemma_reachable_wf(m: MazeModel, moves: Seq<int>)
    requires
        m.wf(),
        m.plays_legally(moves),
    ensures
        m.play_moves(moves).wf(),
        0 <= m.play_moves(moves).turn <= END_TURN,
        m.play_moves(moves).turn == m.turn + moves.len(),
    decreases moves.len(),
{
    if moves.len() > 0 {
        lemma_transition(m, moves[0]);
        lemma_reachable_wf(m.step(moves[0]), moves.drop_first());
    }
}

} // verus!
