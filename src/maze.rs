use crate::coord::Coord;
use crate::laws::{lemma_greedy_index_unique, lemma_has_moves, lemma_legal_upto, lemma_transition};
use crate::random::random_below;
use crate::model::{generated, in_bounds, MazeModel, END_TURN, H, MAX_REWARD, W};
use vstd::prelude::*;

verus! {

/// A game in progress: rewards left, turn, agent position and score.
#[derive(Clone, Debug, PartialEq, Eq)]
pub struct MazeState {
    points: Vec<Vec<u32>>,
    turn: u32,
    character: Coord,
    game_score: u64,
}

impl View for MazeState {
    type V = MazeModel;

    closed spec fn view(&self) -> MazeModel {
        MazeModel {
            grid: self.points@.map_values(|r: Vec<u32>| r@),
            turn: self.turn as int,
            x: self.character.x as int,
            y: self.character.y as int,
            score: self.game_score as int,
        }
    }
}

/// Why a move was refused.
#[derive(Clone, Copy, Debug, PartialEq, Eq, Structural)]
pub enum GameError {
    /// The move is not one of the four directions, or leaves the grid.
    InvalidMove,
}

impl MazeState {
    /// A game at turn 0 with score 0 on the given rewards, with the agent on
    /// `character`.
    pub fn from_grid(points: Vec<Vec<u32>>, character: Coord) -> (r: Self)
        requires
            points@.len() == H,
            forall|i: int| 0 <= i < H ==> (#[trigger] points@[i])@.len() == W,
            in_bounds(character.x as int, character.y as int),
        ensures
            r@ == (MazeModel {
                grid: points@.map_values(|row: Vec<u32>| row@),
                turn: 0,
                x: character.x as int,
                y: character.y as int,
                score: 0,
            }),
            r@.wf(),
    {
        MazeState { points, turn: 0, character, game_score: 0 }
    }

    /// A fresh game with the agent on `character`, its cell empty, and the
    /// other cells taking `draws` in row-major order.
    pub fn from_draws(character: Coord, draws: &Vec<u32>) -> (r: Self)
        requires
            in_bounds(character.x as int, character.y as int),
            draws@.len() == H * W - 1,
        ensures
            r@ == generated(character.x as int, character.y as int, draws@),
            r@.wf(),
    {
        let ghost g = generated(character.x as int, character.y as int, draws@);
        let ak: usize = character.y * W + character.x;
        let mut points: Vec<Vec<u32>> = Vec::new();
        let mut i: usize = 0;
        while i < H
            invariant
                0 <= i <= H,
                ak == character.y * W + character.x,
                in_bounds(character.x as int, character.y as int),
                draws@.len() == H * W - 1,
                g == generated(character.x as int, character.y as int, draws@),
                points@.len() == i,
                forall|ii: int| 0 <= ii < i ==> (#[trigger] points@[ii])@ == g.grid[ii],
            decreases H - i,
        {
            let mut row: Vec<u32> = Vec::new();
            let mut j: usize = 0;
            while j < W
                invariant
                    0 <= i < H,
                    0 <= j <= W,
                    ak == character.y * W + character.x,
                    in_bounds(character.x as int, character.y as int),
                    draws@.len() == H * W - 1,
                    g == generated(character.x as int, character.y as int, draws@),
                    row@.len() == j,
                    forall|jj: int| 0 <= jj < j ==> row@[jj] == g.grid[i as int][jj],
                decreases W - j,
            {
                if i == character.y && j == character.x {
                    row.push(0);
                } else {
                    let k: usize = i * W + j;
                    let idx: usize = if k < ak {
                        k
                    } else {
                        k - 1
                    };
                    row.push(draws[idx]);
                }
                j += 1;
            }
            assert(row@ =~= g.grid[i as int]);
            points.push(row);
            i += 1;
        }
        assert(points@.map_values(|r: Vec<u32>| r@) =~= g.grid);
        MazeState { points, turn: 0, character, game_score: 0 }
    }

    /// An independent copy: it shares no storage with `self`.
    pub fn duplicate(&self) -> (r: Self)
        ensures
            r@ == self@,
    {
        let mut points: Vec<Vec<u32>> = Vec::new();
        let mut i: usize = 0;
        while i < self.points.len()
            invariant
                0 <= i <= self.points@.len(),
                points@.len() == i,
                forall|ii: int| 0 <= ii < i ==> (#[trigger] points@[ii])@ == self.points@[ii]@,
            decreases self.points@.len() - i,
        {
            let src = &self.points[i];
            let mut row: Vec<u32> = Vec::new();
            let mut j: usize = 0;
            while j < src.len()
                invariant
                    0 <= j <= src@.len(),
                    row@ == src@.subrange(0, j as int),
                decreases src@.len() - j,
            {
                row.push(src[j]);
                j += 1;
            }
            assert(row@ =~= src@);
            points.push(row);
            i += 1;
        }
        assert(points@.map_values(|r: Vec<u32>| r@) =~= self.points@.map_values(|r: Vec<u32>| r@));
        MazeState {
            points,
            turn: self.turn,
            character: self.character,
            game_score: self.game_score,
        }
    }

    pub fn is_done(&self) -> (r: bool)
        ensures
            r == self@.is_done(),
    {
        self.turn == END_TURN
    }

    /// Whether `action` is one of the four directions and stays on the grid.
    pub fn is_legal_move(&self, action: usize) -> (r: bool)
        requires
            self@.wf(),
        ensures
            r == self@.is_legal(action as int),
    {
        let x = self.character.x;
        let y = self.character.y;
        if action == 0 {
            x + 1 < W
        } else if action == 1 {
            y + 1 < H
        } else if action == 2 {
            x > 0
        } else if action == 3 {
            y > 0
        } else {
            false
        }
    }

    /// The legal moves, in the order `+x`, `+y`, `-x`, `-y`.
    pub fn legal_action(&self) -> (r: Vec<usize>)
        requires
            self@.wf(),
        ensures
            r@ == self@.legal_moves(),
    {
        let mut actions: Vec<usize> = Vec::new();
        let mut i: usize = 0;
        while i < 4
            invariant
                0 <= i <= 4,
                self@.wf(),
                actions@ == self@.legal_upto(i as int),
            decreases 4 - i,
        {
            if self.is_legal_move(i) {
                actions.push(i);
            }
            i += 1;
        }
        actions
    }

    /// The cell that a legal move lands on, as `(x, y)`.
    fn target(&self, action: usize) -> (r: (usize, usize))
        requires
            self@.wf(),
            self@.is_legal(action as int),
        ensures
            r.0 == self@.target_x(action as int),
            r.1 == self@.target_y(action as int),
    {
        let x = self.character.x;
        let y = self.character.y;
        if action == 0 {
            (x + 1, y)
        } else if action == 1 {
            (x, y + 1)
        } else if action == 2 {
            (x - 1, y)
        } else {
            (x, y - 1)
        }
    }

    /// Plays one legal move: the agent moves, collects the reward of its new
    /// cell, which becomes empty, and the turn advances.
    pub fn advance(&mut self, action: usize)
        requires
            old(self)@.wf(),
            !old(self)@.is_done(),
            old(self)@.is_legal(action as int),
        ensures
            final(self)@ == old(self)@.step(action as int),
            final(self)@.wf(),
    {
        proof {
            lemma_transition(self@, action as int);
        }
        let (nx, ny) = self.target(action);
        let point = self.points[ny][nx];
        if point > 0 {
            self.game_score = self.game_score + point as u64;
            self.points[ny][nx] = 0;
        }
        self.character = Coord::new(nx, ny);
        self.turn = self.turn + 1;
        assert(self@.grid =~~= old(self)@.step(action as int).grid);
    }

    /// Plays `action` if it is legal; refuses it, leaving the state as it
    /// was, if it is not.
    pub fn try_advance(&mut self, action: usize) -> (r: Result<(), GameError>)
        requires
            old(self)@.wf(),
            !old(self)@.is_done(),
        ensures
            old(self)@.is_legal(action as int) ==> r is Ok && final(self)@ == old(self)@.step(
                action as int,
            ),
            !old(self)@.is_legal(action as int) ==> r == Err::<(), GameError>(
                GameError::InvalidMove,
            ) && final(self)@ == old(self)@,
    {
        if self.is_legal_move(action) {
            self.advance(action);
            Ok(())
        } else {
            Err(GameError::InvalidMove)
        }
    }

    /// The greedy policy: simulates every legal move on a copy of the state
    /// and picks the one that ends with the highest score. Ties go to the
    /// first move in the order `+x`, `+y`, `-x`, `-y`; when no move gains
    /// anything, the first legal move is picked, never an illegal default.
    pub fn greedy_action(&self) -> (r: usize)
        requires
            self@.wf(),
            !self@.is_done(),
        ensures
            exists|i: int| self@.is_greedy_index(i) && self@.legal_moves()[i] == r,
            r as int == self@.greedy_move(),
            self@.is_legal(r as int),
    {
        let legal_actions = self.legal_action();
        proof {
            lemma_has_moves(self@);
            lemma_legal_upto(self@, 4);
        }
        let ghost moves = self@.legal_moves();
        let ghost base = self@.score;
        let mut best_score: u64 = self.game_score;
        let mut best_action: usize = legal_actions[0];
        let ghost mut k: int = 0;
        let mut i: usize = 0;
        while i < legal_actions.len()
            invariant
                self@.wf(),
                !self@.is_done(),
                moves == self@.legal_moves(),
                base == self@.score,
                legal_actions@ == moves,
                moves.len() >= 2,
                forall|j: int| 0 <= j < moves.len() ==> self@.is_legal(#[trigger] moves[j] as int),
                0 <= i <= moves.len(),
                0 <= k < moves.len(),
                k < i || k == 0,
                best_action == moves[k],
                best_score >= base,
                i == 0 ==> best_score == base,
                k < i ==> self@.gain(moves[k] as int) == best_score - base,
                forall|j: int| 0 <= j < i ==> self@.gain(#[trigger] moves[j] as int) <= best_score - base,
                forall|j: int| 0 <= j < k ==> self@.gain(#[trigger] moves[j] as int) < best_score - base,
            decreases moves.len() - i,
        {
            let action = legal_actions[i];
            let mut now_state = self.duplicate();
            now_state.advance(action);
            if now_state.game_score > best_score {
                best_score = now_state.game_score;
                best_action = action;
                proof {
                    k = i as int;
                }
            }
            i += 1;
        }
        proof {
            assert(self@.is_greedy_index(k));
            lemma_greedy_index_unique(self@, k, choose|i: int| self@.is_greedy_index(i));
        }
        best_action
    }

    /// The random policy: one of the legal moves, drawn uniformly.
    pub fn random_action(&self) -> (r: usize)
        requires
            self@.wf(),
        ensures
            self@.legal_moves().contains(r),
            self@.is_legal(r as int),
    {
        let legal_actions = self.legal_action();
        proof {
            lemma_has_moves(self@);
            lemma_legal_upto(self@, 4);
        }
        let m = random_below(legal_actions.len());
        let r = legal_actions[m];
        assert(self@.legal_moves()[m as int] == r);
        r
    }

    /// A fresh random game: the agent on a uniformly drawn cell, which is
    /// empty, and every other cell holding a reward drawn uniformly from
    /// `0..MAX_REWARD`.
    pub fn new() -> (r: Self)
        ensures
            r@.wf(),
            r@.turn == 0,
            r@.score == 0,
            r@.cell(r@.x, r@.y) == 0,
            forall|x: int, y: int| in_bounds(x, y) ==> 0 <= #[trigger] r@.cell(x, y) < MAX_REWARD,
    {
        let x = random_below(W);
        let y = random_below(H);
        let mut draws: Vec<u32> = Vec::new();
        let mut n: usize = 0;
        while n < H * W - 1
            invariant
                0 <= n <= H * W - 1,
                draws@.len() == n,
                forall|k: int| 0 <= k < n ==> #[trigger] draws@[k] < MAX_REWARD,
            decreases H * W - 1 - n,
        {
            let v = random_below(MAX_REWARD as usize);
            draws.push(v as u32);
            n += 1;
        }
        let r = Self::from_draws(Coord::new(x, y), &draws);
        assert forall|cx: int, cy: int| in_bounds(cx, cy) implies 0 <= #[trigger] r@.cell(cx, cy)
            < MAX_REWARD by {
            if cx != x || cy != y {
                let d = crate::model::draw_index(x as int, y as int, cy, cx);
                assert(0 <= d < H * W - 1);
            }
        }
        r
    }

    /// Plays greedy moves until the game is over. Returns every state met,
    /// from the first to the last.
    pub fn play_game(&mut self) -> (trace: Vec<MazeState>)
        requires
            old(self)@.wf(),
        ensures
            trace@.map_values(|s: MazeState| s@) == old(self)@.greedy_trace(),
            final(self)@ == old(self)@.greedy_trace().last(),
            final(self)@.is_done(),
            final(self)@.wf(),
    {
        let ghost start = self@;
        let mut trace: Vec<MazeState> = Vec::new();
        while !self.is_done()
            invariant
                self@.wf(),
                start.greedy_trace() == trace@.map_values(|s: MazeState| s@) + self@.greedy_trace(),
            decreases END_TURN - self@.turn,
        {
            let ghost seen = trace@.map_values(|s: MazeState| s@);
            let ghost before = self@;
            trace.push(self.duplicate());
            assert(trace@.map_values(|s: MazeState| s@) =~= seen.push(before));
            let action = self.greedy_action();
            self.advance(action);
            assert(before.greedy_trace() == seq![before] + self@.greedy_trace());
            assert(start.greedy_trace() =~= trace@.map_values(|s: MazeState| s@)
                + self@.greedy_trace());
        }
        let ghost seen = trace@.map_values(|s: MazeState| s@);
        trace.push(self.duplicate());
        assert(trace@.map_values(|s: MazeState| s@) =~= seen.push(self@));
        assert(self@.greedy_trace() == seq![self@]);
        assert(trace@.map_values(|s: MazeState| s@) =~= start.greedy_trace());
        trace
    }

    pub fn turn(&self) -> (r: u32)
        ensures
            r == self@.turn,
    {
        self.turn
    }

    pub fn score(&self) -> (r: u64)
        ensures
            r == self@.score,
    {
        self.game_score
    }

    pub fn character(&self) -> (r: Coord)
        ensures
            r.x == self@.x,
            r.y == self@.y,
    {
        self.character
    }

    /// The reward left on cell `(x, y)`.
    pub fn reward_at(&self, x: usize, y: usize) -> (r: u32)
        requires
            self@.wf(),
            in_bounds(x as int, y as int),
        ensures
            r == self@.cell(x as int, y as int),
    {
        assert(self.points@[y as int]@ == self@.grid[y as int]);
        self.points[y][x]
    }
}

} // verus!
