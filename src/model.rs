use vstd::prelude::*;

verus! {

/// Number of rows of the grid.
pub const H: usize = 3;

/// Number of columns of the grid.
pub const W: usize = 4;

/// The turn at which a game is over.
pub const END_TURN: u32 = 4;

/// Rewards placed by the generator lie in `0..MAX_REWARD`.
pub const MAX_REWARD: u32 = 10;

/// The abstract value of a game state.
pub struct MazeModel {
    /// Rewards left on the grid, indexed `grid[y][x]`.
    pub grid: Seq<Seq<u32>>,
    pub turn: int,
    /// Column of the agent.
    pub x: int,
    /// Row of the agent.
    pub y: int,
    /// Sum of the rewards collected so far.
    pub score: int,
}

pub open spec fn in_bounds(x: int, y: int) -> bool {
    0 <= x < W && 0 <= y < H
}

/// Column offset of a move: `+x`, `+y`, `-x`, `-y` for moves `0..4`.
pub open spec fn dx(a: int) -> int {
    if a == 0 {
        1
    } else if a == 2 {
        -1
    } else {
        0
    }
}

/// Row offset of a move: `+x`, `+y`, `-x`, `-y` for moves `0..4`.
pub open spec fn dy(a: int) -> int {
    if a == 1 {
        1
    } else if a == 3 {
        -1
    } else {
        0
    }
}

/// Row-major position, among the rewards drawn by the generator, of cell
/// `(i, j)` when the agent stands on `(x, y)` (whose cell draws nothing).
pub open spec fn draw_index(x: int, y: int, i: int, j: int) -> int {
    let k = i * W + j;
    if k < y * W + x {
        k
    } else {
        k - 1
    }
}

/// The state built from an agent position and the rewards of the other cells.
pub open spec fn generated(x: int, y: int, draws: Seq<u32>) -> MazeModel {
    MazeModel {
        grid: Seq::new(
            H as nat,
            |i: int|
                Seq::new(
                    W as nat,
                    |j: int|
                        if i == y && j == x {
                            0u32
                        } else {
                            draws[draw_index(x, y, i, j)]
                        },
                ),
        ),
        turn: 0,
        x,
        y,
        score: 0,
    }
}

impl MazeModel {
    pub open spec fn wf(self) -> bool {
        &&& self.grid.len() == H
        &&& forall|i: int| 0 <= i < H ==> (#[trigger] self.grid[i]).len() == W
        &&& 0 <= self.turn <= END_TURN
        &&& in_bounds(self.x, self.y)
        &&& 0 <= self.score <= self.turn * (u32::MAX as int)
    }

    pub open spec fn is_done(self) -> bool {
        self.turn == END_TURN
    }

    pub open spec fn cell(self, x: int, y: int) -> int {
        self.grid[y][x] as int
    }

    pub open spec fn target_x(self, a: int) -> int {
        self.x + dx(a)
    }

    pub open spec fn target_y(self, a: int) -> int {
        self.y + dy(a)
    }

    /// Move `a` is one of the four directions and stays on the grid.
    pub open spec fn is_legal(self, a: int) -> bool {
        0 <= a < 4 && in_bounds(self.target_x(a), self.target_y(a))
    }

    /// The legal moves among `0..n`, in increasing order.
    pub open spec fn legal_upto(self, n: int) -> Seq<usize>
        decreases n,
    {
        if n <= 0 {
            seq![]
        } else {
            let prev = self.legal_upto(n - 1);
            if self.is_legal(n - 1) {
                prev.push((n - 1) as usize)
            } else {
                prev
            }
        }
    }

    /// The legal moves, in the order `+x`, `+y`, `-x`, `-y`.
    pub open spec fn legal_moves(self) -> Seq<usize> {
        self.legal_upto(4)
    }

    /// The reward on the cell that move `a` lands on.
    pub open spec fn gain(self, a: int) -> int {
        self.cell(self.target_x(a), self.target_y(a))
    }

    /// One turn: move, collect the reward of the target cell, which becomes 0.
    pub open spec fn step(self, a: int) -> MazeModel {
        let tx = self.target_x(a);
        let ty = self.target_y(a);
        MazeModel {
            grid: self.grid.update(ty, self.grid[ty].update(tx, 0u32)),
            turn: self.turn + 1,
            x: tx,
            y: ty,
            score: self.score + self.gain(a),
        }
    }

    /// `legal_moves()[i]` gains the most of all legal moves, and strictly
    /// more than every legal move before it.
    pub open spec fn is_greedy_index(self, i: int) -> bool {
        let moves = self.legal_moves();
        &&& 0 <= i < moves.len()
        &&& forall|j: int|
            0 <= j < moves.len() ==> self.gain(#[trigger] moves[j] as int) <= self.gain(
                moves[i] as int,
            )
        &&& forall|j: int|
            0 <= j < i ==> self.gain(#[trigger] moves[j] as int) < self.gain(moves[i] as int)
    }

    /// The move that the greedy policy picks.
    pub open spec fn greedy_move(self) -> int {
        self.legal_moves()[choose|i: int| self.is_greedy_index(i)] as int
    }

    /// The states of a greedy game from this one to the end, both included.
    pub open spec fn greedy_trace(self) -> Seq<MazeModel>
        decreases END_TURN - self.turn,
    {
        if self.turn >= END_TURN {
            seq![self]
        } else {
            seq![self] + self.step(self.greedy_move()).greedy_trace()
        }
    }

    /// The state reached by playing `moves` in order.
    pub open spec fn play_moves(self, moves: Seq<int>) -> MazeModel
        decreases moves.len(),
    {
        if moves.len() == 0 {
            self
        } else {
            self.step(moves[0]).play_moves(moves.drop_first())
        }
    }

    /// Each of `moves` is legal where it is played, before the game is over.
    pub open spec fn plays_legally(self, moves: Seq<int>) -> bool
        decreases moves.len(),
    {
        moves.len() == 0 || (!self.is_done() && self.is_legal(moves[0]) && self.step(
            moves[0],
        ).plays_legally(moves.drop_first()))
    }
}

} // verus!
