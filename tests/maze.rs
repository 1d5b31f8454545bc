use maze_greedy::{Coord, GameError, MazeState, END_TURN, H, MAX_REWARD, W};

fn empty_grid() -> Vec<Vec<u32>> {
    vec![vec![0; W]; H]
}

fn grid_with(cells: &[(usize, usize, u32)]) -> Vec<Vec<u32>> {
    let mut g = empty_grid();
    for &(x, y, v) in cells {
        g[y][x] = v;
    }
    g
}

fn rewards(s: &MazeState) -> Vec<Vec<u32>> {
    let mut g = empty_grid();
    for y in 0..H {
        for x in 0..W {
            g[y][x] = s.reward_at(x, y);
        }
    }
    g
}

#[test]
fn coord_new_keeps_fields() {
    let c = Coord::new(3, 1);
    assert_eq!(c.x, 3);
    assert_eq!(c.y, 1);
}

#[test]
fn legal_moves_at_corners_and_centre() {
    let s = MazeState::from_grid(empty_grid(), Coord::new(0, 0));
    assert_eq!(s.legal_action(), vec![0, 1]);
    let s = MazeState::from_grid(empty_grid(), Coord::new(3, 2));
    assert_eq!(s.legal_action(), vec![2, 3]);
    let s = MazeState::from_grid(empty_grid(), Coord::new(1, 1));
    assert_eq!(s.legal_action(), vec![0, 1, 2, 3]);
    let s = MazeState::from_grid(empty_grid(), Coord::new(3, 0));
    assert_eq!(s.legal_action(), vec![1, 2]);
}

#[test]
fn every_listed_move_stays_on_grid() {
    for y in 0..H {
        for x in 0..W {
            let s = MazeState::from_grid(empty_grid(), Coord::new(x, y));
            for a in s.legal_action() {
                let mut t = s.clone();
                assert_eq!(t.try_advance(a), Ok(()));
                let c = t.character();
                assert!(c.x < W && c.y < H);
            }
        }
    }
}

#[test]
fn advance_collects_reward_once() {
    let mut s = MazeState::from_grid(grid_with(&[(1, 0, 5), (2, 2, 3)]), Coord::new(0, 0));
    s.advance(0);
    assert_eq!(s.turn(), 1);
    assert_eq!(s.score(), 5);
    assert_eq!(s.reward_at(1, 0), 0);
    assert_eq!(s.reward_at(2, 2), 3);
    assert_eq!(s.character(), Coord::new(1, 0));
    s.advance(2);
    assert_eq!(s.score(), 5);
    s.advance(0);
    assert_eq!(s.score(), 5);
    assert_eq!(s.turn(), 3);
}

#[test]
fn advance_changes_only_the_target_cell() {
    let g = vec![vec![1, 2, 3, 4], vec![5, 6, 7, 8], vec![9, 1, 2, 3]];
    let before = MazeState::from_grid(g.clone(), Coord::new(1, 1));
    let mut s = before.clone();
    s.advance(1);
    let after = rewards(&s);
    for y in 0..H {
        for x in 0..W {
            if (x, y) == (1, 2) {
                assert_eq!(after[y][x], 0);
            } else {
                assert_eq!(after[y][x], g[y][x]);
            }
        }
    }
    assert_eq!(s.score(), before.score() + 1);
    assert_eq!(s.turn(), before.turn() + 1);
}

#[test]
fn try_advance_refuses_invalid_moves() {
    let mut s = MazeState::from_grid(grid_with(&[(1, 0, 5)]), Coord::new(0, 0));
    let before = s.clone();
    assert_eq!(s.try_advance(2), Err(GameError::InvalidMove));
    assert_eq!(s, before);
    assert_eq!(s.try_advance(3), Err(GameError::InvalidMove));
    assert_eq!(s.try_advance(7), Err(GameError::InvalidMove));
    assert_eq!(s, before);
    assert_eq!(s.try_advance(0), Ok(()));
    assert_eq!(s.score(), 5);
}

#[test]
fn is_done_exactly_at_end_turn() {
    let mut s = MazeState::from_grid(empty_grid(), Coord::new(0, 0));
    for t in 0..END_TURN {
        assert_eq!(s.turn(), t);
        assert!(!s.is_done());
        let a = s.legal_action()[0];
        s.advance(a);
    }
    assert_eq!(s.turn(), END_TURN);
    assert!(s.is_done());
}

#[test]
fn greedy_picks_highest_gain() {
    let s = MazeState::from_grid(grid_with(&[(0, 1, 9), (2, 1, 3), (1, 2, 4)]), Coord::new(1, 1));
    assert_eq!(s.greedy_action(), 2);
}

#[test]
fn greedy_breaks_ties_in_direction_order() {
    let s = MazeState::from_grid(grid_with(&[(2, 1, 5), (1, 2, 5), (0, 1, 5)]), Coord::new(1, 1));
    assert_eq!(s.greedy_action(), 0);
    let s = MazeState::from_grid(grid_with(&[(1, 2, 6), (1, 0, 6)]), Coord::new(1, 1));
    assert_eq!(s.greedy_action(), 1);
}

#[test]
fn greedy_defaults_to_first_legal_move() {
    // From the top-right corner +x is illegal; with nothing to gain the
    // first legal move (+y) is chosen.
    let s = MazeState::from_grid(empty_grid(), Coord::new(3, 0));
    assert_eq!(s.greedy_action(), 1);
    let s = MazeState::from_grid(empty_grid(), Coord::new(3, 2));
    assert_eq!(s.greedy_action(), 2);
}

#[test]
fn greedy_ignores_score_already_made() {
    let mut s = MazeState::from_grid(grid_with(&[(1, 0, 4), (1, 2, 2)]), Coord::new(0, 0));
    s.advance(0);
    assert_eq!(s.score(), 4);
    // From (1, 0): +x gains 0, +y gains 0, -x gains 0.
    assert_eq!(s.greedy_action(), 0);
}

#[test]
fn greedy_leaves_state_unchanged() {
    let s = MazeState::from_grid(grid_with(&[(2, 1, 5), (0, 1, 8)]), Coord::new(1, 1));
    let before = s.clone();
    let _ = s.greedy_action();
    assert_eq!(s, before);
}

#[test]
fn duplicate_is_independent() {
    let s = MazeState::from_grid(grid_with(&[(1, 0, 5)]), Coord::new(0, 0));
    let mut d = s.duplicate();
    assert_eq!(d, s);
    d.advance(0);
    assert_eq!(s.reward_at(1, 0), 5);
    assert_eq!(s.score(), 0);
    assert_eq!(d.reward_at(1, 0), 0);
}

#[test]
fn greedy_game_end_to_end() {
    let mut s = MazeState::from_grid(grid_with(&[(2, 1, 7)]), Coord::new(0, 0));
    let trace = s.play_game();
    assert_eq!(trace.len(), END_TURN as usize + 1);
    let turns: Vec<u32> = trace.iter().map(|t| t.turn()).collect();
    assert_eq!(turns, vec![0, 1, 2, 3, 4]);
    let scores: Vec<u64> = trace.iter().map(|t| t.score()).collect();
    assert_eq!(scores, vec![0, 0, 0, 7, 7]);
    let path: Vec<Coord> = trace.iter().map(|t| t.character()).collect();
    assert_eq!(
        path,
        vec![Coord::new(0, 0), Coord::new(1, 0), Coord::new(2, 0), Coord::new(2, 1), Coord::new(3, 1)]
    );
    assert!(s.is_done());
    assert_eq!(s.score(), 7);
    assert!(s.score() <= 7);
    assert_eq!(&trace[4], &s);
}

#[test]
fn from_draws_fills_row_major_around_agent() {
    let draws: Vec<u32> = (1..=11).collect();
    let s = MazeState::from_draws(Coord::new(1, 0), &draws);
    assert_eq!(rewards(&s), vec![vec![1, 0, 2, 3], vec![4, 5, 6, 7], vec![8, 9, 10, 11]]);
    assert_eq!(s.turn(), 0);
    assert_eq!(s.score(), 0);
    assert_eq!(s.character(), Coord::new(1, 0));
    let s = MazeState::from_draws(Coord::new(3, 2), &draws);
    assert_eq!(rewards(&s), vec![vec![1, 2, 3, 4], vec![5, 6, 7, 8], vec![9, 10, 11, 0]]);
}

#[test]
fn new_state_is_well_formed() {
    for _ in 0..200 {
        let s = MazeState::new();
        let c = s.character();
        assert!(c.x < W && c.y < H);
        assert_eq!(s.turn(), 0);
        assert_eq!(s.score(), 0);
        assert_eq!(s.reward_at(c.x, c.y), 0);
        for y in 0..H {
            for x in 0..W {
                assert!(s.reward_at(x, y) < MAX_REWARD);
            }
        }
    }
}

#[test]
fn new_states_vary() {
    let first = MazeState::new();
    let differs = (0..50).any(|_| MazeState::new() != first);
    assert!(differs);
}

#[test]
fn random_policy_is_uniform() {
    for (c, k) in [(Coord::new(0, 0), 2usize), (Coord::new(1, 1), 4usize), (Coord::new(0, 1), 3usize)] {
        let s = MazeState::from_grid(empty_grid(), c);
        let legal = s.legal_action();
        assert_eq!(legal.len(), k);
        let mut counts = [0usize; 4];
        let runs = 10_000;
        for _ in 0..runs {
            let a = s.random_action();
            assert!(legal.contains(&a));
            counts[a] += 1;
        }
        for a in legal {
            let freq = counts[a] as f64 / runs as f64;
            assert!((freq - 1.0 / k as f64).abs() < 0.03, "move {} freq {}", a, freq);
        }
    }
}

#[test]
fn playthrough_is_deterministic() {
    let draws: Vec<u32> = vec![3, 0, 9, 1, 4, 4, 7, 2, 8, 5, 6];
    let mut a = MazeState::from_draws(Coord::new(2, 1), &draws);
    let mut b = MazeState::from_draws(Coord::new(2, 1), &draws);
    assert_eq!(a, b);
    let ta = a.play_game();
    let tb = b.play_game();
    assert_eq!(ta, tb);
    assert_eq!(a, b);
}
