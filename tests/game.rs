use tetris::board::{new_row, row_full};
use tetris::{Block, Cursor, Direction, GameState, Outcome, HEIGHT, WIDTH};

const KINDS: [Block; 7] = [
    Block::Block2x2,
    Block::LeftL,
    Block::RightL,
    Block::LightningUp,
    Block::LightningDown,
    Block::Line,
    Block::Prod,
];

const DIRECTIONS: [Direction; 4] = [Direction::Up, Direction::Right, Direction::Down, Direction::Left];

fn occupied(g: &GameState) -> usize {
    g.blocks_on_board.iter().map(|r| r.iter().filter(|c| **c).count()).sum()
}

fn game_with(kind: Block) -> GameState {
    let mut g = GameState::new();
    g.block_type = kind;
    g
}

#[test]
fn realize_gives_four_distinct_cells() {
    let c = Cursor { x: 5, y: 5 };
    for k in KINDS {
        for d in DIRECTIONS {
            let cells = k.realize(&d, &c);
            for i in 0..4 {
                for j in 0..4 {
                    if i != j {
                        assert_ne!(cells[i], cells[j]);
                    }
                }
            }
        }
    }
}

#[test]
fn realize_exact_cells() {
    let c = Cursor { x: 3, y: 7 };
    assert_eq!(Block::Block2x2.realize(&Direction::Left, &c), [(3, 7), (3, 8), (4, 7), (4, 8)]);
    assert_eq!(Block::LeftL.realize(&Direction::Right, &c), [(3, 7), (3, 6), (4, 7), (5, 7)]);
    assert_eq!(Block::Line.realize(&Direction::Left, &c), [(2, 7), (3, 7), (4, 7), (5, 7)]);
    assert_eq!(Block::Prod.realize(&Direction::Down, &c), [(2, 7), (3, 7), (4, 7), (3, 6)]);
}

#[test]
fn clockwise_cycle() {
    assert_eq!(Direction::Up.clockwise(), Direction::Right);
    assert_eq!(Direction::Right.clockwise(), Direction::Down);
    assert_eq!(Direction::Down.clockwise(), Direction::Left);
    assert_eq!(Direction::Left.clockwise(), Direction::Up);
}

#[test]
fn four_rotations_return_to_start() {
    for k in KINDS {
        let mut g = game_with(k);
        g.cursor = Cursor { x: 10, y: 10 };
        let before = k.realize(&g.block_orientation, &g.cursor);
        for _ in 0..4 {
            assert_eq!(g.move_blocks_with(&Direction::Up, Block::Line), Outcome::Continue);
        }
        assert_eq!(g.block_orientation, Direction::Up);
        assert_eq!(k.realize(&g.block_orientation, &g.cursor), before);
    }
}

#[test]
fn rotation_refused_at_wall() {
    let mut g = game_with(Block::Line);
    g.cursor = Cursor { x: 0, y: 10 };
    g.rotate();
    assert_eq!(g.block_orientation, Direction::Up);
    g.cursor = Cursor { x: 5, y: 10 };
    g.rotate();
    assert_eq!(g.block_orientation, Direction::Right);
}

#[test]
fn clear_single_full_row() {
    let mut g = game_with(Block::Block2x2);
    for x in 0..WIDTH as usize {
        g.blocks_on_board[3][x] = true;
    }
    g.blocks_on_board[4][7] = true;
    g.blocks_on_board[0][2] = true;
    let before = occupied(&g);
    let count = g.remove_full_lines();
    assert_eq!(count, 1);
    assert_eq!(occupied(&g), before - WIDTH as usize);
    assert!(g.blocks_on_board[3][7]);
    assert!(!g.blocks_on_board[4][7]);
    assert!(g.blocks_on_board[0][2]);
    assert_eq!(g.blocks_on_board.len(), HEIGHT as usize);
    assert!(g.blocks_on_board[HEIGHT as usize - 1].iter().all(|c| !*c));
}

#[test]
fn clear_adjacent_full_rows() {
    let mut g = game_with(Block::Block2x2);
    for y in 0..2 {
        for x in 0..WIDTH as usize {
            g.blocks_on_board[y][x] = true;
        }
    }
    g.blocks_on_board[2][5] = true;
    assert_eq!(g.remove_full_lines(), 2);
    assert!(g.blocks_on_board[0][5]);
    assert_eq!(occupied(&g), 1);
}

#[test]
fn clear_nothing_on_empty_board() {
    let mut g = game_with(Block::Block2x2);
    assert_eq!(g.remove_full_lines(), 0);
    assert_eq!(occupied(&g), 0);
}

#[test]
fn clear_line_shifts_rows() {
    let mut g = game_with(Block::Block2x2);
    g.blocks_on_board[2][1] = true;
    g.clear_line(&1);
    assert!(g.blocks_on_board[1][1]);
    assert_eq!(g.blocks_on_board.len(), HEIGHT as usize);
}

#[test]
fn row_helpers() {
    let r = new_row();
    assert_eq!(r.len(), WIDTH as usize);
    assert!(!row_full(&r));
    assert!(row_full(&vec![true; WIDTH as usize]));
}

#[test]
fn sideways_move_into_occupied_cell_is_refused() {
    let mut g = game_with(Block::Block2x2);
    g.cursor = Cursor { x: 5, y: 5 };
    g.blocks_on_board[5][4] = true;
    assert_eq!(g.move_blocks_with(&Direction::Left, Block::Line), Outcome::Continue);
    assert_eq!(g.cursor, Cursor { x: 5, y: 5 });
    assert_eq!(g.block_orientation, Direction::Up);
    g.blocks_on_board[6][7] = true;
    assert_eq!(g.move_blocks_with(&Direction::Right, Block::Line), Outcome::Continue);
    assert_eq!(g.cursor, Cursor { x: 5, y: 5 });
    assert_eq!(occupied(&g), 2);
}

#[test]
fn sideways_move_into_wall_is_refused() {
    let mut g = game_with(Block::Block2x2);
    g.cursor = Cursor { x: 0, y: 5 };
    g.move_blocks_with(&Direction::Left, Block::Line);
    assert_eq!(g.cursor, Cursor { x: 0, y: 5 });
    g.move_blocks_with(&Direction::Right, Block::Line);
    assert_eq!(g.cursor, Cursor { x: 1, y: 5 });
}

#[test]
fn down_on_floor_locks_and_spawns() {
    let mut g = game_with(Block::LeftL);
    g.cursor = Cursor { x: 4, y: 1 };
    assert_eq!(g.move_blocks_with(&Direction::Down, Block::Prod), Outcome::Continue);
    for (x, y) in [(4, 2), (4, 1), (4, 0), (5, 0)] {
        assert!(g.blocks_on_board[y][x]);
    }
    assert_eq!(occupied(&g), 4);
    assert_eq!(g.cursor, Cursor { x: WIDTH / 2, y: HEIGHT - 1 });
    assert_eq!(g.block_orientation, Direction::Up);
    assert_eq!(g.block_type, Block::Prod);
}

#[test]
fn square_falls_and_locks_once() {
    let mut g = game_with(Block::Block2x2);
    assert_eq!(g.cursor, Cursor { x: 10, y: 29 });
    for _ in 0..30 {
        assert_eq!(g.move_blocks_with(&Direction::Down, Block::Block2x2), Outcome::Continue);
    }
    assert_eq!(occupied(&g), 4);
    for (x, y) in [(10, 0), (10, 1), (11, 0), (11, 1)] {
        assert!(g.blocks_on_board[y][x]);
    }
}

#[test]
fn lock_completing_row_clears_it() {
    let mut g = game_with(Block::Block2x2);
    for x in 0..WIDTH as usize {
        if x != 10 && x != 11 {
            g.blocks_on_board[0][x] = true;
        }
    }
    g.cursor = Cursor { x: 10, y: 0 };
    let before = occupied(&g) + 4;
    assert_eq!(g.move_blocks_with(&Direction::Down, Block::Line), Outcome::Continue);
    assert_eq!(occupied(&g), before - 20);
    assert!(g.blocks_on_board[0][10]);
    assert!(g.blocks_on_board[0][11]);
    assert!(!g.blocks_on_board[0][0]);
    assert_eq!(g.block_type, Block::Line);
}

#[test]
fn lock_above_top_is_game_over() {
    let mut g = game_with(Block::Block2x2);
    for y in 0..29 {
        g.blocks_on_board[y][10] = true;
    }
    let before = occupied(&g);
    assert_eq!(g.move_blocks_with(&Direction::Down, Block::Line), Outcome::GameOver);
    assert!(g.blocks_on_board[29][10]);
    assert!(!g.blocks_on_board[29][11]);
    assert_eq!(occupied(&g), before + 1);
    assert_eq!(g.cursor, Cursor { x: 10, y: 29 });
    assert_eq!(g.block_type, Block::Block2x2);
}

#[test]
fn lock_off_the_side_is_fatal() {
    let mut g = game_with(Block::Block2x2);
    g.cursor = Cursor { x: -1, y: 3 };
    assert_eq!(g.adhere_blocks_with(Block::Line), Outcome::Fatal);
    assert_eq!(occupied(&g), 0);
}

#[test]
fn new_game_is_empty_at_spawn() {
    let g = GameState::new();
    assert_eq!(g.blocks_on_board.len(), HEIGHT as usize);
    assert!(g.blocks_on_board.iter().all(|r| r.len() == WIDTH as usize));
    assert_eq!(occupied(&g), 0);
    assert_eq!(g.cursor, Cursor { x: 10, y: 29 });
    assert_eq!(g.block_orientation, Direction::Up);
}

#[test]
fn reset_cursor_goes_to_spawn() {
    let mut g = game_with(Block::Line);
    g.cursor = Cursor { x: 3, y: 3 };
    g.block_orientation = Direction::Left;
    g.reset_cursor();
    assert_eq!(g.cursor, Cursor { x: 10, y: 29 });
    assert_eq!(g.block_orientation, Direction::Up);
}

#[test]
fn random_kinds_are_listed() {
    let mut g = game_with(Block::Line);
    for _ in 0..50 {
        assert!(KINDS.contains(&Block::random()));
        g.new_block();
        assert!(KINDS.contains(&g.block_type));
    }
    for i in 0..7 {
        assert_eq!(Block::from_index(i), KINDS[i]);
    }
}

#[test]
fn random_kinds_vary() {
    let mut seen: Vec<Block> = Vec::new();
    for _ in 0..500 {
        let b = Block::random();
        if !seen.contains(&b) {
            seen.push(b);
        }
    }
    assert!(seen.len() > 1);
}

#[test]
fn random_move_and_lock() {
    let mut g = game_with(Block::Block2x2);
    g.cursor = Cursor { x: 3, y: 0 };
    assert_eq!(g.move_blocks(&Direction::Down), Outcome::Continue);
    assert_eq!(occupied(&g), 4);
    assert_eq!(g.cursor, Cursor { x: 10, y: 29 });
    g.cursor = Cursor { x: 3, y: 10 };
    g.block_type = Block::Block2x2;
    assert_eq!(g.adhere_blocks(), Outcome::Continue);
    assert_eq!(occupied(&g), 8);
}

#[test]
fn overlap_and_bounds_queries() {
    let mut g = game_with(Block::Block2x2);
    g.blocks_on_board[0][0] = true;
    assert!(g.has_overlap(&Direction::Up, &Cursor { x: 0, y: 0 }));
    assert!(g.has_overlap(&Direction::Up, &Cursor { x: -1, y: -1 }));
    assert!(!g.has_overlap(&Direction::Up, &Cursor { x: -1, y: 5 }));
    assert!(g.out_of_bounds(&Direction::Up, &Cursor { x: -1, y: -1 }));
    assert!(g.out_of_bounds(&Direction::Up, &Cursor { x: 19, y: 0 }));
    assert!(!g.out_of_bounds(&Direction::Up, &Cursor { x: 18, y: 28 }));
}
