use tetris::{key_action, plan_frame, Block, Cursor, Direction, GameState, Key, KeyAction};
use tetris::{FRAME_DELAY_US, HEIGHT, UPDATE_DELAY_US, WIDTH};

#[test]
fn render_shows_board_and_piece() {
    let mut g = GameState::new();
    g.block_type = Block::Block2x2;
    g.cursor = Cursor { x: 1, y: 0 };
    g.blocks_on_board[0][0] = true;
    let s = g.create_string();
    let lines: Vec<&str> = s.split("\r\n").collect();
    assert_eq!(lines.len(), HEIGHT as usize + 1);
    assert_eq!(lines[HEIGHT as usize], "");
    assert_eq!(s.len(), (HEIGHT * (WIDTH + 2)) as usize);
    assert_eq!(lines[29], format!("XOO{}", " ".repeat(17)));
    assert_eq!(lines[28], format!(" OO{}", " ".repeat(17)));
    assert_eq!(lines[0], " ".repeat(20));
}

#[test]
fn render_board_wins_over_piece() {
    let mut g = GameState::new();
    g.block_type = Block::Block2x2;
    g.cursor = Cursor { x: 0, y: 0 };
    g.blocks_on_board[0][0] = true;
    let s = g.create_string();
    let lines: Vec<&str> = s.split("\r\n").collect();
    assert_eq!(lines[29], format!("XO{}", " ".repeat(18)));
}

#[test]
fn keys_map_to_actions() {
    assert_eq!(key_action(Key::Up, false), KeyAction::Move(Direction::Up));
    assert_eq!(key_action(Key::Down, false), KeyAction::Move(Direction::Down));
    assert_eq!(key_action(Key::Left, true), KeyAction::Move(Direction::Left));
    assert_eq!(key_action(Key::Right, false), KeyAction::Move(Direction::Right));
    assert_eq!(key_action(Key::Char('c'), true), KeyAction::Abort);
    assert_eq!(key_action(Key::Char('c'), false), KeyAction::Ignore);
    assert_eq!(key_action(Key::Char('q'), false), KeyAction::Quit);
    assert_eq!(key_action(Key::Other, false), KeyAction::Quit);
}

#[test]
fn frame_plan_values() {
    let p = plan_frame(0, 0);
    assert!(!p.gravity);
    assert_eq!(p.sleep_us, FRAME_DELAY_US);
    assert!(!p.advance_frame_clock);
    let p = plan_frame(UPDATE_DELAY_US, 10_000);
    assert!(!p.gravity);
    assert_eq!(p.sleep_us, 23_333);
    let p = plan_frame(UPDATE_DELAY_US + 1, FRAME_DELAY_US);
    assert!(p.gravity);
    assert_eq!(p.sleep_us, 0);
    assert!(p.advance_frame_clock);
}
