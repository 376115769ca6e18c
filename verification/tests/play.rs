use game_of_life::cell::Cell;
use game_of_life::input::{Event, Key, MouseButton, PointerOffBoard};
use game_of_life::pattern::PatternError;
use game_of_life::play::{Game, GameAction};

fn key(key: Key) -> Event {
    Event::KeyDown { key }
}

fn down(button: MouseButton, x: i32, y: i32) -> Event {
    Event::MouseButtonDown { button, x, y }
}

fn live(cells: &[Cell]) -> Vec<(usize, usize)> {
    cells.iter().filter(|c| c.alive).map(|c| (c.x, c.y)).collect()
}

#[test]
fn game_plays_its_pattern_from_the_start() {
    let game = Game::new("---\nooo\n---", 3, 8).unwrap();
    assert!(game.is_playing());
    assert_eq!(game.round(), 0);
    assert_eq!(game.speed(), 3);
    assert_eq!(game.cell_size(), 8);
    assert_eq!(game.board().width(), 3);
    assert_eq!(game.board().height(), 3);
    assert_eq!(live(&game.draw_board()), vec![(0, 1), (1, 1), (2, 1)]);
}

#[test]
fn game_turns_down_a_bad_pattern() {
    assert_eq!(Game::new("", 3, 8).unwrap_err(), PatternError::Empty);
    assert_eq!(Game::new("oo\no", 3, 8).unwrap_err(), PatternError::UnevenRows);
    assert_eq!(Game::new("oz", 3, 8).unwrap_err(), PatternError::UnknownSymbol { symbol: 'z' });
}

#[test]
fn game_step_moves_on_and_counts() {
    let mut game = Game::new("---\nooo\n---", 3, 8).unwrap();
    let cells = game.step();
    assert_eq!(live(&cells), vec![(1, 0), (1, 1), (1, 2)]);
    assert_eq!(game.round(), 1);
    let cells = game.step();
    assert_eq!(live(&cells), vec![(0, 1), (1, 1), (2, 1)]);
    assert_eq!(game.round(), 2);
    assert_eq!(game.draw_board(), cells);
}

#[test]
fn game_restart_clears_and_pauses() {
    let mut game = Game::new("---\nooo\n---", 3, 8).unwrap();
    game.step();
    game.restart();
    assert!(!game.is_playing());
    assert_eq!(game.round(), 0);
    assert_eq!(game.board().width(), 3);
    assert_eq!(game.board().height(), 3);
    assert!(live(&game.draw_board()).is_empty());
    assert_eq!(game.draw_board().len(), 9);
}

#[test]
fn game_p_key_pauses_and_resumes() {
    let mut game = Game::new("o", 3, 8).unwrap();
    assert_eq!(game.handle_events(vec![key(Key::P)]), Ok(GameAction::Continue));
    assert!(!game.is_playing());
    assert_eq!(game.handle_events(vec![key(Key::P)]), Ok(GameAction::Continue));
    assert!(game.is_playing());
}

#[test]
fn game_quit_ends_the_batch() {
    for quit in [Event::Quit, key(Key::Escape), key(Key::Q)] {
        let mut game = Game::new("o", 3, 8).unwrap();
        assert_eq!(game.handle_events(vec![key(Key::P), quit, key(Key::P)]), Ok(GameAction::Quit));
        assert!(!game.is_playing());
        assert_eq!(game.handle_event(quit), GameAction::Quit);
    }
}

#[test]
fn game_click_while_paused_writes_a_cell() {
    let mut game = Game::new("-----\n-----\n-----\n-----\n-----\n-----", 3, 8).unwrap();
    game.handle_events(vec![key(Key::P)]).unwrap();
    assert!(!game.take_draw_request());
    assert_eq!(
        game.handle_events(vec![down(MouseButton::Left, 23, 41)]),
        Ok(GameAction::Continue)
    );
    assert_eq!(live(&game.draw_board()), vec![(2, 5)]);
    assert!(game.take_draw_request());
    assert!(!game.take_draw_request());
    assert_eq!(
        game.handle_events(vec![down(MouseButton::Left, 0, 0), down(MouseButton::Right, 23, 41)]),
        Ok(GameAction::Continue)
    );
    assert_eq!(live(&game.draw_board()), vec![(0, 0)]);
    assert!(game.take_draw_request());
}

#[test]
fn game_click_while_playing_is_ignored() {
    let mut game = Game::new("---\n---", 3, 8).unwrap();
    assert_eq!(
        game.handle_events(vec![down(MouseButton::Left, 8, 8), down(MouseButton::Right, 900, -3)]),
        Ok(GameAction::Continue)
    );
    assert!(live(&game.draw_board()).is_empty());
    assert!(!game.take_draw_request());
}

#[test]
fn game_click_off_the_board_ends_the_batch() {
    let mut game = Game::new("---\n---", 3, 8).unwrap();
    game.handle_events(vec![key(Key::P)]).unwrap();
    assert!(game.admits(down(MouseButton::Left, 23, 15)));
    assert!(!game.admits(down(MouseButton::Left, 24, 15)));
    assert!(!game.admits(down(MouseButton::Right, 23, 16)));
    assert!(!game.admits(down(MouseButton::Left, -1, 0)));
    assert!(game.admits(down(MouseButton::Other, -1, 0)));
    assert_eq!(
        game.handle_events(vec![
            down(MouseButton::Left, 8, 8),
            down(MouseButton::Left, 24, 8),
            down(MouseButton::Left, 0, 0),
        ]),
        Err(PointerOffBoard { x: 24, y: 8 })
    );
    assert_eq!(live(&game.draw_board()), vec![(1, 1)]);
}

#[test]
fn game_other_events_change_nothing() {
    let mut game = Game::new("o-\n-o", 3, 8).unwrap();
    game.handle_events(vec![key(Key::P)]).unwrap();
    let before = game.draw_board();
    assert_eq!(
        game.handle_events(vec![
            key(Key::R),
            key(Key::D),
            key(Key::Return),
            key(Key::Other),
            Event::MouseMotion { x: 900, y: 900 },
            Event::MouseButtonUp { button: MouseButton::Left, x: 900, y: 900 },
            down(MouseButton::Other, 900, 900),
            Event::Other,
        ]),
        Ok(GameAction::Continue)
    );
    assert_eq!(game.draw_board(), before);
    assert!(!game.is_playing());
}
