use game_of_life::frame::{Color, Tile};
use game_of_life::game::{is_drawable, GameMode, GameScene, MouseStates};
use game_of_life::input::{Event, Key, MouseButton, PointerOffBoard};

fn key(key: Key) -> Event {
    Event::KeyDown { key }
}

fn down(button: MouseButton, x: i32, y: i32) -> Event {
    Event::MouseButtonDown { button, x, y }
}

fn up(button: MouseButton, x: i32, y: i32) -> Event {
    Event::MouseButtonUp { button, x, y }
}

fn live_cells(scene: &GameScene) -> Vec<(usize, usize)> {
    scene
        .board()
        .clone_cells()
        .iter()
        .filter(|c| c.alive)
        .map(|c| (c.x, c.y))
        .collect()
}

/// A scene in which a click has drawn each of the given squares.
fn scene_with(
    width: usize,
    height: usize,
    scale: usize,
    speed: usize,
    cells: &[(i32, i32)],
) -> GameScene {
    let mut scene = GameScene::new(width, height, scale, speed);
    for (x, y) in cells {
        let at_x = x * scale as i32;
        let at_y = y * scale as i32;
        scene
            .handle_events(vec![down(MouseButton::Left, at_x, at_y), up(MouseButton::Left, at_x, at_y)])
            .unwrap();
    }
    scene
}

#[test]
fn new_scene_waits_to_be_drawn_on() {
    let scene = GameScene::new(160, 100, 8, 100);
    assert_eq!(scene.mode(), GameMode::Editing);
    assert_eq!(scene.round(), 0);
    assert_eq!(scene.cell_size(), 8);
    assert_eq!(scene.mouse_states(), MouseStates { left: false, right: false, x: 0, y: 0 });
    assert_eq!(scene.board().width(), 160);
    assert_eq!(scene.board().height(), 100);
    assert!(live_cells(&scene).is_empty());
}

#[test]
fn mouse_states_start_idle() {
    assert_eq!(MouseStates::new(), MouseStates { left: false, right: false, x: 0, y: 0 });
}

#[test]
fn editing_left_press_revives_the_cell_under_the_pointer() {
    let mut scene = GameScene::new(160, 100, 8, 100);
    assert_eq!(scene.handle_events(vec![down(MouseButton::Left, 23, 41)]), Ok(()));
    assert_eq!(live_cells(&scene), vec![(2, 5)]);
}

#[test]
fn editing_right_press_kills_the_cell_under_the_pointer() {
    let mut scene = GameScene::new(160, 100, 8, 100);
    scene.handle_events(vec![down(MouseButton::Left, 23, 41)]).unwrap();
    scene.handle_events(vec![up(MouseButton::Left, 23, 41)]).unwrap();
    scene.handle_events(vec![down(MouseButton::Left, 80, 80)]).unwrap();
    scene.handle_events(vec![up(MouseButton::Left, 80, 80)]).unwrap();
    assert_eq!(live_cells(&scene), vec![(2, 5), (10, 10)]);
    assert_eq!(scene.handle_events(vec![down(MouseButton::Right, 23, 41)]), Ok(()));
    assert_eq!(live_cells(&scene), vec![(10, 10)]);
}

#[test]
fn playing_press_leaves_the_board_alone() {
    let mut scene = scene_with(160, 100, 8, 100, &[(1, 1)]);
    scene.handle_events(vec![key(Key::D)]).unwrap();
    assert_eq!(scene.mode(), GameMode::Playing);
    let before = scene.board().clone_cells();
    assert_eq!(scene.handle_events(vec![down(MouseButton::Left, 23, 41)]), Ok(()));
    assert_eq!(scene.handle_events(vec![down(MouseButton::Right, 8, 8)]), Ok(()));
    assert_eq!(scene.board().clone_cells(), before);
    assert_eq!(scene.mouse_states(), MouseStates { left: false, right: false, x: 8, y: 8 });
}

#[test]
fn playing_press_off_the_board_is_no_fault() {
    let mut scene = GameScene::new(4, 4, 8, 100);
    scene.handle_events(vec![key(Key::D)]).unwrap();
    assert_eq!(scene.handle_events(vec![down(MouseButton::Left, -5, 900)]), Ok(()));
    assert!(live_cells(&scene).is_empty());
}

#[test]
fn dragging_paints_where_the_pointer_ends_up() {
    let mut scene = GameScene::new(10, 10, 8, 100);
    scene.handle_events(vec![down(MouseButton::Left, 0, 0)]).unwrap();
    scene.handle_events(vec![Event::MouseMotion { x: 9, y: 0 }]).unwrap();
    scene.handle_events(vec![Event::MouseMotion { x: 17, y: 8 }]).unwrap();
    // Still held, no new event: the pointer keeps drawing where it is.
    scene.handle_events(vec![]).unwrap();
    scene.handle_events(vec![up(MouseButton::Left, 17, 8)]).unwrap();
    scene.handle_events(vec![Event::MouseMotion { x: 40, y: 40 }]).unwrap();
    assert_eq!(live_cells(&scene), vec![(0, 0), (1, 0), (2, 1)]);
}

#[test]
fn left_button_wins_over_right() {
    let mut scene = GameScene::new(10, 10, 8, 100);
    scene
        .handle_events(vec![down(MouseButton::Right, 8, 8), down(MouseButton::Left, 16, 16)])
        .unwrap();
    assert_eq!(scene.mouse_states(), MouseStates { left: true, right: true, x: 16, y: 16 });
    assert_eq!(live_cells(&scene), vec![(2, 2)]);
}

#[test]
fn other_buttons_and_keys_do_nothing() {
    let mut scene = GameScene::new(10, 10, 8, 100);
    scene
        .handle_events(vec![
            down(MouseButton::Other, 8, 8),
            key(Key::Other),
            key(Key::P),
            key(Key::Q),
            key(Key::Escape),
            key(Key::Return),
            Event::Quit,
            Event::Other,
        ])
        .unwrap();
    assert_eq!(scene.mode(), GameMode::Editing);
    assert_eq!(scene.mouse_states(), MouseStates::new());
    assert!(live_cells(&scene).is_empty());
}

#[test]
fn drawing_off_the_board_is_reported() {
    let mut scene = GameScene::new(4, 3, 8, 100);
    assert_eq!(
        scene.handle_events(vec![down(MouseButton::Left, 32, 0)]),
        Err(PointerOffBoard { x: 32, y: 0 })
    );
    assert!(live_cells(&scene).is_empty());
    assert!(!scene.pointer_ready());
    scene.handle_event(up(MouseButton::Left, 32, 0));
    assert!(scene.pointer_ready());
    assert_eq!(
        scene.handle_events(vec![down(MouseButton::Right, 0, 24)]),
        Err(PointerOffBoard { x: 0, y: 24 })
    );
    scene.handle_event(up(MouseButton::Right, 0, 24));
    assert_eq!(
        scene.handle_events(vec![down(MouseButton::Left, -1, 5)]),
        Err(PointerOffBoard { x: -1, y: 5 })
    );
    scene.handle_event(up(MouseButton::Left, 0, 0));
    assert_eq!(scene.handle_events(vec![down(MouseButton::Left, 31, 23)]), Ok(()));
    assert_eq!(live_cells(&scene), vec![(3, 2)]);
}

#[test]
fn handle_event_draws_at_once() {
    let mut scene = GameScene::new(4, 3, 8, 100);
    assert!(scene.admits(down(MouseButton::Left, 9, 17)));
    scene.handle_event(down(MouseButton::Left, 9, 17));
    assert_eq!(live_cells(&scene), vec![(1, 2)]);
    assert!(scene.admits(Event::MouseMotion { x: 31, y: 23 }));
    assert!(!scene.admits(Event::MouseMotion { x: 32, y: 23 }));
    assert!(!scene.admits(Event::MouseMotion { x: 31, y: 24 }));
    assert!(!scene.admits(Event::MouseMotion { x: -1, y: 0 }));
    scene.handle_event(Event::MouseMotion { x: 31, y: 23 });
    assert_eq!(live_cells(&scene), vec![(1, 2), (3, 2)]);
    scene.handle_event(up(MouseButton::Left, 31, 23));
    assert!(scene.admits(Event::MouseMotion { x: 900, y: -900 }));
    scene.handle_event(Event::MouseMotion { x: 900, y: -900 });
    assert!(!scene.admits(down(MouseButton::Right, 900, 0)));
    assert!(scene.admits(down(MouseButton::Other, 900, 0)));
    assert!(scene.admits(down(MouseButton::Right, 8, 16)));
    scene.handle_event(down(MouseButton::Right, 8, 16));
    assert_eq!(live_cells(&scene), vec![(3, 2)]);
}

#[test]
fn handle_mouse_draws_where_the_pointer_stands() {
    let mut scene = GameScene::new(4, 3, 8, 100);
    scene.handle_event(down(MouseButton::Left, 9, 17));
    assert_eq!(live_cells(&scene), vec![(1, 2)]);
    // A restart clears the board; the button is still held.
    scene.handle_event(Event::KeyDown { key: Key::R });
    assert!(live_cells(&scene).is_empty());
    assert!(scene.pointer_ready());
    scene.handle_mouse();
    assert_eq!(live_cells(&scene), vec![(1, 2)]);
    scene.handle_event(up(MouseButton::Left, 9, 17));
    scene.handle_event(Event::KeyDown { key: Key::R });
    scene.handle_mouse();
    assert!(live_cells(&scene).is_empty());
}

#[test]
fn a_quick_click_draws() {
    let mut scene = GameScene::new(160, 100, 8, 100);
    scene
        .handle_events(vec![down(MouseButton::Left, 23, 41), up(MouseButton::Left, 23, 41)])
        .unwrap();
    assert_eq!(live_cells(&scene), vec![(2, 5)]);
    scene
        .handle_events(vec![down(MouseButton::Right, 16, 40), up(MouseButton::Right, 16, 40)])
        .unwrap();
    assert!(live_cells(&scene).is_empty());
}

#[test]
fn a_drag_within_one_batch_draws_every_step() {
    let mut scene = GameScene::new(10, 10, 8, 100);
    scene
        .handle_events(vec![
            Event::MouseMotion { x: 70, y: 70 },
            down(MouseButton::Left, 0, 0),
            Event::MouseMotion { x: 8, y: 8 },
            Event::MouseMotion { x: 16, y: 16 },
            up(MouseButton::Left, 16, 16),
            Event::MouseMotion { x: 24, y: 24 },
        ])
        .unwrap();
    assert_eq!(live_cells(&scene), vec![(0, 0), (1, 1), (2, 2)]);
}

#[test]
fn a_batch_ends_where_the_pointer_leaves_the_board() {
    let mut scene = GameScene::new(4, 3, 8, 100);
    assert_eq!(
        scene.handle_events(vec![
            down(MouseButton::Left, 0, 0),
            Event::MouseMotion { x: 8, y: 0 },
            Event::MouseMotion { x: 40, y: 0 },
            Event::MouseMotion { x: 16, y: 0 },
            Event::KeyDown { key: Key::D },
        ]),
        Err(PointerOffBoard { x: 40, y: 0 })
    );
    assert_eq!(live_cells(&scene), vec![(0, 0), (1, 0)]);
    assert_eq!(scene.mode(), GameMode::Editing);
    assert_eq!(scene.mouse_states(), MouseStates { left: true, right: false, x: 40, y: 0 });
}

#[test]
fn restart_with_the_button_held_draws_again() {
    let mut scene = GameScene::new(4, 3, 8, 100);
    scene.handle_events(vec![down(MouseButton::Left, 0, 0)]).unwrap();
    scene
        .handle_events(vec![Event::MouseMotion { x: 8, y: 8 }, Event::KeyDown { key: Key::R }])
        .unwrap();
    assert_eq!(live_cells(&scene), vec![(1, 1)]);
}

#[test]
fn restart_clears_the_board_and_the_count() {
    let mut scene = scene_with(5, 5, 8, 100, &[(1, 2), (2, 2), (3, 2)]);
    scene.handle_events(vec![key(Key::D)]).unwrap();
    scene.update(0);
    scene.update(10);
    scene.update(20);
    assert_eq!(scene.round(), 2);
    scene.restart();
    assert_eq!(scene.round(), 0);
    assert_eq!(scene.mode(), GameMode::Editing);
    assert_eq!(scene.board().width(), 5);
    assert_eq!(scene.board().height(), 5);
    let cells = scene.board().clone_cells();
    assert_eq!(cells.len(), 25);
    assert!(cells.iter().all(|c| !c.alive));
}

#[test]
fn r_key_restarts_from_either_mode() {
    let mut scene = scene_with(5, 5, 8, 100, &[(1, 2)]);
    scene.handle_events(vec![key(Key::R)]).unwrap();
    assert!(live_cells(&scene).is_empty());
    assert_eq!(scene.mode(), GameMode::Editing);
    let mut scene = scene_with(5, 5, 8, 100, &[(1, 2), (2, 2), (3, 2)]);
    scene.handle_events(vec![key(Key::D)]).unwrap();
    scene.update(0);
    scene.update(10);
    assert_eq!(scene.round(), 1);
    scene.handle_events(vec![key(Key::R)]).unwrap();
    assert_eq!(scene.round(), 0);
    assert_eq!(scene.mode(), GameMode::Editing);
    assert!(live_cells(&scene).is_empty());
}

#[test]
fn d_key_switches_between_editing_and_playing() {
    let mut scene = GameScene::new(5, 5, 8, 100);
    scene.handle_events(vec![key(Key::D)]).unwrap();
    assert_eq!(scene.mode(), GameMode::Playing);
    scene.handle_events(vec![key(Key::D)]).unwrap();
    assert_eq!(scene.mode(), GameMode::Editing);
    scene.handle_events(vec![key(Key::D), key(Key::D), key(Key::D)]).unwrap();
    assert_eq!(scene.mode(), GameMode::Playing);
}

#[test]
fn editing_never_advances() {
    let mut scene = scene_with(5, 5, 8, 100, &[(1, 2), (2, 2), (3, 2)]);
    scene.update(0);
    scene.update(1_000_000);
    assert_eq!(scene.round(), 0);
    assert_eq!(live_cells(&scene), vec![(1, 2), (2, 2), (3, 2)]);
}

#[test]
fn first_tick_only_sets_the_timer() {
    let mut scene = scene_with(5, 5, 8, 100, &[(1, 2), (2, 2), (3, 2)]);
    scene.handle_events(vec![key(Key::D)]).unwrap();
    scene.update(5_000);
    assert_eq!(scene.round(), 0);
    assert_eq!(live_cells(&scene), vec![(1, 2), (2, 2), (3, 2)]);
}

#[test]
fn board_advances_once_per_interval() {
    // 4 generations a second: one every 250 ms.
    let mut scene = scene_with(5, 5, 8, 4, &[(1, 2), (2, 2), (3, 2)]);
    scene.handle_events(vec![key(Key::D)]).unwrap();
    scene.update(1_000);
    scene.update(1_249);
    assert_eq!(scene.round(), 0);
    scene.update(1_250);
    assert_eq!(scene.round(), 1);
    assert_eq!(live_cells(&scene), vec![(2, 1), (2, 2), (2, 3)]);
    scene.update(1_499);
    assert_eq!(scene.round(), 1);
    scene.update(1_700);
    assert_eq!(scene.round(), 2);
    assert_eq!(live_cells(&scene), vec![(1, 2), (2, 2), (3, 2)]);
    scene.update(1_949);
    assert_eq!(scene.round(), 2);
    scene.update(1_950);
    assert_eq!(scene.round(), 3);
}

#[test]
fn interval_is_a_thousand_over_the_speed() {
    // 3 generations a second: 333 ms, rounded down.
    let mut scene = GameScene::new(2, 2, 8, 3);
    scene.handle_events(vec![key(Key::D)]).unwrap();
    assert!(!scene.can_update(0));
    assert!(!scene.can_update(332));
    assert!(scene.can_update(333));
    // 100 generations a second: 10 ms.
    let mut scene = GameScene::new(2, 2, 8, 100);
    scene.handle_events(vec![key(Key::D)]).unwrap();
    assert!(!scene.can_update(50));
    assert!(!scene.can_update(59));
    assert!(scene.can_update(60));
    // More than a thousand a second: every tick.
    let mut scene = GameScene::new(2, 2, 8, 2000);
    scene.handle_events(vec![key(Key::D)]).unwrap();
    assert!(!scene.can_update(7));
    assert!(scene.can_update(7));
}

#[test]
fn speed_zero_never_advances() {
    let mut scene = GameScene::new(2, 2, 8, 0);
    scene.handle_events(vec![key(Key::D)]).unwrap();
    assert!(!scene.can_update(1));
    assert!(!scene.can_update(u64::MAX));
    scene.update(u64::MAX);
    assert_eq!(scene.round(), 0);
}

#[test]
fn clock_running_backwards_counts_as_no_time() {
    let mut scene = GameScene::new(2, 2, 8, 100);
    scene.handle_events(vec![key(Key::D)]).unwrap();
    assert!(!scene.can_update(1_000));
    assert!(!scene.can_update(10));
    assert!(scene.can_update(1_010));
}

#[test]
fn play_starts_with_a_fresh_timer_each_time() {
    let mut scene = scene_with(5, 5, 8, 100, &[(1, 2), (2, 2), (3, 2)]);
    scene.handle_events(vec![key(Key::D)]).unwrap();
    scene.update(0);
    scene.update(100);
    assert_eq!(scene.round(), 1);
    scene.handle_events(vec![key(Key::D), key(Key::D)]).unwrap();
    scene.update(100_000);
    assert_eq!(scene.round(), 1);
    scene.update(100_010);
    assert_eq!(scene.round(), 2);
}

#[test]
fn render_draws_one_tile_for_each_cell() {
    let scene = scene_with(3, 2, 8, 100, &[(1, 0), (2, 1)]);
    let frame = scene.render();
    let dead = Color { r: 0, g: 28, b: 67 };
    let alive = Color { r: 255, g: 153, b: 0 };
    assert_eq!(frame.background, Color { r: 0, g: 0, b: 150 });
    assert!(frame.labels.is_empty());
    assert_eq!(
        frame.tiles,
        vec![
            Tile { x: 0, y: 0, width: 7, height: 7, color: dead },
            Tile { x: 8, y: 0, width: 7, height: 7, color: alive },
            Tile { x: 16, y: 0, width: 7, height: 7, color: dead },
            Tile { x: 0, y: 8, width: 7, height: 7, color: dead },
            Tile { x: 8, y: 8, width: 7, height: 7, color: dead },
            Tile { x: 16, y: 8, width: 7, height: 7, color: alive },
        ]
    );
}

#[test]
fn drawable_sizes() {
    assert!(is_drawable(160, 100, 8));
    assert!(is_drawable(1, 1, 1));
    assert!(!is_drawable(0, 100, 8));
    assert!(!is_drawable(160, 0, 8));
    assert!(!is_drawable(160, 100, 0));
    assert!(is_drawable(0x7fff_ffff, 1, 1));
    assert!(!is_drawable(0x8000_0000, 1, 1));
    assert!(!is_drawable(1, 0x1000_0000, 8));
    assert!(is_drawable(1, 0x0fff_ffff, 8));
    assert!(!is_drawable(usize::MAX, usize::MAX, 1));
}
