use game_of_life::engine::engine::{Engine, EngineAction, EngineMeta, NoScene};
use game_of_life::engine::scene::{Scene, SceneEvent, SceneStack};
use game_of_life::frame::Color;
use game_of_life::game::{GameMode, GameScene};
use game_of_life::input::{Event, Key, MouseButton, PointerOffBoard};
use game_of_life::scenes::{PauseScene, StartScene};

fn key(key: Key) -> Event {
    Event::KeyDown { key }
}

fn game() -> Scene {
    Scene::Game(GameScene::new(4, 3, 8, 100))
}

fn kind(scene: Option<&Scene>) -> &'static str {
    match scene {
        None => "none",
        Some(Scene::Start(_)) => "start",
        Some(Scene::Pause(_)) => "pause",
        Some(Scene::Game(_)) => "game",
    }
}

#[test]
fn engine_meta_keeps_its_values() {
    let meta = EngineMeta::new("Game of Life", 160, 100, 8);
    assert_eq!(meta.title, "Game of Life");
    assert_eq!((meta.width, meta.height, meta.scale), (160, 100, 8));
    assert_eq!(meta.window_size(), Some((1280, 800)));
}

#[test]
fn window_size_must_fit() {
    assert_eq!(EngineMeta::new("t", 0x1_0000, 1, 0x1_0000).window_size(), None);
    assert_eq!(EngineMeta::new("t", 1, 0x1_0000, 0x1_0000).window_size(), None);
    assert_eq!(EngineMeta::new("t", 0xffff, 1, 0x1_0001).window_size(), Some((0xffff_ffff, 0x1_0001)));
    assert_eq!(EngineMeta::new("t", 0, 0, 8).window_size(), Some((0, 0)));
}

#[test]
fn stack_push_drop_top() {
    let mut stack = SceneStack::new();
    assert_eq!(stack.len(), 0);
    assert_eq!(kind(stack.top()), "none");
    stack.drop();
    assert_eq!(stack.len(), 0);
    stack.push(game());
    stack.push(Scene::Pause(PauseScene {}));
    assert_eq!(stack.len(), 2);
    assert_eq!(kind(stack.top()), "pause");
    stack.drop();
    assert_eq!(kind(stack.top()), "game");
    stack.drop();
    assert_eq!(kind(stack.top()), "none");
}

#[test]
fn stack_add_scene_goes_underneath() {
    let mut stack = SceneStack::new();
    stack.add_scene(game());
    assert_eq!(kind(stack.top()), "game");
    stack.add_scene(Scene::Start(StartScene {}));
    assert_eq!(kind(stack.top()), "game");
    stack.drop();
    assert_eq!(kind(stack.top()), "start");
}

#[test]
fn stack_top_mut_changes_the_scene_in_place() {
    let mut stack = SceneStack::new();
    assert!(stack.top_mut().is_none());
    stack.push(game());
    match stack.top_mut() {
        Some(Scene::Game(scene)) => scene.handle_event(key(Key::D)),
        _ => unreachable!(),
    }
    match stack.top() {
        Some(Scene::Game(scene)) => assert_eq!(scene.mode(), GameMode::Playing),
        _ => unreachable!(),
    }
}

#[test]
fn scenes_think() {
    let start = Scene::Start(StartScene {});
    assert!(matches!(start.think(key(Key::Return)), Some(SceneEvent::Pop)));
    assert!(start.think(key(Key::P)).is_none());
    assert!(start.think(Event::Quit).is_none());
    let pause = Scene::Pause(PauseScene {});
    assert!(pause.think(key(Key::P)).is_none());
    assert!(pause.think(key(Key::Return)).is_none());
    let game = game();
    assert!(game.think(key(Key::Return)).is_none());
    assert!(game.think(key(Key::D)).is_none());
}

#[test]
fn engine_p_key_puts_up_and_takes_down_the_pause_screen() {
    let mut engine = Engine::new();
    assert!(!engine.has_scene());
    engine.add_scene(game());
    assert!(engine.has_scene());
    assert_eq!(engine.handle_events(&vec![key(Key::P)]), Ok(EngineAction::Continue));
    assert_eq!(engine.render(640, 480).labels.len(), 2);
    assert_eq!(engine.handle_events(&vec![key(Key::P)]), Ok(EngineAction::Continue));
    assert_eq!(engine.render(640, 480).tiles.len(), 12);
    assert_eq!(
        engine.handle_events(&vec![key(Key::P), key(Key::P), key(Key::P)]),
        Ok(EngineAction::Continue)
    );
    assert_eq!(engine.render(640, 480).labels.len(), 2);
}

#[test]
fn engine_quit_ends_the_batch() {
    for quit in [Event::Quit, key(Key::Q)] {
        let mut engine = Engine::new();
        engine.add_scene(game());
        assert_eq!(engine.handle_events(&vec![quit, key(Key::P)]), Ok(EngineAction::Quit));
        assert_eq!(engine.render(640, 480).tiles.len(), 12);
        assert_eq!(engine.handle_event(quit), EngineAction::Quit);
    }
    let mut engine = Engine::new();
    engine.add_scene(game());
    assert_eq!(engine.handle_events(&vec![key(Key::Escape)]), Ok(EngineAction::Continue));
}

#[test]
fn engine_return_leaves_the_title_screen() {
    let mut engine = Engine::new();
    engine.add_scene(Scene::Start(StartScene {}));
    engine.add_scene(game());
    assert_eq!(engine.render(640, 480).labels.len(), 4);
    assert_eq!(engine.handle_events(&vec![key(Key::D)]), Ok(EngineAction::Continue));
    assert_eq!(engine.render(640, 480).labels.len(), 4);
    assert_eq!(engine.handle_events(&vec![key(Key::Return)]), Ok(EngineAction::Continue));
    assert_eq!(engine.render(640, 480).tiles.len(), 12);
    assert_eq!(engine.handle_events(&vec![key(Key::Return)]), Ok(EngineAction::Continue));
    assert_eq!(engine.render(640, 480).tiles.len(), 12);
}

#[test]
fn engine_without_a_scene_reports_it() {
    let mut engine = Engine::new();
    assert_eq!(engine.handle_events(&vec![]), Ok(EngineAction::Continue));
    assert_eq!(engine.handle_events(&vec![key(Key::P)]), Err(NoScene {}));
    engine.add_scene(Scene::Start(StartScene {}));
    assert_eq!(
        engine.handle_events(&vec![key(Key::Return), key(Key::P)]),
        Err(NoScene {})
    );
    assert!(!engine.has_scene());
}

#[test]
fn engine_update_and_input_reach_the_scene_on_show() {
    let mut engine = Engine::new();
    engine.add_scene(game());
    let left = |x, y| Event::MouseButtonDown { button: MouseButton::Left, x, y };
    let release = Event::MouseButtonUp { button: MouseButton::Left, x: 0, y: 0 };
    assert_eq!(engine.handle_input(vec![left(0, 8)]), Ok(()));
    assert_eq!(engine.handle_input(vec![Event::MouseMotion { x: 8, y: 8 }]), Ok(()));
    assert_eq!(engine.handle_input(vec![Event::MouseMotion { x: 16, y: 8 }]), Ok(()));
    assert_eq!(
        engine.handle_input(vec![Event::MouseMotion { x: 32, y: 8 }]),
        Err(PointerOffBoard { x: 32, y: 8 })
    );
    assert_eq!(engine.handle_input(vec![release, key(Key::D)]), Ok(()));
    engine.update(0);
    engine.update(10);
    let alive = Color { r: 255, g: 153, b: 0 };
    let frame = engine.render(32, 24);
    let lit: Vec<usize> =
        frame.tiles.iter().enumerate().filter(|(_, t)| t.color == alive).map(|(i, _)| i).collect();
    assert_eq!(lit, vec![1, 5, 9]);
    // On the pause screen time stands still and input goes nowhere.
    assert_eq!(engine.handle_events(&vec![key(Key::P)]), Ok(EngineAction::Continue));
    engine.update(1_000);
    assert_eq!(engine.handle_input(vec![left(900, 900)]), Ok(()));
    assert_eq!(engine.handle_events(&vec![key(Key::P)]), Ok(EngineAction::Continue));
    let frame = engine.render(32, 24);
    let lit: Vec<usize> =
        frame.tiles.iter().enumerate().filter(|(_, t)| t.color == alive).map(|(i, _)| i).collect();
    assert_eq!(lit, vec![1, 5, 9]);
}

#[test]
fn engine_without_a_scene_takes_ticks_and_input() {
    let mut engine = Engine::new();
    engine.update(5);
    assert_eq!(engine.handle_input(vec![key(Key::D)]), Ok(()));
    assert!(!engine.has_scene());
}
