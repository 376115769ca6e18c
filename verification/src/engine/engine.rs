use vstd::prelude::*;
use crate::engine::scene::{Scene, SceneEvent, SceneStack, SceneView};
use crate::frame::Frame;
use crate::input::{Event, Key, PointerOffBoard};
use crate::scenes::PauseScene;

verus! {

/// Whether the engine shows the pause screen.
#[derive(Clone, Copy, Debug, PartialEq, Eq, Structural)]
pub enum EngineState {
    Paused,
    Running,
}

/// What the host is to do once the engine has taken an event in.
#[derive(Clone, Copy, Debug, PartialEq, Eq, Structural)]
pub enum EngineAction {
    Continue,
    Quit,
}

/// An event arrived while the engine held no scene to show it to.
#[derive(Clone, Copy, Debug, PartialEq, Eq, Structural)]
pub struct NoScene {}

/// What the host needs to open its window: a title, the grid's size in
/// squares, and the side of one square in pixels.
#[derive(Clone, Copy, Debug)]
pub struct EngineMeta {
    pub title: &'static str,
    pub width: u32,
    pub height: u32,
    pub scale: u32,
}

impl EngineMeta {
    pub fn new(title: &'static str, width: u32, height: u32, scale: u32) -> (meta: Self)
        ensures
            meta.title == title,
            meta.width == width,
            meta.height == height,
            meta.scale == scale,
    {
        EngineMeta { title, width, height, scale }
    }

    /// The window's width and height in pixels, if both can be written
    /// down in 32 bits.
    pub fn window_size(&self) -> (size: Option<(u32, u32)>)
        ensures
            match size {
                Some((wide, high)) => wide == self.width * self.scale && high == self.height
                    * self.scale,
                None => self.width * self.scale > u32::MAX || self.height * self.scale > u32::MAX,
            },
    {
        match (self.width.checked_mul(self.scale), self.height.checked_mul(self.scale)) {
            (Some(wide), Some(high)) => Some((wide, high)),
            _ => None,
        }
    }
}

/// The mathematical picture of the engine: its scenes, the one on show
/// last, and whether it is paused.
pub struct EngineView {
    pub scenes: Seq<SceneView>,
    pub state: EngineState,
}

impl EngineView {
    /// Whether the event asks for the program to end: the window was
    /// closed, or `Q` was pressed.
    pub open spec fn quits(event: Event) -> bool {
        event is Quit || event == (Event::KeyDown { key: Key::Q })
    }

    /// The scenes after the one on show has had its say: it is taken down
    /// if it asks to be.
    pub open spec fn heard(self, event: Event) -> EngineView {
        if self.scenes.len() > 0 && self.scenes.last().pops(event) {
            EngineView { scenes: self.scenes.drop_last(), ..self }
        } else {
            self
        }
    }

    /// The engine after the pause key: the pause screen goes up, or, if the
    /// engine was paused, the scene on show comes down.
    pub open spec fn pause_toggled(self) -> EngineView {
        match self.state {
            EngineState::Paused => EngineView {
                scenes: if self.scenes.len() > 0 {
                    self.scenes.drop_last()
                } else {
                    self.scenes
                },
                state: EngineState::Running,
            },
            EngineState::Running => EngineView {
                scenes: self.scenes.push(SceneView::Pause),
                state: EngineState::Paused,
            },
        }
    }

    /// The engine after one event. The scene on show has its say first;
    /// then `P` switches the pause screen on or off.
    pub open spec fn after_event(self, event: Event) -> EngineView {
        if event == (Event::KeyDown { key: Key::P }) {
            self.heard(event).pause_toggled()
        } else {
            self.heard(event)
        }
    }

    /// The engine after a batch of events, and how the batch ended. Events
    /// are taken in order. The batch ends with the first event that asks to
    /// quit, which is still shown to the scene on top, and before the first
    /// event that finds no scene to be shown to.
    pub open spec fn after_events(self, events: Seq<Event>) -> (
        EngineView,
        Result<EngineAction, NoScene>,
    )
        decreases events.len(),
    {
        if events.len() == 0 {
            (self, Ok(EngineAction::Continue))
        } else {
            let (engine, ended) = self.after_events(events.drop_last());
            let event = events.last();
            if ended != Ok::<EngineAction, NoScene>(EngineAction::Continue) {
                (engine, ended)
            } else if engine.scenes.len() == 0 {
                (engine, Err(NoScene {  }))
            } else if Self::quits(event) {
                (engine.heard(event), Ok(EngineAction::Quit))
            } else {
                (engine.after_event(event), Ok(EngineAction::Continue))
            }
        }
    }

    /// The engine after a tick at `now`: the scene on show keeps time.
    pub open spec fn ticked(self, now: u64) -> EngineView {
        if self.scenes.len() > 0 {
            EngineView {
                scenes: self.scenes.update(self.scenes.len() - 1, self.scenes.last().ticked(now)),
                ..self
            }
        } else {
            self
        }
    }

    /// Whether a tick would overrun the generation count of the scene on
    /// show.
    pub open spec fn can_tick(self) -> bool {
        self.scenes.len() > 0 ==> self.scenes.last().can_tick()
    }

    /// The engine after the scene on show was handed a batch of events.
    pub open spec fn after_input(self, events: Seq<Event>) -> EngineView {
        if self.scenes.len() > 0 {
            EngineView {
                scenes: self.scenes.update(
                    self.scenes.len() - 1,
                    self.scenes.last().after_events(events).0,
                ),
                ..self
            }
        } else {
            self
        }
    }
}

/// The scenes and the pause switch of the program. The host owns the
/// window and the event queue; this is what decides.
#[derive(Debug)]
pub struct Engine {
    scene_stack: SceneStack,
    state: EngineState,
}

impl View for Engine {
    type V = EngineView;

    closed spec fn view(&self) -> EngineView {
        EngineView { scenes: self.scene_stack@, state: self.state }
    }
}

impl Engine {
    /// Every scene the engine holds keeps its own invariant.
    pub closed spec fn wf(&self) -> bool {
        self.scene_stack.wf()
    }

    /// An engine that runs and holds no scene yet.
    pub fn new() -> (engine: Self)
        ensures
            engine.wf(),
            engine@.scenes.len() == 0,
            engine@.state == EngineState::Running,
    {
        Engine { scene_stack: SceneStack::new(), state: EngineState::Running }
    }

    /// Whether `update` may be called: the generation count of the scene
    /// on show, if it keeps one, has room for one more.
    pub fn can_tick(&self) -> (ok: bool)
        ensures
            ok == self@.can_tick(),
    {
        match self.scene_stack.top() {
            Some(scene) => scene.can_tick(),
            None => true,
        }
    }

    /// Moves the clock of the scene on show to `now`, the host's time in
    /// milliseconds.
    pub fn update(&mut self, now: u64)
        requires
            old(self).wf(),
            old(self)@.can_tick(),
        ensures
            final(self).wf(),
            final(self)@ == old(self)@.ticked(now),
    {
        if let Some(state) = self.scene_stack.top_mut() {
            state.update(now);
        }
    }

    /// What the scene on show puts on screen in a window `width` by
    /// `height` pixels.
    pub fn render(&self, width: u32, height: u32) -> (frame: Frame)
        requires
            self.wf(),
            self@.scenes.len() > 0,
        ensures
            frame@ == self@.scenes.last().frame(width, height),
    {
        match self.scene_stack.top() {
            Some(state) => state.render(width, height),
            None => {
                proof {
                    assert(false);
                }
                unreached()
            },
        }
    }

    /// Puts a scene underneath all those the engine holds.
    pub fn add_scene(&mut self, scene: Scene)
        requires
            old(self).wf(),
            scene.wf(),
        ensures
            final(self).wf(),
            final(self)@.scenes == seq![scene@] + old(self)@.scenes,
            final(self)@.state == old(self)@.state,
    {
        self.scene_stack.add_scene(scene);
    }

    /// Whether the engine holds a scene, as `render` and `handle_event`
    /// need it to.
    pub fn has_scene(&self) -> (yes: bool)
        ensures
            yes == (self@.scenes.len() > 0),
    {
        self.scene_stack.len() > 0
    }

    /// Takes in one event and says whether the program goes on.
    pub fn handle_event(&mut self, event: Event) -> (action: EngineAction)
        requires
            old(self).wf(),
            old(self)@.scenes.len() > 0,
        ensures
            final(self).wf(),
            action == (if EngineView::quits(event) {
                EngineAction::Quit
            } else {
                EngineAction::Continue
            }),
            final(self)@ == (if EngineView::quits(event) {
                old(self)@.heard(event)
            } else {
                old(self)@.after_event(event)
            }),
    {
        let wish = match self.scene_stack.top() {
            Some(scene) => scene.think(event),
            None => None,
        };
        match wish {
            Some(SceneEvent::Pop) => self.scene_stack.drop(),
            Some(SceneEvent::Push(new)) => self.scene_stack.push(new),
            None => {},
        }
        match event {
            Event::Quit => EngineAction::Quit,
            Event::KeyDown { key } => match key {
                Key::Q => EngineAction::Quit,
                Key::P => {
                    match self.state {
                        EngineState::Paused => {
                            self.scene_stack.drop();
                            self.state = EngineState::Running;
                        },
                        EngineState::Running => {
                            self.scene_stack.push(Scene::Pause(PauseScene {  }));
                            self.state = EngineState::Paused;
                        },
                    }
                    EngineAction::Continue
                },
                _ => EngineAction::Continue,
            },
            _ => EngineAction::Continue,
        }
    }

    /// Takes in a batch of events in order and says whether the program
    /// goes on. The batch ends early at an event that asks to quit, and, with
    /// an error, at an event that finds the engine without a scene.
    pub fn handle_events(&mut self, events: &Vec<Event>) -> (ended: Result<EngineAction, NoScene>)
        requires
            old(self).wf(),
        ensures
            final(self).wf(),
            final(self)@ == old(self)@.after_events(events@).0,
            ended == old(self)@.after_events(events@).1,
    {
        let mut idx: usize = 0;
        while idx < events.len()
            invariant
                idx <= events@.len(),
                self.wf(),
                old(self)@.after_events(events@.take(idx as int)) == (
                    self@,
                    Ok::<EngineAction, NoScene>(EngineAction::Continue),
                ),
            decreases events@.len() - idx,
        {
            let event = events[idx];
            proof {
                assert(events@.take(idx + 1).drop_last() =~= events@.take(idx as int));
                assert(events@.take(idx + 1).last() == event);
            }
            if !self.has_scene() {
                proof {
                    lemma_ended_stays(old(self)@, events@, idx + 1);
                }
                return Err(NoScene {  });
            }
            match self.handle_event(event) {
                EngineAction::Quit => {
                    proof {
                        lemma_ended_stays(old(self)@, events@, idx + 1);
                    }
                    return Ok(EngineAction::Quit);
                },
                EngineAction::Continue => {},
            }
            idx += 1;
        }
        proof {
            assert(events@.take(idx as int) =~= events@);
        }
        Ok(EngineAction::Continue)
    }

    /// Hands a batch of events to the scene on show. The error is the
    /// simulation's: the pointer should have drawn but was over no square.
    pub fn handle_input(&mut self, events: Vec<Event>) -> (done: Result<(), PointerOffBoard>)
        requires
            old(self).wf(),
        ensures
            final(self).wf(),
            final(self)@ == old(self)@.after_input(events@),
            done is Ok <==> (old(self)@.scenes.len() > 0 ==> old(self)@.scenes.last().after_events(
                events@,
            ).1),
    {
        match self.scene_stack.top_mut() {
            Some(state) => state.handle_events(events),
            None => Ok(()),
        }
    }
}

/// Once a batch has ended, the events after its end change nothing.
proof fn lemma_ended_stays(engine: EngineView, events: Seq<Event>, k: int)
    requires
        0 <= k <= events.len(),
        engine.after_events(events.take(k)).1 != Ok::<EngineAction, NoScene>(
            EngineAction::Continue,
        ),
    ensures
        engine.after_events(events) == engine.after_events(events.take(k)),
    decreases events.len() - k,
{
    if k == events.len() {
        assert(events.take(k) =~= events);
    } else {
        assert(events.drop_last().take(k) =~= events.take(k));
        lemma_ended_stays(engine, events.drop_last(), k);
    }
}

} // verus!
