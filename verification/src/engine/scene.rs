use vstd::prelude::*;
use crate::frame::{Frame, FrameView, board_background};
use crate::game::{GameScene, SceneState};
use crate::input::{Event, PointerOffBoard};
use crate::scenes::{PauseScene, StartScene, leaves_start, pause_screen, start_screen};

verus! {

/// What a scene asks of the stack it stands on.
#[derive(Debug)]
pub enum SceneEvent {
    Pop,
    Push(Scene),
}

/// One of the screens the engine can show.
#[derive(Debug)]
pub enum Scene {
    Start(StartScene),
    Pause(PauseScene),
    Game(GameScene),
}

/// The mathematical picture of a scene.
pub enum SceneView {
    Start,
    Pause,
    Game(SceneState),
}

impl SceneView {
    /// Whether a scene of this kind asks to be taken down on this event.
    pub open spec fn pops(self, event: Event) -> bool {
        self is Start && leaves_start(event)
    }

    /// The scene after a tick at `now`: only the simulation keeps time.
    pub open spec fn ticked(self, now: u64) -> SceneView {
        match self {
            SceneView::Game(state) => SceneView::Game(state.ticked(now)),
            other => other,
        }
    }

    /// Whether a tick would overrun the generation count.
    pub open spec fn can_tick(self) -> bool {
        self matches SceneView::Game(state) ==> state.round < usize::MAX
    }

    /// The scene after a batch of events, and whether the batch went
    /// through. Only the simulation listens.
    pub open spec fn after_events(self, events: Seq<Event>) -> (SceneView, bool) {
        match self {
            SceneView::Game(state) => (
                SceneView::Game(state.after_events(events).0),
                state.after_events(events).1,
            ),
            other => (other, true),
        }
    }

    /// What the scene shows in a window `width` by `height` pixels.
    pub open spec fn frame(self, width: u32, height: u32) -> FrameView {
        match self {
            SceneView::Start => start_screen(width),
            SceneView::Pause => pause_screen(width, height),
            SceneView::Game(state) => FrameView {
                background: board_background(),
                tiles: state.tiles(),
                labels: Seq::empty(),
            },
        }
    }
}

impl View for Scene {
    type V = SceneView;

    open spec fn view(&self) -> SceneView {
        match self {
            Scene::Start(_) => SceneView::Start,
            Scene::Pause(_) => SceneView::Pause,
            Scene::Game(game) => SceneView::Game(game@),
        }
    }
}

impl Scene {
    /// A scene's invariant is that of the simulation, if it is one.
    pub open spec fn wf(&self) -> bool {
        self matches Scene::Game(game) ==> game.wf()
    }

    /// What to put on screen in a window `width` by `height` pixels.
    pub fn render(&self, width: u32, height: u32) -> (frame: Frame)
        requires
            self.wf(),
        ensures
            frame@ == self@.frame(width, height),
    {
        match self {
            Scene::Start(start) => start.render(width, height),
            Scene::Pause(pause) => pause.render(width, height),
            Scene::Game(game) => {
                let frame = game.render();
                proof {
                    assert(frame@.labels =~= Seq::empty());
                }
                frame
            },
        }
    }

    /// Whether `update` may be called: the scene's generation count, if it
    /// keeps one, has room for one more.
    pub fn can_tick(&self) -> (ok: bool)
        ensures
            ok == self@.can_tick(),
    {
        match self {
            Scene::Game(game) => game.round() < usize::MAX,
            _ => true,
        }
    }

    /// Moves the scene's clock to `now`, the host's time in milliseconds.
    pub fn update(&mut self, now: u64)
        requires
            old(self).wf(),
            old(self)@.can_tick(),
        ensures
            final(self).wf(),
            final(self)@ == old(self)@.ticked(now),
    {
        match self {
            Scene::Start(start) => start.update(),
            Scene::Pause(pause) => pause.update(),
            Scene::Game(game) => game.update(now),
        }
    }

    /// Hands the scene a batch of events. The error is the simulation's:
    /// the pointer should have drawn but was over no square.
    pub fn handle_events(&mut self, events: Vec<Event>) -> (done: Result<(), PointerOffBoard>)
        requires
            old(self).wf(),
        ensures
            final(self).wf(),
            final(self)@ == old(self)@.after_events(events@).0,
            done is Ok <==> old(self)@.after_events(events@).1,
            done matches Err(fault) ==> (final(self)@ matches SceneView::Game(state)
                && fault == (PointerOffBoard { x: state.mouse.x, y: state.mouse.y })),
    {
        match self {
            Scene::Start(start) => {
                start.handle_events(events);
                Ok(())
            },
            Scene::Pause(pause) => {
                pause.handle_events(events);
                Ok(())
            },
            Scene::Game(game) => game.handle_events(events),
        }
    }

    /// What the scene asks of the stack on this event.
    pub fn think(&self, event: Event) -> (wish: Option<SceneEvent>)
        ensures
            self@.pops(event) ==> wish matches Some(SceneEvent::Pop),
            !self@.pops(event) ==> wish is None,
    {
        match self {
            Scene::Start(start) => start.think(event),
            Scene::Pause(pause) => pause.think(event),
            Scene::Game(_) => None,
        }
    }
}

/// The scenes the engine holds, the one on show last.
#[derive(Debug)]
pub struct SceneStack {
    states: Vec<Scene>,
}

impl View for SceneStack {
    type V = Seq<SceneView>;

    closed spec fn view(&self) -> Seq<SceneView> {
        Seq::new(self.states@.len(), |i: int| self.states@[i]@)
    }
}

impl SceneStack {
    /// Every scene on the stack keeps its own invariant.
    pub closed spec fn wf(&self) -> bool {
        forall|i: int| 0 <= i < self.states@.len() ==> (#[trigger] self.states@[i]).wf()
    }

    pub fn new() -> (stack: Self)
        ensures
            stack.wf(),
            stack@.len() == 0,
    {
        SceneStack { states: Vec::new() }
    }

    /// Puts a scene on top.
    pub fn push(&mut self, state: Scene)
        requires
            old(self).wf(),
            state.wf(),
        ensures
            final(self).wf(),
            final(self)@ == old(self)@.push(state@),
    {
        self.states.push(state);
        proof {
            assert(self@ =~= old(self)@.push(state@));
        }
    }

    /// Takes the scene on top away, if there is one.
    pub fn drop(&mut self)
        requires
            old(self).wf(),
        ensures
            final(self).wf(),
            final(self)@ == (if old(self)@.len() > 0 {
                old(self)@.drop_last()
            } else {
                old(self)@
            }),
    {
        self.states.pop();
        proof {
            if old(self)@.len() > 0 {
                assert(self@ =~= old(self)@.drop_last());
            } else {
                assert(self@ =~= old(self)@);
            }
        }
    }

    /// The scene on top, if there is one.
    pub fn top(&self) -> (scene: Option<&Scene>)
        ensures
            self@.len() == 0 ==> scene is None,
            self@.len() > 0 ==> (scene matches Some(top) && top@ == self@.last() && (self.wf()
                ==> top.wf())),
    {
        let n = self.states.len();
        if n == 0 {
            None
        } else {
            Some(&self.states[n - 1])
        }
    }

    /// The scene on top, if there is one, to be changed in place.
    pub fn top_mut(&mut self) -> (scene: Option<&mut Scene>)
        requires
            old(self).wf(),
        ensures
            old(self)@.len() == 0 ==> scene is None && *final(self) == *old(self),
            old(self)@.len() > 0 ==> (scene matches Some(top) && top.wf() && top@ == old(
                self,
            )@.last() && final(self)@ == old(self)@.update(
                old(self)@.len() - 1,
                final(top)@,
            ) && (final(top).wf() ==> final(self).wf())),
    {
        let n = self.states.len();
        if n == 0 {
            None
        } else {
            Some(&mut self.states[n - 1])
        }
    }

    /// Puts a scene underneath all the others.
    pub fn add_scene(&mut self, scene: Scene)
        requires
            old(self).wf(),
            scene.wf(),
        ensures
            final(self).wf(),
            final(self)@ == seq![scene@] + old(self)@,
    {
        self.states.insert(0, scene);
        proof {
            assert(self@ =~= seq![scene@] + old(self)@);
        }
    }

    pub fn len(&self) -> (len: usize)
        ensures
            len == self@.len(),
    {
        self.states.len()
    }
}

} // verus!
