use vstd::prelude::*;
use crate::board::Board;
use crate::frame::{Color, Frame, Label, Tile, alive_color, board_background, dead_color};
use crate::grid::{Grid, lemma_slot_of_square, lemma_square_of_slot};
use crate::input::{Event, Key, MouseButton, PointerOffBoard};

verus! {

/// Whether the simulation runs by itself or waits to be drawn on.
#[derive(Clone, Copy, Debug, PartialEq, Eq, Structural)]
pub enum GameMode {
    Playing,
    Editing,
}

/// Where the pointer was last seen, and which of its buttons are held.
#[derive(Clone, Copy, Debug, PartialEq, Eq, Structural)]
pub struct MouseStates {
    pub left: bool,
    pub right: bool,
    pub x: i32,
    pub y: i32,
}

impl MouseStates {
    pub fn new() -> (states: Self)
        ensures
            states == (MouseStates { left: false, right: false, x: 0, y: 0 }),
    {
        MouseStates { left: false, right: false, x: 0, y: 0 }
    }
}

/// The milliseconds between two generations at `speed` generations per
/// second. A speed of zero stands for a simulation that never moves on its
/// own.
pub open spec fn interval_millis(speed: nat) -> nat {
    if speed == 0 {
        u64::MAX as nat
    } else {
        1000nat / speed
    }
}

/// Whether a board of `width` by `height` squares, each drawn `scale`
/// pixels wide, can be held and drawn: nothing is zero, the squares can be
/// counted, and every pixel has a signed 32-bit coordinate.
pub open spec fn drawable(width: int, height: int, scale: int) -> bool {
    &&& width > 0
    &&& height > 0
    &&& scale > 0
    &&& width * height <= usize::MAX
    &&& width * scale <= i32::MAX
    &&& height * scale <= i32::MAX
}

/// The mathematical picture of a running simulation.
pub struct SceneState {
    pub grid: Grid,
    pub cell_size: nat,
    pub round: nat,
    pub mode: GameMode,
    /// When the board last moved on, in the host's milliseconds; `None`
    /// until the first tick after play began.
    pub last_update: Option<u64>,
    pub update_interval: u64,
    pub mouse: MouseStates,
}

impl SceneState {
    /// A simulation has a well-formed grid that can be held and drawn at
    /// its cell size.
    pub open spec fn wf(self) -> bool {
        &&& self.grid.wf()
        &&& drawable(self.grid.width as int, self.grid.height as int, self.cell_size as int)
    }

    /// A fresh simulation: an empty board, waiting to be drawn on.
    pub open spec fn initial(width: nat, height: nat, scale: nat, speed: nat) -> SceneState {
        SceneState {
            grid: Grid { width, height, cells: Seq::new(width * height, |i: int| false) },
            cell_size: scale,
            round: 0,
            mode: GameMode::Editing,
            last_update: None,
            update_interval: interval_millis(speed) as u64,
            mouse: MouseStates { left: false, right: false, x: 0, y: 0 },
        }
    }

    /// The column of the square under the pointer.
    pub open spec fn pointer_column(self) -> int {
        self.mouse.x as int / self.cell_size as int
    }

    /// The row of the square under the pointer.
    pub open spec fn pointer_row(self) -> int {
        self.mouse.y as int / self.cell_size as int
    }

    /// Whether the pixel at `(x, y)` is over a square of the board.
    pub open spec fn on_board(self, x: i32, y: i32) -> bool {
        &&& x >= 0
        &&& y >= 0
        &&& self.grid.contains(x as int / self.cell_size as int, y as int / self.cell_size as int)
    }

    /// Whether the pointer is over a square of the board.
    pub open spec fn pointer_on_board(self) -> bool {
        self.on_board(self.mouse.x, self.mouse.y)
    }

    /// Whether the pointer is drawing: only while editing, and only with a
    /// button held.
    pub open spec fn paints(self) -> bool {
        self.mode == GameMode::Editing && (self.mouse.left || self.mouse.right)
    }

    /// Whether the square the pointer would write to exists.
    pub open spec fn pointer_ready(self) -> bool {
        self.paints() ==> self.pointer_on_board()
    }

    /// The state after the pointer has drawn: the left button revives the
    /// square under it, the right button alone kills it.
    pub open spec fn painted(self) -> SceneState {
        if self.paints() {
            SceneState {
                grid: self.grid.with_slot(
                    self.grid.slot(self.pointer_column(), self.pointer_row()),
                    self.mouse.left,
                ),
                ..self
            }
        } else {
            self
        }
    }

    /// The state after a restart: an empty board of the same size, the
    /// count back at zero, and editing.
    pub open spec fn restarted(self) -> SceneState {
        SceneState { grid: self.grid.cleared(), round: 0, mode: GameMode::Editing, ..self }
    }

    /// The state after the play/edit switch. Play begins with the timer
    /// unset.
    pub open spec fn toggled(self) -> SceneState {
        match self.mode {
            GameMode::Editing => SceneState {
                mode: GameMode::Playing,
                last_update: None,
                ..self
            },
            GameMode::Playing => SceneState { mode: GameMode::Editing, ..self },
        }
    }

    /// The state after a pointer button went down or up at pixel `(x, y)`.
    /// Buttons are only followed while editing; a press also tells where
    /// the pointer is.
    pub open spec fn after_button(self, button: MouseButton, down: bool, x: i32, y: i32) -> SceneState {
        if self.mode != GameMode::Editing {
            self
        } else {
            let at_x = if down { x } else { self.mouse.x };
            let at_y = if down { y } else { self.mouse.y };
            match button {
                MouseButton::Left => SceneState {
                    mouse: MouseStates { left: down, x: at_x, y: at_y, ..self.mouse },
                    ..self
                },
                MouseButton::Right => SceneState {
                    mouse: MouseStates { right: down, x: at_x, y: at_y, ..self.mouse },
                    ..self
                },
                MouseButton::Other => self,
            }
        }
    }

    /// The state once an event has been taken note of, before the pointer
    /// draws: the pointer is followed, `R` restarts, `D` switches between
    /// play and editing.
    pub open spec fn heard(self, event: Event) -> SceneState {
        match event {
            Event::MouseMotion { x, y } => SceneState {
                mouse: MouseStates { x, y, ..self.mouse },
                ..self
            },
            Event::KeyDown { key: Key::R } => self.restarted(),
            Event::KeyDown { key: Key::D } => self.toggled(),
            Event::MouseButtonDown { button, x, y } => self.after_button(button, true, x, y),
            Event::MouseButtonUp { button, x, y } => self.after_button(button, false, x, y),
            _ => self,
        }
    }

    /// Whether the event gives the pointer cause to draw: it moved, or its
    /// left or right button went down.
    pub open spec fn draws(event: Event) -> bool {
        event is MouseMotion || (event matches Event::MouseButtonDown { button, .. } && button
            != MouseButton::Other)
    }

    /// Whether the event can be taken in: if the pointer draws on it, it
    /// draws on the board.
    pub open spec fn admits(self, event: Event) -> bool {
        Self::draws(event) ==> self.heard(event).pointer_ready()
    }

    /// The state after one event. A press while editing draws at once, and
    /// so does every move of the pointer while a button is held.
    pub open spec fn after_event(self, event: Event) -> SceneState {
        if Self::draws(event) {
            self.heard(event).painted()
        } else {
            self.heard(event)
        }
    }

    /// The state after the events of a batch, first to last, and whether
    /// all of them could be taken in. The first event that cannot be is
    /// taken note of, nothing is drawn for it, and the batch ends there.
    pub open spec fn taken(self, events: Seq<Event>) -> (SceneState, bool)
        decreases events.len(),
    {
        if events.len() == 0 {
            (self, true)
        } else {
            let (state, ok) = self.taken(events.drop_last());
            if !ok {
                (state, false)
            } else if !state.admits(events.last()) {
                (state.heard(events.last()), false)
            } else {
                (state.after_event(events.last()), true)
            }
        }
    }

    /// The state after a batch of events, and whether the batch went
    /// through. When its events are taken in, the pointer draws once more
    /// where it stands; if it then stands over no square, nothing is drawn
    /// and the batch has not gone through.
    pub open spec fn after_events(self, events: Seq<Event>) -> (SceneState, bool) {
        let (state, ok) = self.taken(events);
        if ok && state.pointer_ready() {
            (state.painted(), true)
        } else {
            (state, false)
        }
    }

    /// The milliseconds since the board last moved on; zero if the clock
    /// went backwards or the timer is unset.
    pub open spec fn elapsed(self, now: u64) -> int {
        match self.last_update {
            Some(then) => if now >= then {
                now - then
            } else {
                0
            },
            None => 0,
        }
    }

    /// Whether, at `now`, a whole interval has passed since the board last
    /// moved on.
    pub open spec fn due(self, now: u64) -> bool {
        self.last_update is Some && self.elapsed(now) >= self.update_interval
    }

    /// Whether a tick at `now` moves the board on.
    pub open spec fn advances(self, now: u64) -> bool {
        self.mode == GameMode::Playing && self.due(now)
    }

    /// The state after a tick at `now`. Outside play nothing happens. The
    /// first tick of a spell of play only sets the timer. After that the
    /// board moves on one generation whenever an interval has passed.
    pub open spec fn ticked(self, now: u64) -> SceneState {
        if self.mode != GameMode::Playing {
            self
        } else if self.last_update is None {
            SceneState { last_update: Some(now), ..self }
        } else if self.due(now) {
            SceneState {
                grid: self.grid.step(),
                round: self.round + 1,
                last_update: Some(now),
                ..self
            }
        } else {
            self
        }
    }

    /// The squares as they are drawn: one tile per cell, row by row, a
    /// pixel narrower than the cell size so that the background shows
    /// between them.
    pub open spec fn tiles(self) -> Seq<Tile> {
        Seq::new(
            self.grid.cells.len(),
            |i: int|
                Tile {
                    x: ((i % (self.grid.width as int)) * self.cell_size) as i32,
                    y: ((i / (self.grid.width as int)) * self.cell_size) as i32,
                    width: (self.cell_size - 1) as u32,
                    height: (self.cell_size - 1) as u32,
                    color: if self.grid.cells[i] {
                        alive_color()
                    } else {
                        dead_color()
                    },
                },
        )
    }
}

/// Whether the event comes from the pointer.
pub open spec fn is_pointer_event(event: Event) -> bool {
    event is MouseButtonDown || event is MouseButtonUp || event is MouseMotion
}

impl SceneState {
    /// While the simulation plays, the pointer cannot touch the board: every
    /// pointer event can be taken in wherever the pointer is, none changes a
    /// square, and a button going down or up changes nothing at all.
    pub proof fn lemma_playing_ignores_pointer(self, event: Event)
        requires
            self.mode == GameMode::Playing,
            is_pointer_event(event),
        ensures
            self.admits(event),
            self.after_event(event).grid == self.grid,
            self.after_events(seq![event]) == (self.after_event(event), true),
            !(event is MouseMotion) ==> self.after_event(event) == self,
    {
        self.lemma_after_one_event(event);
    }

    /// A batch of one event that can be taken in is that event, followed by
    /// the pointer drawing where it stands.
    pub proof fn lemma_after_one_event(self, event: Event)
        requires
            self.admits(event),
        ensures
            self.taken(seq![event]) == (self.after_event(event), true),
            self.after_event(event).pointer_ready() ==> self.after_events(seq![event]) == (
                self.after_event(event).painted(),
                true,
            ),
    {
        reveal_with_fuel(SceneState::taken, 2);
        assert(seq![event].drop_last() =~= Seq::<Event>::empty());
    }

    /// Drawing twice where the pointer stands is drawing once.
    pub proof fn lemma_painted_twice(self)
        requires
            self.wf(),
            self.pointer_ready(),
        ensures
            self.painted().painted() == self.painted(),
            self.painted().pointer_ready(),
    {
        if self.paints() {
            lemma_slot_of_square(
                self.grid.width as int,
                self.grid.height as int,
                self.pointer_column(),
                self.pointer_row(),
            );
            assert(self.painted().painted().grid.cells =~= self.painted().grid.cells);
        }
    }

    /// While editing, a press of the left button over the board revives the
    /// square under the pointer, which is the pixel position divided by the
    /// cell size; a press of the right button, with the left one not held,
    /// kills it. No other square changes.
    pub proof fn lemma_press_while_editing(self, button: MouseButton, x: i32, y: i32)
        requires
            self.wf(),
            self.mode == GameMode::Editing,
            button == MouseButton::Left || (button == MouseButton::Right && !self.mouse.left),
            self.on_board(x, y),
        ensures
            ({
                let press = Event::MouseButtonDown { button, x, y };
                let column = x as int / self.cell_size as int;
                let row = y as int / self.cell_size as int;
                &&& self.admits(press)
                &&& self.after_event(press).grid == self.grid.with_slot(
                    self.grid.slot(column, row),
                    button == MouseButton::Left,
                )
                &&& self.after_events(seq![press]) == (self.after_event(press), true)
                &&& self.after_event(press).grid.alive(column, row) == (button == MouseButton::Left)
                &&& forall|a: int, b: int|
                    self.grid.contains(a, b) && !(a == column && b == row)
                        ==> #[trigger] self.after_event(press).grid.alive(a, b) == self.grid.alive(
                        a,
                        b,
                    )
            }),
    {
        let press = Event::MouseButtonDown { button, x, y };
        self.lemma_after_one_event(press);
        self.heard(press).lemma_painted_twice();
        let column = x as int / self.cell_size as int;
        let row = y as int / self.cell_size as int;
        lemma_slot_of_square(self.grid.width as int, self.grid.height as int, column, row);
        assert forall|a: int, b: int|
            self.grid.contains(a, b) && !(a == column && b == row) implies #[trigger] self.after_event(
            press,
        ).grid.alive(a, b) == self.grid.alive(a, b) by {
            lemma_slot_of_square(self.grid.width as int, self.grid.height as int, a, b);
        }
    }

    /// The generation count never goes down but on a restart, which sets it
    /// to zero: no other event touches it, and a tick leaves it or adds
    /// exactly one, the latter exactly when the board moves on.
    pub proof fn lemma_round_counts_generations(self, event: Event, now: u64)
        ensures
            event != (Event::KeyDown { key: Key::R }) ==> self.after_event(event).round
                == self.round,
            self.after_event(Event::KeyDown { key: Key::R }).round == 0,
            self.painted().round == self.round,
            self.advances(now) ==> self.ticked(now).round == self.round + 1 && self.ticked(
                now,
            ).grid == self.grid.step(),
            !self.advances(now) ==> self.ticked(now).round == self.round && self.ticked(now).grid
                == self.grid,
    {
    }

    /// The first tick after play began never moves the board on: it sets
    /// the timer. From then on a tick moves the board on exactly when a
    /// whole interval has passed since the last time it did.
    pub proof fn lemma_first_tick_sets_timer(self, now: u64, later: u64)
        requires
            self.mode == GameMode::Editing,
            now <= later,
        ensures
            self.toggled().mode == GameMode::Playing,
            !self.toggled().advances(now),
            self.toggled().ticked(now).grid == self.grid,
            self.toggled().ticked(now).last_update == Some(now),
            self.toggled().ticked(now).advances(later) <==> later - now >= self.update_interval,
    {
    }
}

/// A board, the mode it is in, and what is needed to pace it and to draw
/// on it.
#[derive(Debug)]
pub struct GameScene {
    cell_size: usize,
    board: Board,
    round: usize,
    mode: GameMode,
    last_update: Option<u64>,
    update_interval: u64,
    mouse_states: MouseStates,
}

impl View for GameScene {
    type V = SceneState;

    closed spec fn view(&self) -> SceneState {
        SceneState {
            grid: self.board@,
            cell_size: self.cell_size as nat,
            round: self.round as nat,
            mode: self.mode,
            last_update: self.last_update,
            update_interval: self.update_interval,
            mouse: self.mouse_states,
        }
    }
}

/// Whether a board of this size and scale can be held and drawn.
pub fn is_drawable(width: usize, height: usize, scale: usize) -> (ok: bool)
    ensures
        ok == drawable(width as int, height as int, scale as int),
{
    if width == 0 || height == 0 || scale == 0 {
        return false;
    }
    let fits_memory = width.checked_mul(height).is_some();
    let fits_across = match width.checked_mul(scale) {
        Some(pixels) => pixels <= 0x7fff_ffff,
        None => false,
    };
    let fits_down = match height.checked_mul(scale) {
        Some(pixels) => pixels <= 0x7fff_ffff,
        None => false,
    };
    fits_memory && fits_across && fits_down
}

/// The milliseconds between two generations at `speed` generations per
/// second.
fn interval_for(speed: usize) -> (millis: u64)
    ensures
        millis == interval_millis(speed as nat),
{
    if speed == 0 {
        u64::MAX
    } else {
        (1000 / speed) as u64
    }
}

impl GameScene {
    /// The board behind the scene keeps its own invariant.
    pub closed spec fn board_wf(&self) -> bool {
        self.board.wf()
    }

    /// The scene's invariant: its picture is well formed, and so is its
    /// board.
    pub open spec fn wf(&self) -> bool {
        &&& self@.wf()
        &&& self.board_wf()
    }

    /// An empty board of `width` by `height` squares, drawn `scale` pixels
    /// to the square and paced at `speed` generations per second, waiting to
    /// be drawn on.
    pub fn new(width: usize, height: usize, scale: usize, speed: usize) -> (scene: GameScene)
        requires
            drawable(width as int, height as int, scale as int),
        ensures
            scene.wf(),
            scene@ == SceneState::initial(width as nat, height as nat, scale as nat, speed as nat),
    {
        let scene = GameScene {
            cell_size: scale,
            board: Board::new(width, height),
            round: 0,
            mode: GameMode::Editing,
            last_update: None,
            update_interval: interval_for(speed),
            mouse_states: MouseStates::new(),
        };
        proof {
            assert(scene@.grid.cells =~= Seq::new((width * height) as nat, |i: int| false));
        }
        scene
    }

    /// Tells whether the board is due to move on at `now`, the host's clock
    /// in milliseconds. The first call after play began sets the timer and
    /// answers no.
    pub fn can_update(&mut self, now: u64) -> (due: bool)
        ensures
            due == old(self)@.due(now),
            final(self)@ == (if old(self)@.last_update is None {
                SceneState { last_update: Some(now), ..old(self)@ }
            } else {
                old(self)@
            }),
            final(self).board_wf() == old(self).board_wf(),
    {
        match self.last_update {
            Some(then) => {
                let elapsed = if now >= then {
                    now - then
                } else {
                    0
                };
                elapsed >= self.update_interval
            },
            None => {
                self.last_update = Some(now);
                false
            },
        }
    }

    /// Clears the board, sets the generation count back to zero and goes
    /// back to editing.
    pub fn restart(&mut self)
        requires
            old(self).wf(),
        ensures
            final(self).wf(),
            final(self)@ == old(self)@.restarted(),
            final(self)@.round == 0,
            final(self)@.grid.all_dead(),
    {
        self.board.clear();
        self.round = 0;
        self.mode = GameMode::Editing;
    }

    /// Lets the pointer draw where it stands: while editing, a held left
    /// button revives the square under it and a held right button kills it.
    pub fn handle_mouse(&mut self)
        requires
            old(self).wf(),
            old(self)@.pointer_ready(),
        ensures
            final(self).wf(),
            final(self)@ == old(self)@.painted(),
    {
        if self.mode == GameMode::Editing && (self.mouse_states.left || self.mouse_states.right) {
            let x_pos = self.mouse_states.x as usize / self.cell_size;
            let y_pos = self.mouse_states.y as usize / self.cell_size;
            proof {
                lemma_slot_of_square(
                    self.board@.width as int,
                    self.board@.height as int,
                    x_pos as int,
                    y_pos as int,
                );
            }
            let cell = y_pos * self.board.width() + x_pos;
            if self.mouse_states.left {
                self.board.set_cell_state(cell);
            } else {
                self.board.unset_cell_state(cell);
            }
        }
    }

    /// Whether the pixel at `(x, y)` is over a square of the board.
    pub fn on_board(&self, x: i32, y: i32) -> (over: bool)
        requires
            self.wf(),
        ensures
            over == self@.on_board(x, y),
    {
        x >= 0 && y >= 0 && x as usize / self.cell_size < self.board.width() && y as usize
            / self.cell_size < self.board.height()
    }

    /// Whether `handle_mouse` may be called: the pointer is not drawing, or
    /// it is over a square.
    pub fn pointer_ready(&self) -> (ready: bool)
        requires
            self.wf(),
        ensures
            ready == self@.pointer_ready(),
    {
        if self.mode == GameMode::Editing && (self.mouse_states.left || self.mouse_states.right) {
            self.on_board(self.mouse_states.x, self.mouse_states.y)
        } else {
            true
        }
    }

    /// Whether `handle_event` may be called with this event: the pointer
    /// does not draw on it, or draws on the board.
    pub fn admits(&self, event: Event) -> (ok: bool)
        requires
            self.wf(),
        ensures
            ok == self@.admits(event),
    {
        match event {
            Event::MouseMotion { x, y } => {
                if self.mode == GameMode::Editing && (self.mouse_states.left
                    || self.mouse_states.right) {
                    self.on_board(x, y)
                } else {
                    true
                }
            },
            Event::MouseButtonDown { button, x, y } => match (self.mode, button) {
                (GameMode::Editing, MouseButton::Left) | (GameMode::Editing, MouseButton::Right) => {
                    self.on_board(x, y)
                },
                _ => true,
            },
            _ => true,
        }
    }

    /// Moves the simulation's clock to `now`, the host's time in
    /// milliseconds. While playing, the board moves on one generation each
    /// time an interval has passed; the generation count goes up with it.
    pub fn update(&mut self, now: u64)
        requires
            old(self).wf(),
            old(self)@.round < usize::MAX,
        ensures
            final(self).wf(),
            final(self)@ == old(self)@.ticked(now),
            final(self)@.round == old(self)@.round + (if old(self)@.advances(now) {
                1nat
            } else {
                0nat
            }),
            !old(self)@.advances(now) ==> final(self)@.grid == old(self)@.grid,
            old(self)@.advances(now) ==> final(self)@.grid == old(self)@.grid.step(),
    {
        match self.mode {
            GameMode::Playing => {
                if self.can_update(now) {
                    self.last_update = Some(now);
                    self.board.update();
                    self.round = self.round + 1;
                }
            },
            GameMode::Editing => {},
        }
    }

    /// Takes note of one event: the pointer is followed, `R` restarts, `D`
    /// switches between play and editing. Nothing is drawn.
    fn note(&mut self, event: Event)
        requires
            old(self).wf(),
        ensures
            final(self).wf(),
            final(self)@ == old(self)@.heard(event),
    {
        match event {
            Event::MouseMotion { x, y } => {
                self.mouse_states.x = x;
                self.mouse_states.y = y;
            },
            Event::KeyDown { key } => match key {
                Key::R => self.restart(),
                Key::D => match self.mode {
                    GameMode::Editing => {
                        self.mode = GameMode::Playing;
                        self.last_update = None;
                    },
                    GameMode::Playing => {
                        self.mode = GameMode::Editing;
                    },
                },
                _ => {},
            },
            Event::MouseButtonDown { button, x, y } => match self.mode {
                GameMode::Editing => match button {
                    MouseButton::Left => {
                        self.mouse_states.left = true;
                        self.mouse_states.x = x;
                        self.mouse_states.y = y;
                    },
                    MouseButton::Right => {
                        self.mouse_states.right = true;
                        self.mouse_states.x = x;
                        self.mouse_states.y = y;
                    },
                    _ => {},
                },
                _ => {},
            },
            Event::MouseButtonUp { button, x, y } => match self.mode {
                GameMode::Editing => match button {
                    MouseButton::Left => {
                        self.mouse_states.left = false;
                    },
                    MouseButton::Right => {
                        self.mouse_states.right = false;
                    },
                    _ => {},
                },
                _ => {},
            },
            _ => {},
        }
    }

    /// Whether the event gives the pointer cause to draw.
    fn draws(event: Event) -> (yes: bool)
        ensures
            yes == SceneState::draws(event),
    {
        match event {
            Event::MouseMotion { .. } => true,
            Event::MouseButtonDown { button, .. } => match button {
                MouseButton::Other => false,
                _ => true,
            },
            _ => false,
        }
    }

    /// Takes in one event: the pointer is followed, `R` restarts, `D`
    /// switches between play and editing, and while editing a press or a
    /// move with a button held draws at once.
    pub fn handle_event(&mut self, event: Event)
        requires
            old(self).wf(),
            old(self)@.admits(event),
        ensures
            final(self).wf(),
            final(self)@ == old(self)@.after_event(event),
    {
        self.note(event);
        if Self::draws(event) {
            self.handle_mouse();
        }
    }

    /// Takes in a batch of events in order, then lets the pointer draw once
    /// more where it ended up. If the pointer should draw but is over no
    /// square, the batch ends there: what came before stays done, nothing
    /// more is drawn, and the pointer's position comes back as the error.
    pub fn handle_events(&mut self, events: Vec<Event>) -> (done: Result<(), PointerOffBoard>)
        requires
            old(self).wf(),
        ensures
            final(self).wf(),
            final(self)@ == old(self)@.after_events(events@).0,
            done is Ok <==> old(self)@.after_events(events@).1,
            done is Err ==> done->Err_0 == (PointerOffBoard {
                x: final(self)@.mouse.x,
                y: final(self)@.mouse.y,
            }),
    {
        let mut idx: usize = 0;
        while idx < events.len()
            invariant
                idx <= events@.len(),
                self.wf(),
                old(self)@.taken(events@.take(idx as int)) == (self@, true),
            decreases events@.len() - idx,
        {
            let event = events[idx];
            proof {
                assert(events@.take(idx + 1).drop_last() =~= events@.take(idx as int));
                assert(events@.take(idx + 1).last() == event);
            }
            self.note(event);
            if Self::draws(event) {
                if !self.pointer_ready() {
                    proof {
                        lemma_taken_stays(old(self)@, events@, idx + 1);
                    }
                    return Err(PointerOffBoard { x: self.mouse_states.x, y: self.mouse_states.y });
                }
                self.handle_mouse();
            }
            idx += 1;
        }
        proof {
            assert(events@.take(idx as int) =~= events@);
        }
        if self.pointer_ready() {
            self.handle_mouse();
            Ok(())
        } else {
            Err(PointerOffBoard { x: self.mouse_states.x, y: self.mouse_states.y })
        }
    }

    /// What to put on screen: the background, then one tile for each cell.
    pub fn render(&self) -> (frame: Frame)
        requires
            self.wf(),
        ensures
            frame@.background == board_background(),
            frame@.tiles == self@.tiles(),
            frame@.labels.len() == 0,
    {
        let cells = self.board.clone_cells();
        let width = self.board.width();
        let height = self.board.height();
        proof {
            let scale = self.cell_size as int;
            assert(scale <= width * scale) by (nonlinear_arith)
                requires
                    width >= 1,
                    scale > 0,
            ;
        }
        let side = (self.cell_size - 1) as u32;
        let mut tiles: Vec<Tile> = Vec::new();
        let mut idx: usize = 0;
        while idx < cells.len()
            invariant
                self.wf(),
                cells@ == self@.grid.snapshot(),
                width == self@.grid.width,
                height == self@.grid.height,
                side == self@.cell_size - 1,
                idx <= cells@.len(),
                tiles@.len() == idx,
                forall|i: int| 0 <= i < idx ==> #[trigger] tiles@[i] == self@.tiles()[i],
            decreases cells@.len() - idx,
        {
            let cell = cells[idx];
            proof {
                lemma_square_of_slot(width as int, height as int, idx as int);
                let scale = self.cell_size as int;
                let x = cell.x as int;
                let y = cell.y as int;
                assert(0 <= x * scale <= width * scale && 0 <= y * scale <= height * scale)
                    by (nonlinear_arith)
                    requires
                        0 <= x < width,
                        0 <= y < height,
                        scale > 0,
                ;
            }
            let color = if cell.is_alive() {
                Color::alive()
            } else {
                Color::dead()
            };
            tiles.push(
                Tile {
                    x: (cell.x * self.cell_size) as i32,
                    y: (cell.y * self.cell_size) as i32,
                    width: side,
                    height: side,
                    color,
                },
            );
            idx += 1;
        }
        proof {
            assert(tiles@ =~= self@.tiles());
        }
        let labels: Vec<Label> = Vec::new();
        Frame { background: Color::board(), tiles, labels }
    }

    pub fn mode(&self) -> (mode: GameMode)
        ensures
            mode == self@.mode,
    {
        self.mode
    }

    pub fn round(&self) -> (round: usize)
        ensures
            round == self@.round,
    {
        self.round
    }

    pub fn cell_size(&self) -> (cell_size: usize)
        ensures
            cell_size == self@.cell_size,
    {
        self.cell_size
    }

    pub fn mouse_states(&self) -> (states: MouseStates)
        ensures
            states == self@.mouse,
    {
        self.mouse_states
    }

    /// The board as it stands, for reading.
    pub fn board(&self) -> (board: &Board)
        ensures
            board@ == self@.grid,
            self.wf() ==> board.wf(),
    {
        &self.board
    }
}

/// Once a batch has ended early, the events after its end change nothing.
proof fn lemma_taken_stays(state: SceneState, events: Seq<Event>, k: int)
    requires
        0 <= k <= events.len(),
        !state.taken(events.take(k)).1,
    ensures
        state.taken(events) == state.taken(events.take(k)),
    decreases events.len() - k,
{
    if k == events.len() {
        assert(events.take(k) =~= events);
    } else {
        assert(events.drop_last().take(k) =~= events.take(k));
        lemma_taken_stays(state, events.drop_last(), k);
    }
}

} // verus!
