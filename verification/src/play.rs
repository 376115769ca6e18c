use vstd::prelude::*;
use crate::board::{Board, cell_from_xy};
use crate::cell::Cell;
use crate::grid::{Grid, lemma_slot_of_square};
use crate::input::{Event, Key, MouseButton, PointerOffBoard};
use crate::pattern::{PatternError, layout};

verus! {

/// Whether the board moves on by itself or stands still to be drawn on.
#[derive(Clone, Copy, Debug, PartialEq, Eq, Structural)]
pub enum PlayMode {
    Playing,
    Paused,
}

/// What the host is to do once an event has been taken in.
#[derive(Clone, Copy, Debug, PartialEq, Eq, Structural)]
pub enum GameAction {
    Continue,
    Quit,
}

/// The mathematical picture of a game.
pub struct GameState {
    pub grid: Grid,
    pub cell_size: nat,
    pub round: nat,
    pub speed: nat,
    pub mode: PlayMode,
    /// Whether the board has changed since it was last handed out to be
    /// drawn.
    pub do_draw: bool,
}

impl GameState {
    /// A game has a well-formed grid that fits the machine, and cells of
    /// some size.
    pub open spec fn wf(self) -> bool {
        &&& self.grid.wf()
        &&& self.grid.width * self.grid.height <= usize::MAX
        &&& self.cell_size > 0
    }

    /// Whether the event asks for the game to end: the window was closed,
    /// or `Escape` or `Q` was pressed.
    pub open spec fn quits(event: Event) -> bool {
        event is Quit || event == (Event::KeyDown { key: Key::Escape }) || event == (Event::KeyDown {
            key: Key::Q,
        })
    }

    /// Whether the event writes to the board: a press of the left or right
    /// button while the game is paused.
    pub open spec fn writes(self, event: Event) -> bool {
        self.mode == PlayMode::Paused && (event matches Event::MouseButtonDown { button, .. }
            && button != MouseButton::Other)
    }

    /// Whether the pixel at `(x, y)` is over a square of the board.
    pub open spec fn on_board(self, x: i32, y: i32) -> bool {
        &&& x >= 0
        &&& y >= 0
        &&& self.grid.contains(x as int / self.cell_size as int, y as int / self.cell_size as int)
    }

    /// Whether the event can be taken in: if it writes to the board, the
    /// pointer is over a square.
    pub open spec fn admits(self, event: Event) -> bool {
        self.writes(event) ==> (event matches Event::MouseButtonDown { x, y, .. } && self.on_board(
            x,
            y,
        ))
    }

    /// The state after the board was cleared: the count is back at zero and
    /// the game is paused.
    pub open spec fn restarted(self) -> GameState {
        GameState { grid: self.grid.cleared(), round: 0, mode: PlayMode::Paused, ..self }
    }

    /// The state one generation on.
    pub open spec fn stepped(self) -> GameState {
        GameState { grid: self.grid.step(), round: self.round + 1, ..self }
    }

    /// The state after one event. `P` switches between play and pause.
    /// While paused, a press of the left button revives the square under
    /// the pointer and a press of the right button kills it; while playing,
    /// the pointer is ignored.
    pub open spec fn after_event(self, event: Event) -> GameState {
        match event {
            Event::KeyDown { key: Key::P } => GameState {
                mode: match self.mode {
                    PlayMode::Paused => PlayMode::Playing,
                    PlayMode::Playing => PlayMode::Paused,
                },
                ..self
            },
            Event::MouseButtonDown { button, x, y } => if self.writes(event) {
                GameState {
                    grid: self.grid.with_slot(
                        self.grid.slot(
                            x as int / self.cell_size as int,
                            y as int / self.cell_size as int,
                        ),
                        button == MouseButton::Left,
                    ),
                    do_draw: true,
                    ..self
                }
            } else {
                self
            },
            _ => self,
        }
    }

    /// The state after a batch of events and how the batch ended. Events
    /// are taken in order. The batch ends early at the first event that
    /// asks to quit, and at the first event that would write off the board;
    /// neither that event nor any after it changes the state.
    pub open spec fn after_events(self, events: Seq<Event>) -> (
        GameState,
        Result<GameAction, PointerOffBoard>,
    )
        decreases events.len(),
    {
        if events.len() == 0 {
            (self, Ok(GameAction::Continue))
        } else {
            let (state, ended) = self.after_events(events.drop_last());
            let event = events.last();
            if ended != Ok::<GameAction, PointerOffBoard>(GameAction::Continue) {
                (state, ended)
            } else if Self::quits(event) {
                (state, Ok(GameAction::Quit))
            } else if !state.admits(event) {
                (state, Err(fault_of(event)))
            } else {
                (state.after_event(event), Ok(GameAction::Continue))
            }
        }
    }
}

impl GameState {
    /// A batch of one event is that event: it ends the game, is turned
    /// down, or is taken in.
    pub proof fn lemma_after_one_event(self, event: Event)
        ensures
            self.after_events(seq![event]) == (if Self::quits(event) {
                (self, Ok::<GameAction, PointerOffBoard>(GameAction::Quit))
            } else if !self.admits(event) {
                (self, Err::<GameAction, PointerOffBoard>(fault_of(event)))
            } else {
                (self.after_event(event), Ok::<GameAction, PointerOffBoard>(GameAction::Continue))
            }),
    {
        reveal_with_fuel(GameState::after_events, 2);
        assert(seq![event].drop_last() =~= Seq::<Event>::empty());
    }

    /// While the game plays, the pointer cannot touch the board: every
    /// pointer event can be taken in wherever the pointer is, and none
    /// changes anything.
    pub proof fn lemma_playing_ignores_pointer(self, event: Event)
        requires
            self.mode == PlayMode::Playing,
            event is MouseButtonDown || event is MouseButtonUp || event is MouseMotion,
        ensures
            self.admits(event),
            self.after_event(event) == self,
            self.after_events(seq![event]) == (
                self,
                Ok::<GameAction, PointerOffBoard>(GameAction::Continue),
            ),
    {
        self.lemma_after_one_event(event);
    }

    /// While the game is paused, a press of the left button over the board
    /// revives the square under the pointer, which is the pixel position
    /// divided by the cell size, and a press of the right button kills it.
    /// No other square changes.
    pub proof fn lemma_press_while_paused(self, button: MouseButton, x: i32, y: i32)
        requires
            self.wf(),
            self.mode == PlayMode::Paused,
            button != MouseButton::Other,
            self.on_board(x, y),
        ensures
            ({
                let press = Event::MouseButtonDown { button, x, y };
                let column = x as int / self.cell_size as int;
                let row = y as int / self.cell_size as int;
                &&& self.admits(press)
                &&& self.after_event(press).grid.alive(column, row) == (button == MouseButton::Left)
                &&& forall|a: int, b: int|
                    self.grid.contains(a, b) && !(a == column && b == row)
                        ==> #[trigger] self.after_event(press).grid.alive(a, b) == self.grid.alive(
                        a,
                        b,
                    )
            }),
    {
        let press = Event::MouseButtonDown { button, x, y };
        let column = x as int / self.cell_size as int;
        let row = y as int / self.cell_size as int;
        lemma_slot_of_square(self.grid.width as int, self.grid.height as int, column, row);
        assert forall|a: int, b: int|
            self.grid.contains(a, b) && !(a == column && b == row) implies #[trigger] self.after_event(
            press,
        ).grid.alive(a, b) == self.grid.alive(a, b) by {
            lemma_slot_of_square(self.grid.width as int, self.grid.height as int, a, b);
        }
    }
}

/// Where the pointer was when the event happened.
pub open spec fn fault_of(event: Event) -> PointerOffBoard {
    match event {
        Event::MouseButtonDown { x, y, .. } => PointerOffBoard { x, y },
        Event::MouseButtonUp { x, y, .. } => PointerOffBoard { x, y },
        Event::MouseMotion { x, y } => PointerOffBoard { x, y },
        _ => PointerOffBoard { x: 0, y: 0 },
    }
}

/// A board that plays a pattern by itself and can be paused to be drawn on.
#[derive(Debug)]
pub struct Game {
    cell_size: usize,
    board: Board,
    round: usize,
    speed: usize,
    mode: PlayMode,
    do_draw: bool,
}

impl View for Game {
    type V = GameState;

    closed spec fn view(&self) -> GameState {
        GameState {
            grid: self.board@,
            cell_size: self.cell_size as nat,
            round: self.round as nat,
            speed: self.speed as nat,
            mode: self.mode,
            do_draw: self.do_draw,
        }
    }
}

impl Game {
    /// The board behind the game keeps its own invariant.
    pub closed spec fn board_wf(&self) -> bool {
        self.board.wf()
    }

    /// The game's invariant: its picture is well formed, and so is its
    /// board.
    pub open spec fn wf(&self) -> bool {
        &&& self@.wf()
        &&& self.board_wf()
    }

    /// A game that plays the pattern in `source` from the start, drawn
    /// `scale` pixels to the square. The pattern is read as
    /// `Board::from_pattern` reads it, and turned down for the same reasons.
    pub fn new(source: &str, speed: usize, scale: usize) -> (made: Result<Game, PatternError>)
        requires
            scale > 0,
        ensures
            match layout(source@) {
                Ok(grid) => made matches Ok(game) && game.wf() && game@ == (GameState {
                    grid,
                    cell_size: scale as nat,
                    round: 0,
                    speed: speed as nat,
                    mode: PlayMode::Playing,
                    do_draw: false,
                }),
                Err(fault) => made matches Err(reported) && reported == fault,
            },
    {
        match Board::from_pattern(source) {
            Ok(board) => Ok(
                Game {
                    cell_size: scale,
                    round: 0,
                    board,
                    speed,
                    mode: PlayMode::Playing,
                    do_draw: false,
                },
            ),
            Err(fault) => Err(fault),
        }
    }

    /// Clears the board, sets the generation count back to zero and pauses.
    pub fn restart(&mut self)
        requires
            old(self).wf(),
        ensures
            final(self).wf(),
            final(self)@ == old(self)@.restarted(),
            final(self)@.round == 0,
            final(self)@.grid.all_dead(),
    {
        self.board.clear();
        self.round = 0;
        self.mode = PlayMode::Paused;
    }

    /// Moves the board on one generation and hands out its cells to be
    /// drawn.
    pub fn step(&mut self) -> (cells: Vec<Cell>)
        requires
            old(self).wf(),
            old(self)@.round < usize::MAX,
        ensures
            final(self).wf(),
            final(self)@ == old(self)@.stepped(),
            cells@ == final(self)@.grid.snapshot(),
    {
        self.board.update();
        self.round = self.round + 1;
        self.board.clone_cells()
    }

    /// The cells as they stand, to be drawn.
    pub fn draw_board(&self) -> (cells: Vec<Cell>)
        requires
            self.wf(),
        ensures
            cells@ == self@.grid.snapshot(),
    {
        self.board.clone_cells()
    }

    /// Whether `handle_event` may be called with this event.
    pub fn admits(&self, event: Event) -> (ok: bool)
        requires
            self.wf(),
        ensures
            ok == self@.admits(event),
    {
        match event {
            Event::MouseButtonDown { button, x, y } => match (self.mode, button) {
                (PlayMode::Paused, MouseButton::Left) | (PlayMode::Paused, MouseButton::Right) => {
                    x >= 0 && y >= 0 && x as usize / self.cell_size < self.board.width()
                        && y as usize / self.cell_size < self.board.height()
                },
                _ => true,
            },
            _ => true,
        }
    }

    /// Takes in one event and says whether the game goes on. A request to
    /// quit changes nothing.
    pub fn handle_event(&mut self, event: Event) -> (action: GameAction)
        requires
            old(self).wf(),
            old(self)@.admits(event),
        ensures
            final(self).wf(),
            action == (if GameState::quits(event) {
                GameAction::Quit
            } else {
                GameAction::Continue
            }),
            final(self)@ == (if GameState::quits(event) {
                old(self)@
            } else {
                old(self)@.after_event(event)
            }),
    {
        match event {
            Event::Quit => GameAction::Quit,
            Event::KeyDown { key } => match key {
                Key::Escape | Key::Q => GameAction::Quit,
                Key::P => {
                    match self.mode {
                        PlayMode::Paused => self.mode = PlayMode::Playing,
                        PlayMode::Playing => self.mode = PlayMode::Paused,
                    }
                    GameAction::Continue
                },
                _ => GameAction::Continue,
            },
            Event::MouseButtonDown { button, x, y } => {
                match self.mode {
                    PlayMode::Paused => match button {
                        MouseButton::Left => {
                            let cell = self.cell_under(x, y);
                            self.board.set_cell_state(cell);
                            self.do_draw = true;
                        },
                        MouseButton::Right => {
                            let cell = self.cell_under(x, y);
                            self.board.unset_cell_state(cell);
                            self.do_draw = true;
                        },
                        _ => {},
                    },
                    _ => {},
                }
                GameAction::Continue
            },
            _ => GameAction::Continue,
        }
    }

    /// The slot of the cell under the pixel at `(x, y)`.
    fn cell_under(&self, x: i32, y: i32) -> (cell: usize)
        requires
            self.wf(),
            self@.on_board(x, y),
        ensures
            cell == self@.grid.slot(
                x as int / self@.cell_size as int,
                y as int / self@.cell_size as int,
            ),
            cell < self@.grid.cells.len(),
    {
        proof {
            lemma_slot_of_square(
                self@.grid.width as int,
                self@.grid.height as int,
                x as int / self@.cell_size as int,
                y as int / self@.cell_size as int,
            );
        }
        cell_from_xy(self.cell_size, self.board.width(), x as usize, y as usize)
    }

    /// Takes in a batch of events in order. The batch ends early, with the
    /// events so far taken in, at an event that asks to quit and at a
    /// press that would write off the board; the latter comes back as the
    /// error, with the pointer's position.
    pub fn handle_events(&mut self, events: Vec<Event>) -> (ended: Result<GameAction, PointerOffBoard>)
        requires
            old(self).wf(),
        ensures
            final(self).wf(),
            final(self)@ == old(self)@.after_events(events@).0,
            ended == old(self)@.after_events(events@).1,
    {
        let mut idx: usize = 0;
        while idx < events.len()
            invariant
                idx <= events@.len(),
                self.wf(),
                old(self)@.after_events(events@.take(idx as int)) == (
                    self@,
                    Ok::<GameAction, PointerOffBoard>(GameAction::Continue),
                ),
            decreases events@.len() - idx,
        {
            let event = events[idx];
            proof {
                assert(events@.take(idx + 1).drop_last() =~= events@.take(idx as int));
                assert(events@.take(idx + 1).last() == event);
            }
            if !self.admits(event) {
                proof {
                    lemma_ended_stays(old(self)@, events@, idx + 1);
                }
                return Err(pointer_of(event));
            }
            match self.handle_event(event) {
                GameAction::Quit => {
                    proof {
                        lemma_ended_stays(old(self)@, events@, idx + 1);
                    }
                    return Ok(GameAction::Quit);
                },
                GameAction::Continue => {},
            }
            idx += 1;
        }
        proof {
            assert(events@.take(idx as int) =~= events@);
        }
        Ok(GameAction::Continue)
    }

    /// Says whether the board has changed since this was last asked, and
    /// forgets it.
    pub fn take_draw_request(&mut self) -> (wanted: bool)
        ensures
            wanted == old(self)@.do_draw,
            final(self)@ == (GameState { do_draw: false, ..old(self)@ }),
            final(self).board_wf() == old(self).board_wf(),
    {
        let wanted = self.do_draw;
        self.do_draw = false;
        wanted
    }

    pub fn is_playing(&self) -> (playing: bool)
        ensures
            playing == (self@.mode == PlayMode::Playing),
    {
        self.mode == PlayMode::Playing
    }

    pub fn round(&self) -> (round: usize)
        ensures
            round == self@.round,
    {
        self.round
    }

    pub fn speed(&self) -> (speed: usize)
        ensures
            speed == self@.speed,
    {
        self.speed
    }

    pub fn cell_size(&self) -> (cell_size: usize)
        ensures
            cell_size == self@.cell_size,
    {
        self.cell_size
    }

    /// The board as it stands, for reading.
    pub fn board(&self) -> (board: &Board)
        ensures
            board@ == self@.grid,
            self.wf() ==> board.wf(),
    {
        &self.board
    }
}

/// Where the pointer was when the event happened.
fn pointer_of(event: Event) -> (at: PointerOffBoard)
    ensures
        at == fault_of(event),
{
    match event {
        Event::MouseButtonDown { x, y, .. } => PointerOffBoard { x, y },
        Event::MouseButtonUp { x, y, .. } => PointerOffBoard { x, y },
        Event::MouseMotion { x, y } => PointerOffBoard { x, y },
        _ => PointerOffBoard { x: 0, y: 0 },
    }
}

/// Once a batch has ended, the events after its end change nothing.
proof fn lemma_ended_stays(state: GameState, events: Seq<Event>, k: int)
    requires
        0 <= k <= events.len(),
        state.after_events(events.take(k)).1 != Ok::<GameAction, PointerOffBoard>(
            GameAction::Continue,
        ),
    ensures
        state.after_events(events) == state.after_events(events.take(k)),
    decreases events.len() - k,
{
    if k == events.len() {
        assert(events.take(k) =~= events);
    } else {
        assert(events.drop_last().take(k) =~= events.take(k));
        lemma_ended_stays(state, events.drop_last(), k);
    }
}

} // verus!
