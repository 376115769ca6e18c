use vstd::prelude::*;
use crate::engine::scene::SceneEvent;
use crate::frame::{Color, Frame, FrameView, Label, LabelView, Tile, screen_background};
use crate::input::{Event, Key};

verus! {

/// A piece of text and the size, in pixels, it is to be drawn at.
#[derive(Debug)]
pub struct Text {
    pub contents: String,
    pub height: usize,
    pub width: usize,
}

impl Text {
    pub fn new(text: &str, width: usize, height: usize) -> (made: Text)
        ensures
            made.contents@ == text@,
            made.width == width,
            made.height == height,
    {
        Text { contents: text.to_string(), height, width }
    }
}

/// A label as its plain values.
pub open spec fn label(
    contents: Seq<char>,
    width: nat,
    height: nat,
    font_size: nat,
    x: int,
    y: int,
) -> LabelView {
    LabelView { contents, width, height, font_size, x, y }
}

/// A label made of its parts.
fn make_label(text: &str, width: usize, height: usize, font_size: u16, x: i32, y: i32) -> (made: Label)
    ensures
        made@ == label(text@, width as nat, height as nat, font_size as nat, x as int, y as int),
{
    Label { text: Text::new(text, width, height), font_size, x, y }
}

/// A screen of labels on the plain background.
fn screen(labels: Vec<Label>) -> (frame: Frame)
    ensures
        frame.background == screen_background(),
        frame.tiles@.len() == 0,
        frame.labels == labels,
{
    let tiles: Vec<Tile> = Vec::new();
    Frame { background: Color::screen(), tiles, labels }
}

/// The screen shown while the simulation is held.
#[derive(Debug)]
pub struct PauseScene {}

/// Fifty pixels below the middle of a window `height` pixels high, or the
/// largest pixel coordinate there is if that is nearer.
pub open spec fn below_middle(height: u32) -> int {
    if height as int / 2 + 50 <= i32::MAX {
        height as int / 2 + 50
    } else {
        i32::MAX as int
    }
}

/// What the pause screen shows in a window `width` by `height` pixels: two
/// lines, fifty pixels above and below the middle.
pub open spec fn pause_screen(width: u32, height: u32) -> FrameView {
    FrameView {
        background: screen_background(),
        tiles: Seq::empty(),
        labels: seq![
            label("Paused"@, 400, 180, 300, width as int / 2, height as int / 2 - 50),
            label(
                "Press \"P\" to resume"@,
                400,
                90,
                200,
                width as int / 2,
                below_middle(height),
            ),
        ],
    }
}

impl PauseScene {
    pub fn render(&self, width: u32, height: u32) -> (frame: Frame)
        ensures
            frame@ == pause_screen(width, height),
    {
        let middle = (width / 2) as i32;
        let half = (height / 2) as i32;
        let mut labels: Vec<Label> = Vec::new();
        labels.push(make_label("Paused", 400, 180, 300, middle, half - 50));
        let lower = if half <= i32::MAX - 50 {
            half + 50
        } else {
            i32::MAX
        };
        labels.push(make_label("Press \"P\" to resume", 400, 90, 200, middle, lower));
        let frame = screen(labels);
        proof {
            assert(frame@.labels =~= pause_screen(width, height).labels);
            assert(frame@.tiles =~= pause_screen(width, height).tiles);
        }
        frame
    }

    /// Time does not pass on the pause screen.
    pub fn update(&mut self)
        ensures
            *final(self) == *old(self),
    {
    }

    /// The pause screen takes no input of its own.
    pub fn handle_events(&mut self, events: Vec<Event>)
        ensures
            *final(self) == *old(self),
    {
    }

    /// The pause screen never asks to be taken down: the engine does that.
    pub fn think(&self, event: Event) -> (wish: Option<SceneEvent>)
        ensures
            wish is None,
    {
        None
    }
}

/// The title screen.
#[derive(Debug)]
pub struct StartScene {}

/// What the title screen shows in a window `width` pixels wide: the title
/// and three lines of help, each centred.
pub open spec fn start_screen(width: u32) -> FrameView {
    FrameView {
        background: screen_background(),
        tiles: Seq::empty(),
        labels: seq![
            label("Game of Life"@, 500, 110, 300, width as int / 2, 200),
            label("Q to Quit"@, 250, 70, 160, width as int / 2, 320),
            label("P to Toggle Pause"@, 500, 70, 160, width as int / 2, 390),
            label("D to Toggle Drawing"@, 600, 70, 160, width as int / 2, 470),
        ],
    }
}

/// Whether the title screen is left on this event: `Return` was pressed.
pub open spec fn leaves_start(event: Event) -> bool {
    event == (Event::KeyDown { key: Key::Return })
}

impl StartScene {
    pub fn render(&self, width: u32, height: u32) -> (frame: Frame)
        ensures
            frame@ == start_screen(width),
    {
        let middle = (width / 2) as i32;
        let mut labels: Vec<Label> = Vec::new();
        labels.push(make_label("Game of Life", 500, 110, 300, middle, 200));
        labels.push(make_label("Q to Quit", 250, 70, 160, middle, 320));
        labels.push(make_label("P to Toggle Pause", 500, 70, 160, middle, 390));
        labels.push(make_label("D to Toggle Drawing", 600, 70, 160, middle, 470));
        let frame = screen(labels);
        proof {
            assert(frame@.labels =~= start_screen(width).labels);
            assert(frame@.tiles =~= start_screen(width).tiles);
        }
        frame
    }

    /// Time does not pass on the title screen.
    pub fn update(&mut self)
        ensures
            *final(self) == *old(self),
    {
    }

    /// The title screen takes no input of its own.
    pub fn handle_events(&mut self, events: Vec<Event>)
        ensures
            *final(self) == *old(self),
    {
    }

    /// The title screen asks to be taken down when `Return` is pressed.
    pub fn think(&self, event: Event) -> (wish: Option<SceneEvent>)
        ensures
            leaves_start(event) ==> wish matches Some(SceneEvent::Pop),
            !leaves_start(event) ==> wish is None,
    {
        match event {
            Event::KeyDown { key: Key::Return } => Some(SceneEvent::Pop),
            _ => None,
        }
    }
}

} // verus!
