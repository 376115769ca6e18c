use vstd::prelude::*;
use crate::scenes::Text;

verus! {

#[derive(Clone, Copy, Debug, PartialEq, Eq, Structural)]
pub struct Color {
    pub r: u8,
    pub g: u8,
    pub b: u8,
}

/// The colour of a dead square.
pub open spec fn dead_color() -> Color {
    Color { r: 0, g: 28, b: 67 }
}

/// The colour of a live square.
pub open spec fn alive_color() -> Color {
    Color { r: 255, g: 153, b: 0 }
}

/// What shows between the squares of the board.
pub open spec fn board_background() -> Color {
    Color { r: 0, g: 0, b: 150 }
}

/// What the title and pause screens are painted on.
pub open spec fn screen_background() -> Color {
    Color { r: 160, g: 160, b: 160 }
}

impl Color {
    pub fn dead() -> (color: Color)
        ensures
            color == dead_color(),
    {
        Color { r: 0, g: 28, b: 67 }
    }

    pub fn alive() -> (color: Color)
        ensures
            color == alive_color(),
    {
        Color { r: 255, g: 153, b: 0 }
    }

    pub fn board() -> (color: Color)
        ensures
            color == board_background(),
    {
        Color { r: 0, g: 0, b: 150 }
    }

    pub fn screen() -> (color: Color)
        ensures
            color == screen_background(),
    {
        Color { r: 160, g: 160, b: 160 }
    }
}

/// A filled rectangle, in pixels.
#[derive(Clone, Copy, Debug, PartialEq, Eq, Structural)]
pub struct Tile {
    pub x: i32,
    pub y: i32,
    pub width: u32,
    pub height: u32,
    pub color: Color,
}

/// A line of text to be drawn in black at `font_size`, stretched to the
/// text's own width and height and centred on pixel `(x, y)`.
#[derive(Debug)]
pub struct Label {
    pub text: Text,
    pub font_size: u16,
    pub x: i32,
    pub y: i32,
}

/// A label as plain values.
pub struct LabelView {
    pub contents: Seq<char>,
    pub width: nat,
    pub height: nat,
    pub font_size: nat,
    pub x: int,
    pub y: int,
}

impl View for Label {
    type V = LabelView;

    open spec fn view(&self) -> LabelView {
        LabelView {
            contents: self.text.contents@,
            width: self.text.width as nat,
            height: self.text.height as nat,
            font_size: self.font_size as nat,
            x: self.x as int,
            y: self.y as int,
        }
    }
}

/// Everything a scene wants on screen: a background that fills the window,
/// then the tiles in order, then the labels in order.
#[derive(Debug)]
pub struct Frame {
    pub background: Color,
    pub tiles: Vec<Tile>,
    pub labels: Vec<Label>,
}

/// A frame as plain values.
pub struct FrameView {
    pub background: Color,
    pub tiles: Seq<Tile>,
    pub labels: Seq<LabelView>,
}

impl View for Frame {
    type V = FrameView;

    open spec fn view(&self) -> FrameView {
        FrameView {
            background: self.background,
            tiles: self.tiles@,
            labels: Seq::new(self.labels@.len(), |i: int| self.labels@[i]@),
        }
    }
}

} // verus!
