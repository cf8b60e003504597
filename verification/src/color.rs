//! Colors and the source that assigns one to each newborn cell.
//!
//! The source is injected at every construction site: a cycling source makes
//! the simulation fully deterministic for tests, a randomized source
//! reproduces the classic look where each birth draws a fresh palette entry.
use vstd::prelude::*;
use crate::rng::random_index;

verus! {

/// An RGB color, a plain value the rendering collaborator can translate.
#[derive(Clone, Copy, PartialEq, Eq, Structural, Debug)]
pub struct Color {
    pub r: u8,
    pub g: u8,
    pub b: u8,
}

impl Color {
    pub fn rgb(r: u8, g: u8, b: u8) -> (c: Color)
        ensures
            c == (Color { r, g, b }),
    {
        Color { r, g, b }
    }
}

/// `c` is one of the palette's entries.
pub open spec fn in_palette(c: Color, palette: Seq<Color>) -> bool {
    exists|i: int| 0 <= i < palette.len() && palette[i] == c
}

/// Hands out a palette color for every newborn cell, either cycling through
/// the palette in order (deterministic) or drawing a random entry.
pub struct ColorSource {
    palette: Vec<Color>,
    cursor: usize,
    randomize: bool,
}

impl ColorSource {
    pub closed spec fn palette_view(self) -> Seq<Color> {
        self.palette@
    }

    pub closed spec fn is_cycling(self) -> bool {
        !self.randomize
    }

    pub closed spec fn cursor_at(self) -> int {
        self.cursor as int
    }

    pub open spec fn wf(self) -> bool {
        self.palette_view().len() > 0 && 0 <= self.cursor_at() < self.palette_view().len()
    }

    /// A source that hands the palette out in order, starting at its first
    /// entry.
    pub fn cycling(palette: Vec<Color>) -> (s: ColorSource)
        requires
            palette@.len() > 0,
        ensures
            s.wf(),
            s.palette_view() == palette@,
            s.is_cycling(),
            s.cursor_at() == 0,
    {
        ColorSource { palette, cursor: 0, randomize: false }
    }

    /// A source that draws a uniformly random palette entry each time.
    pub fn randomized(palette: Vec<Color>) -> (s: ColorSource)
        requires
            palette@.len() > 0,
        ensures
            s.wf(),
            s.palette_view() == palette@,
            !s.is_cycling(),
    {
        ColorSource { palette, cursor: 0, randomize: true }
    }

    /// The color for the next birth. A cycling source returns the entry under
    /// its cursor and advances it one step, wrapping at the end; a randomized
    /// source returns an arbitrary palette entry.
    pub fn pick(&mut self) -> (c: Color)
        requires
            old(self).wf(),
        ensures
            final(self).wf(),
            final(self).palette_view() == old(self).palette_view(),
            final(self).is_cycling() == old(self).is_cycling(),
            in_palette(c, final(self).palette_view()),
            old(self).is_cycling() ==> c == old(self).palette_view()[old(self).cursor_at()]
                && final(self).cursor_at() == (
            if old(self).cursor_at() + 1 == old(self).palette_view().len() {
                0int
            } else {
                old(self).cursor_at() + 1
            }),
    {
        if self.randomize {
            let i = random_index(self.palette.len());
            let c = self.palette[i];
            assert(in_palette(c, self.palette_view()));
            c
        } else {
            let c = self.palette[self.cursor];
            assert(in_palette(c, self.palette_view()));
            assert(self.cursor < self.palette.len());
            self.cursor = self.cursor + 1;
            if self.cursor == self.palette.len() {
                self.cursor = 0;
            }
            c
        }
    }
}

/// The default palette's entries, for contracts to name.
pub open spec fn default_palette_view() -> Seq<Color> {
    seq![
        Color { r: 255, g: 87, b: 34 },
        Color { r: 76, g: 175, b: 80 },
        Color { r: 33, g: 150, b: 243 },
        Color { r: 156, g: 39, b: 176 },
        Color { r: 255, g: 235, b: 59 },
        Color { r: 0, g: 188, b: 212 },
        Color { r: 244, g: 67, b: 54 },
        Color { r: 139, g: 195, b: 74 },
        Color { r: 3, g: 169, b: 244 },
        Color { r: 103, g: 58, b: 183 },
        Color { r: 255, g: 193, b: 7 },
        Color { r: 0, g: 150, b: 136 },
        Color { r: 233, g: 30, b: 99 },
        Color { r: 205, g: 220, b: 57 },
        Color { r: 0, g: 122, b: 255 },
        Color { r: 63, g: 81, b: 181 },
        Color { r: 255, g: 152, b: 0 },
        Color { r: 0, g: 188, b: 212 },
        Color { r: 255, g: 87, b: 34 },
        Color { r: 76, g: 175, b: 80 },
        Color { r: 33, g: 150, b: 243 },
        Color { r: 156, g: 39, b: 176 },
        Color { r: 0, g: 188, b: 212 },
        Color { r: 255, g: 105, b: 180 },
        Color { r: 0, g: 255, b: 127 },
        Color { r: 70, g: 130, b: 180 },
        Color { r: 255, g: 69, b: 0 },
        Color { r: 124, g: 252, b: 0 },
        Color { r: 0, g: 191, b: 255 },
        Color { r: 255, g: 20, b: 147 },
        Color { r: 0, g: 255, b: 255 },
        Color { r: 255, g: 140, b: 0 },
        Color { r: 0, g: 255, b: 0 },
        Color { r: 0, g: 0, b: 255 },
        Color { r: 255, g: 0, b: 255 },
        Color { r: 0, g: 128, b: 128 },
        Color { r: 128, g: 0, b: 128 },
        Color { r: 255, g: 0, b: 0 },
        Color { r: 0, g: 128, b: 0 },
        Color { r: 0, g: 0, b: 128 },
        Color { r: 128, g: 128, b: 0 },
        Color { r: 128, g: 0, b: 0 },
        Color { r: 0, g: 128, b: 128 },
        Color { r: 128, g: 128, b: 128 },
        Color { r: 192, g: 192, b: 192 },
    ]
}

/// The fixed palette the application draws from: 45 bright RGB entries.
pub fn default_palette() -> (palette: Vec<Color>)
    ensures
        palette@ == default_palette_view(),
        palette@.len() == 45,
{
    let mut palette: Vec<Color> = Vec::new();
    palette.push(Color { r: 255, g: 87, b: 34 });
    palette.push(Color { r: 76, g: 175, b: 80 });
    palette.push(Color { r: 33, g: 150, b: 243 });
    palette.push(Color { r: 156, g: 39, b: 176 });
    palette.push(Color { r: 255, g: 235, b: 59 });
    palette.push(Color { r: 0, g: 188, b: 212 });
    palette.push(Color { r: 244, g: 67, b: 54 });
    palette.push(Color { r: 139, g: 195, b: 74 });
    palette.push(Color { r: 3, g: 169, b: 244 });
    palette.push(Color { r: 103, g: 58, b: 183 });
    palette.push(Color { r: 255, g: 193, b: 7 });
    palette.push(Color { r: 0, g: 150, b: 136 });
    palette.push(Color { r: 233, g: 30, b: 99 });
    palette.push(Color { r: 205, g: 220, b: 57 });
    palette.push(Color { r: 0, g: 122, b: 255 });
    palette.push(Color { r: 63, g: 81, b: 181 });
    palette.push(Color { r: 255, g: 152, b: 0 });
    palette.push(Color { r: 0, g: 188, b: 212 });
    palette.push(Color { r: 255, g: 87, b: 34 });
    palette.push(Color { r: 76, g: 175, b: 80 });
    palette.push(Color { r: 33, g: 150, b: 243 });
    palette.push(Color { r: 156, g: 39, b: 176 });
    palette.push(Color { r: 0, g: 188, b: 212 });
    palette.push(Color { r: 255, g: 105, b: 180 });
    palette.push(Color { r: 0, g: 255, b: 127 });
    palette.push(Color { r: 70, g: 130, b: 180 });
    palette.push(Color { r: 255, g: 69, b: 0 });
    palette.push(Color { r: 124, g: 252, b: 0 });
    palette.push(Color { r: 0, g: 191, b: 255 });
    palette.push(Color { r: 255, g: 20, b: 147 });
    palette.push(Color { r: 0, g: 255, b: 255 });
    palette.push(Color { r: 255, g: 140, b: 0 });
    palette.push(Color { r: 0, g: 255, b: 0 });
    palette.push(Color { r: 0, g: 0, b: 255 });
    palette.push(Color { r: 255, g: 0, b: 255 });
    palette.push(Color { r: 0, g: 128, b: 128 });
    palette.push(Color { r: 128, g: 0, b: 128 });
    palette.push(Color { r: 255, g: 0, b: 0 });
    palette.push(Color { r: 0, g: 128, b: 0 });
    palette.push(Color { r: 0, g: 0, b: 128 });
    palette.push(Color { r: 128, g: 128, b: 0 });
    palette.push(Color { r: 128, g: 0, b: 0 });
    palette.push(Color { r: 0, g: 128, b: 128 });
    palette.push(Color { r: 128, g: 128, b: 128 });
    palette.push(Color { r: 192, g: 192, b: 192 });
    proof {
        assert(palette@ =~= default_palette_view());
    }
    palette
}

} // verus!
