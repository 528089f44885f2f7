//! One tile of the world: an immutable base terrain, an at-most-once
//! settable content, and a reserved height.

use vstd::prelude::*;
use crate::style::{BaseGlyphs, GlyphTable};

verus! {

/// The terrain of a cell, fixed when the cell is generated.
#[derive(Clone, Copy, PartialEq, Eq, Structural, Debug)]
pub enum CellBase {
    Grass,
    Water,
    Sand,
    Stone,
}

/// What a cell holds on top of its terrain. It starts `Empty` and can be
/// assigned exactly once.
#[derive(Clone, Copy, PartialEq, Eq, Structural, Debug)]
pub enum CellContent {
    Empty,
    Food,
    Poison,
    Marker,
}

/// The error of placing content on a cell whose content is already set.
#[derive(Clone, Copy, PartialEq, Eq, Structural, Debug)]
pub struct CellOccupied;

/// The mathematical value of a [`Cell`].
pub struct CellView {
    pub base: CellBase,
    pub content: CellContent,
    pub height: int,
}

/// One world tile. `base` never changes after creation; `content` moves
/// from `Empty` to a value at most once; `height` is reserved for future
/// elevation logic and is carried along unused.
#[derive(Clone, Copy, Debug)]
pub struct Cell {
    base: CellBase,
    content: CellContent,
    height: isize,
}

impl View for Cell {
    type V = CellView;

    closed spec fn view(&self) -> CellView {
        CellView { base: self.base, content: self.content, height: self.height as int }
    }
}

/// The cell value that `Cell::from_base` builds: fresh content, zero height.
pub open spec fn spec_fresh_cell(base: CellBase) -> CellView {
    CellView { base, content: CellContent::Empty, height: 0 }
}

/// Whether assigning content to a cell in state `c` succeeds.
pub open spec fn spec_set_succeeds(c: CellView) -> bool {
    c.content == CellContent::Empty
}

/// The cell state after an attempted content assignment: the content is
/// taken only where the cell was still empty.
pub open spec fn spec_content_after(c: CellView, content: CellContent) -> CellView {
    if spec_set_succeeds(c) {
        CellView { content, ..c }
    } else {
        c
    }
}

/// The rendering of one cell from a glyph table: the player glyph where
/// the player stands on the cell, its content glyph otherwise, each over
/// the background styling of the cell's terrain.
pub open spec fn spec_colored(t: GlyphTable, c: CellView, contains_player: bool) -> Seq<char> {
    let g = match c.base {
        CellBase::Grass => t.grass,
        CellBase::Water => t.water,
        CellBase::Sand => t.sand,
        CellBase::Stone => t.stone,
    };
    if contains_player {
        g.player@
    } else {
        match c.content {
            CellContent::Empty => g.empty@,
            CellContent::Food => g.food@,
            CellContent::Poison => g.poison@,
            CellContent::Marker => g.marker@,
        }
    }
}

impl Default for Cell {
    /// A grass cell with nothing on it.
    fn default() -> (c: Self)
        ensures
            c@ == spec_fresh_cell(CellBase::Grass),
    {
        Self { base: CellBase::Grass, content: CellContent::Empty, height: 0 }
    }
}

impl Cell {
    /// A grass cell with nothing on it.
    pub fn new() -> (c: Self)
        ensures
            c@ == spec_fresh_cell(CellBase::Grass),
    {
        Self::default()
    }

    /// A cell of the given terrain with nothing on it.
    pub fn from_base(base: CellBase) -> (c: Self)
        ensures
            c@ == spec_fresh_cell(base),
    {
        Self { base, content: CellContent::Empty, height: 0 }
    }

    /// Assigns the cell's content. This succeeds exactly when the content
    /// was never assigned before; an occupied cell is left unchanged.
    pub fn set_content(&mut self, content: CellContent) -> (r: Result<(), CellOccupied>)
        ensures
            final(self)@ == spec_content_after(old(self)@, content),
            r is Ok <==> spec_set_succeeds(old(self)@),
    {
        if let CellContent::Empty = self.content {
            self.content = content;
            Ok(())
        } else {
            Err(CellOccupied)
        }
    }

    /// The cell's terrain.
    pub fn base(&self) -> (b: CellBase)
        ensures
            b == self@.base,
    {
        self.base
    }

    /// The cell's content.
    pub fn content(&self) -> (c: CellContent)
        ensures
            c == self@.content,
    {
        self.content
    }

    /// The cell's height, reserved for future elevation logic.
    pub fn height(&self) -> (h: isize)
        ensures
            h as int == self@.height,
    {
        self.height
    }

    /// The styled one-glyph string for this cell, taken from the given
    /// glyph table, with the player glyph overriding the content glyph
    /// where the player stands here.
    pub fn to_colored_string(&self, contains_player: bool, glyphs: &GlyphTable) -> (r: String)
        ensures
            r@ == spec_colored(*glyphs, self@, contains_player),
    {
        let g: &BaseGlyphs = match self.base {
            CellBase::Grass => &glyphs.grass,
            CellBase::Water => &glyphs.water,
            CellBase::Sand => &glyphs.sand,
            CellBase::Stone => &glyphs.stone,
        };
        if contains_player {
            g.player.clone()
        } else {
            match self.content {
                CellContent::Empty => g.empty.clone(),
                CellContent::Food => g.food.clone(),
                CellContent::Poison => g.poison.clone(),
                CellContent::Marker => g.marker.clone(),
            }
        }
    }
}

impl CellOccupied {
    /// The player-facing description of this error.
    pub fn message(&self) -> (s: &'static str)
        ensures
            s@ == "Cell is not empty!"@,
    {
        "Cell is not empty!"
    }
}

} // verus!
