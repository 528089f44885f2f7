//! The unbounded world: a sparse mapping from coordinates to cells, grown
//! lazily from random draws, plus the player's position and the viewport
//! rendering over it.

use vstd::prelude::*;
use vstd::std_specs::vec::vec_index_mut;
use crate::cell::{
    Cell, CellBase, CellContent, CellOccupied, CellView, spec_colored, spec_content_after,
    spec_fresh_cell, spec_set_succeeds,
};
use crate::style::GlyphTable;

verus! {

/// A coordinate in world space, also the player's location.
pub type Position = (isize, isize);

/// The mathematical coordinate that a position stands for.
pub open spec fn key_of(p: Position) -> (int, int) {
    (p.0 as int, p.1 as int)
}

/// Half the default viewport's side length: the standard window is 30
/// by 30 cells around its center.
pub const VIEW_HALF_EXTENT: isize = 15;

/// A random draw `r` stands for the fraction `r / 2^32` of the unit
/// interval. Draws below this bound (one half of the draw space) generate
/// grass.
pub const GRASS_BOUND: u32 = 0x8000_0000;

/// The least draw whose fraction of the draw space reaches nine tenths.
/// Draws from the grass bound up to here generate stone; the rest generate
/// sand. Water is never generated: the terrain table deliberately leaves it
/// to future rules.
pub const STONE_BOUND: u32 = 3865470567;

/// The terrain generated from one random draw, read as a fraction of the
/// unit interval: grass below one half, stone below nine tenths, sand above.
pub open spec fn spec_base_from_draw(r: u32) -> CellBase {
    if r < GRASS_BOUND {
        CellBase::Grass
    } else if r < STONE_BOUND {
        CellBase::Stone
    } else {
        CellBase::Sand
    }
}

/// The cell generated from one random draw: fresh content, zero height.
pub open spec fn spec_generated(r: u32) -> CellView {
    spec_fresh_cell(spec_base_from_draw(r))
}

/// The world map after a lazy lookup of `pos` with draw `r`: unchanged
/// where `pos` was generated before, extended by one generated cell else.
pub open spec fn spec_load(
    m: Map<(int, int), CellView>,
    pos: Position,
    r: u32,
) -> Map<(int, int), CellView> {
    if m.dom().contains(key_of(pos)) {
        m
    } else {
        m.insert(key_of(pos), spec_generated(r))
    }
}

/// The terrain for one random draw; the executable side of
/// [`spec_base_from_draw`].
pub fn base_from_draw(draw: u32) -> (b: CellBase)
    ensures
        b == spec_base_from_draw(draw),
{
    if draw < GRASS_BOUND {
        CellBase::Grass
    } else if draw < STONE_BOUND {
        CellBase::Stone
    } else {
        CellBase::Sand
    }
}

/// Relies on `rand::random::<u32>`: one draw from the thread-local
/// generator. Nothing is promised of the value.
#[verifier::external_body]
fn random_u32() -> u32 {
    rand::random()
}

/// The sparse world map that a list of entries holds, later entries
/// overriding earlier ones.
pub open spec fn map_of_entries(entries: Seq<(Position, Cell)>) -> Map<(int, int), CellView>
    decreases entries.len(),
{
    if entries.len() == 0 {
        Map::empty()
    } else {
        map_of_entries(entries.drop_last()).insert(
            key_of(entries.last().0),
            entries.last().1@,
        )
    }
}

/// No two entries name the same coordinate.
pub open spec fn entries_distinct(entries: Seq<(Position, Cell)>) -> bool {
    forall|i: int, j: int|
        0 <= i < j < entries.len() ==> key_of(#[trigger] entries[i].0) != key_of(
            #[trigger] entries[j].0,
        )
}

proof fn lemma_map_of_entries_contains(entries: Seq<(Position, Cell)>, k: (int, int))
    ensures
        map_of_entries(entries).dom().contains(k) <==> exists|i: int|
            0 <= i < entries.len() && key_of(#[trigger] entries[i].0) == k,
    decreases entries.len(),
{
    if entries.len() > 0 {
        let prefix = entries.drop_last();
        lemma_map_of_entries_contains(prefix, k);
        if map_of_entries(entries).dom().contains(k) {
            if k == key_of(entries.last().0) {
                assert(key_of(entries[entries.len() - 1].0) == k);
            } else {
                let i = choose|i: int| 0 <= i < prefix.len() && key_of(#[trigger] prefix[i].0) == k;
                assert(key_of(entries[i].0) == k);
            }
        }
        if exists|i: int| 0 <= i < entries.len() && key_of(#[trigger] entries[i].0) == k {
            let i = choose|i: int| 0 <= i < entries.len() && key_of(#[trigger] entries[i].0) == k;
            if i < entries.len() - 1 {
                assert(key_of(prefix[i].0) == k);
            }
        }
    }
}

proof fn lemma_map_of_entries_index(entries: Seq<(Position, Cell)>, i: int)
    requires
        0 <= i < entries.len(),
        entries_distinct(entries),
    ensures
        map_of_entries(entries).dom().contains(key_of(entries[i].0)),
        map_of_entries(entries)[key_of(entries[i].0)] == entries[i].1@,
    decreases entries.len(),
{
    let prefix = entries.drop_last();
    if i == entries.len() - 1 {
    } else {
        assert(entries_distinct(prefix)) by {
            assert(forall|a: int, b: int|
                0 <= a < b < prefix.len() ==> key_of(#[trigger] prefix[a].0) != key_of(
                    #[trigger] prefix[b].0,
                )) by {
                assert(forall|a: int| 0 <= a < prefix.len() ==> prefix[a] == entries[a]);
            }
        }
        lemma_map_of_entries_index(prefix, i);
        assert(prefix[i] == entries[i]);
        assert(key_of(entries[i].0) != key_of(entries.last().0));
    }
}

proof fn lemma_map_of_entries_push(entries: Seq<(Position, Cell)>, p: Position, c: Cell)
    ensures
        map_of_entries(entries.push((p, c))) == map_of_entries(entries).insert(key_of(p), c@),
{
    let pushed = entries.push((p, c));
    assert(pushed.drop_last() =~= entries);
    assert(pushed.last() == (p, c));
}

proof fn lemma_map_of_entries_update(entries: Seq<(Position, Cell)>, i: int, c: Cell)
    requires
        0 <= i < entries.len(),
        entries_distinct(entries),
    ensures
        map_of_entries(entries.update(i, (entries[i].0, c))) =~= map_of_entries(entries).insert(
            key_of(entries[i].0),
            c@,
        ),
        entries_distinct(entries.update(i, (entries[i].0, c))),
    decreases entries.len(),
{
    let updated = entries.update(i, (entries[i].0, c));
    assert(forall|a: int|
        0 <= a < entries.len() && a != i ==> updated[a] == #[trigger] entries[a]);
    let prefix = entries.drop_last();
    assert(entries_distinct(prefix)) by {
        assert(forall|a: int| 0 <= a < prefix.len() ==> prefix[a] == entries[a]);
    }
    if i == entries.len() - 1 {
        assert(updated.drop_last() =~= prefix);
    } else {
        lemma_map_of_entries_update(prefix, i, c);
        assert(updated.drop_last() =~= prefix.update(i, (prefix[i].0, c)));
        assert(updated.last() == entries.last());
        assert(key_of(entries[i].0) != key_of(entries.last().0));
    }
}

/// The coordinates of the square viewport window of the given half extent
/// around `center`: rows and columns from `center - half` up to but not
/// including `center + half`.
pub open spec fn spec_window(center: (int, int), half: int) -> Set<(int, int)> {
    Set::new(
        |p: (int, int)|
            center.0 - half <= p.0 < center.0 + half && center.1 - half <= p.1 < center.1 + half,
    )
}

/// The window coordinates of the first `rows` viewport rows.
pub open spec fn spec_window_rows(center: (int, int), half: int, rows: int) -> Set<(int, int)> {
    Set::new(
        |p: (int, int)|
            center.0 - half <= p.0 < center.0 + half && center.1 - half <= p.1 < center.1 - half
                + rows,
    )
}

/// The window coordinates of the first `cols` cells of the row at `y`.
pub open spec fn spec_row_prefix(center: (int, int), half: int, y: int, cols: int) -> Set<
    (int, int),
> {
    Set::new(|p: (int, int)| center.0 - half <= p.0 < center.0 - half + cols && p.1 == y)
}

/// The first `n` glyphs of the viewport row at world coordinate `y`: the
/// cells from the window's left edge rightward, each rendered with the
/// player overlay where the player stands on it.
pub open spec fn spec_row(
    t: GlyphTable,
    m: Map<(int, int), CellView>,
    player: (int, int),
    center: (int, int),
    half: int,
    y: int,
    n: nat,
) -> Seq<char>
    decreases n,
{
    if n == 0 {
        Seq::empty()
    } else {
        let x = center.0 - half + n - 1;
        spec_row(t, m, player, center, half, y, (n - 1) as nat) + spec_colored(
            t,
            m[(x, y)],
            player == ((x, y)),
        )
    }
}

/// The first `n` rows of the viewport, joined by a line break.
pub open spec fn spec_rows(
    t: GlyphTable,
    m: Map<(int, int), CellView>,
    player: (int, int),
    center: (int, int),
    half: int,
    n: nat,
) -> Seq<char>
    decreases n,
{
    if n == 0 {
        Seq::empty()
    } else {
        let y = center.1 - half + n - 1;
        let row = spec_row(t, m, player, center, half, y, (2 * half) as nat);
        if n == 1 {
            row
        } else {
            spec_rows(t, m, player, center, half, (n - 1) as nat) + "\n\r"@ + row
        }
    }
}

/// The whole viewport string of half extent `half` around `center`.
pub open spec fn spec_viewport(
    t: GlyphTable,
    m: Map<(int, int), CellView>,
    player: (int, int),
    center: (int, int),
    half: int,
) -> Seq<char> {
    spec_rows(
        t,
        m,
        player,
        center,
        half,
        if half <= 0 {
            0
        } else {
            (2 * half) as nat
        },
    )
}

/// A row prefix reads only its own coordinates: two maps that agree there
/// render it alike.
proof fn lemma_spec_row_congruent(
    t: GlyphTable,
    m1: Map<(int, int), CellView>,
    m2: Map<(int, int), CellView>,
    player: (int, int),
    center: (int, int),
    half: int,
    y: int,
    n: nat,
)
    requires
        forall|x: int|
            center.0 - half <= x < center.0 - half + n ==> #[trigger] m1[(x, y)] == m2[(x, y)],
    ensures
        spec_row(t, m1, player, center, half, y, n) == spec_row(t, m2, player, center, half, y, n),
    decreases n,
{
    if n > 0 {
        lemma_spec_row_congruent(t, m1, m2, player, center, half, y, (n - 1) as nat);
    }
}

/// A group of rows reads only its own coordinates: two maps that agree
/// there render it alike.
proof fn lemma_spec_rows_congruent(
    t: GlyphTable,
    m1: Map<(int, int), CellView>,
    m2: Map<(int, int), CellView>,
    player: (int, int),
    center: (int, int),
    half: int,
    n: nat,
)
    requires
        0 <= half,
        forall|x: int, y: int|
            center.0 - half <= x < center.0 + half && center.1 - half <= y < center.1 - half + n
                ==> #[trigger] m1[(x, y)] == m2[(x, y)],
    ensures
        spec_rows(t, m1, player, center, half, n) == spec_rows(t, m2, player, center, half, n),
    decreases n,
{
    if n > 0 {
        lemma_spec_rows_congruent(t, m1, m2, player, center, half, (n - 1) as nat);
        let y = center.1 - half + n - 1;
        assert forall|x: int|
            center.0 - half <= x < center.0 - half + 2 * half implies #[trigger] m1[(x, y)] == m2[(
            x,
            y,
        )] by {
            assert(center.1 - half <= y < center.1 - half + n);
        }
        lemma_spec_row_congruent(t, m1, m2, player, center, half, y, (2 * half) as nat);
    }
}

/// The cell half of one world entry, borrowed for mutation; the
/// coordinate half stays as it is.
fn cell_of_entry(entry: &mut (Position, Cell)) -> (c: &mut Cell)
    ensures
        *c == old(entry).1,
        *final(entry) == ((old(entry).0, *final(c))),
{
    &mut entry.1
}

/// The world: a sparse, lazily populated mapping from positions to cells,
/// and the player's current position. Once a position is generated its
/// cell is stable; the mapping only grows.
pub struct Board {
    cells: Vec<(Position, Cell)>,
    player_pos: Position,
    glyphs: GlyphTable,
}

impl Board {
    /// The player's position, as contracts speak of it.
    pub closed spec fn player(&self) -> Position {
        self.player_pos
    }

    /// The glyph table this world renders with, as contracts speak of it.
    pub closed spec fn glyphs(&self) -> GlyphTable {
        self.glyphs
    }

    /// The glyph table this world renders with.
    pub fn glyph_table(&self) -> (t: &GlyphTable)
        ensures
            *t == self.glyphs(),
    {
        &self.glyphs
    }

    /// The player's current position.
    pub fn player_position(&self) -> (p: Position)
        ensures
            p == self.player(),
    {
        self.player_pos
    }

    /// Moves the player to `p`; the world is untouched.
    pub fn set_player_position(&mut self, p: Position)
        ensures
            final(self).player() == p,
            final(self).cells_map() == old(self).cells_map(),
            final(self).glyphs() == old(self).glyphs(),
            final(self).wf() <==> old(self).wf(),
    {
        self.player_pos = p;
    }

    /// The mapping from generated coordinates to their cells.
    pub closed spec fn cells_map(&self) -> Map<(int, int), CellView> {
        map_of_entries(self.cells@)
    }

    /// Every generated coordinate is held exactly once.
    pub closed spec fn wf(&self) -> bool {
        entries_distinct(self.cells@)
    }

    /// An empty world with the player at the origin, rendering with the
    /// game's standard glyphs.
    pub fn new() -> (b: Self)
        ensures
            b.wf(),
            b.cells_map() == Map::<(int, int), CellView>::empty(),
            b.player() == ((0isize, 0isize)),
    {
        Self { cells: Vec::new(), player_pos: (0, 0), glyphs: GlyphTable::standard() }
    }

    /// The index of the entry for `pos`, where one exists.
    fn find_index(&self, pos: Position) -> (r: Option<usize>)
        ensures
            match r {
                Some(i) => i < self.cells@.len() && self.cells@[i as int].0 == pos,
                None => forall|i: int|
                    0 <= i < self.cells@.len() ==> (#[trigger] self.cells@[i]).0 != pos,
            },
    {
        let n = self.cells.len();
        let mut i: usize = 0;
        while i < n
            invariant
                i <= n,
                n == self.cells@.len(),
                forall|j: int| 0 <= j < i ==> (#[trigger] self.cells@[j]).0 != pos,
            decreases n - i,
        {
            let p = self.cells[i].0;
            if p.0 == pos.0 && p.1 == pos.1 {
                return Some(i);
            }
            i += 1;
        }
        None
    }

    /// A non-generating lookup: the cell at `pos`, where `pos` was
    /// generated before, and nothing otherwise.
    pub fn try_get_cell(&self, pos: &Position) -> (r: Option<Cell>)
        requires
            self.wf(),
        ensures
            match r {
                Some(c) => self.cells_map().dom().contains(key_of(*pos)) && c@
                    == self.cells_map()[key_of(*pos)],
                None => !self.cells_map().dom().contains(key_of(*pos)),
            },
    {
        proof {
            lemma_map_of_entries_contains(self.cells@, key_of(*pos));
        }
        match self.find_index(*pos) {
            Some(i) => {
                proof {
                    lemma_map_of_entries_index(self.cells@, i as int);
                }
                Some(self.cells[i].1)
            },
            None => {
                proof {
                    assert(forall|i: int|
                        0 <= i < self.cells@.len() ==> key_of((#[trigger] self.cells@[i]).0)
                            != key_of(*pos));
                }
                None
            },
        }
    }

    /// The cell at `pos`, generated from the given draw on first access:
    /// the world after the call is exactly `spec_load` of the world before.
    pub fn load_cell_from(&mut self, pos: Position, draw: u32) -> (c: Cell)
        requires
            old(self).wf(),
        ensures
            final(self).wf(),
            final(self).player() == old(self).player(),
            final(self).glyphs() == old(self).glyphs(),
            final(self).cells_map() == spec_load(old(self).cells_map(), pos, draw),
            final(self).cells_map().dom().contains(key_of(pos)),
            c@ == final(self).cells_map()[key_of(pos)],
    {
        proof {
            lemma_map_of_entries_contains(self.cells@, key_of(pos));
        }
        match self.find_index(pos) {
            Some(i) => {
                proof {
                    lemma_map_of_entries_index(self.cells@, i as int);
                }
                self.cells[i].1
            },
            None => {
                proof {
                    assert(forall|i: int|
                        0 <= i < self.cells@.len() ==> key_of((#[trigger] self.cells@[i]).0)
                            != key_of(pos));
                }
                let cell = Cell::from_base(base_from_draw(draw));
                let ghost entries = self.cells@;
                self.cells.push((pos, cell));
                proof {
                    lemma_map_of_entries_push(entries, pos, cell);
                    assert(forall|a: int|
                        0 <= a < entries.len() ==> self.cells@[a] == #[trigger] entries[a]);
                }
                cell
            },
        }
    }

    /// The cell at `pos`, generated on first access from a fresh random
    /// draw. Whatever the draw, a generated cell starts with empty content
    /// and zero height, and a cell generated before is returned unchanged.
    pub fn load_cell(&mut self, pos: Position) -> (c: Cell)
        requires
            old(self).wf(),
        ensures
            final(self).wf(),
            final(self).player() == old(self).player(),
            final(self).glyphs() == old(self).glyphs(),
            exists|r: u32| final(self).cells_map() == #[trigger] spec_load(
                old(self).cells_map(),
                pos,
                r,
            ),
            old(self).cells_map().dom().contains(key_of(pos))
                ==> final(self).cells_map() == old(self).cells_map(),
            final(self).cells_map().dom() =~= old(self).cells_map().dom().insert(key_of(pos)),
            forall|k: (int, int)|
                old(self).cells_map().dom().contains(k)
                    ==> final(self).cells_map().dom().contains(k)
                    && final(self).cells_map()[k] == old(self).cells_map()[k],
            c@ == final(self).cells_map()[key_of(pos)],
    {
        let draw = random_u32();
        let c = self.load_cell_from(pos, draw);
        proof {
            assert(final(self).cells_map() == spec_load(old(self).cells_map(), pos, draw));
        }
        c
    }

    /// The cell at `pos`, generating it on first access; the same contract
    /// as [`Board::load_cell`].
    pub fn get_cell(&mut self, pos: Position) -> (c: Cell)
        requires
            old(self).wf(),
        ensures
            final(self).wf(),
            final(self).player() == old(self).player(),
            final(self).glyphs() == old(self).glyphs(),
            exists|r: u32| final(self).cells_map() == #[trigger] spec_load(
                old(self).cells_map(),
                pos,
                r,
            ),
            old(self).cells_map().dom().contains(key_of(pos))
                ==> final(self).cells_map() == old(self).cells_map(),
            final(self).cells_map().dom() =~= old(self).cells_map().dom().insert(key_of(pos)),
            forall|k: (int, int)|
                old(self).cells_map().dom().contains(k)
                    ==> final(self).cells_map().dom().contains(k)
                    && final(self).cells_map()[k] == old(self).cells_map()[k],
            c@ == final(self).cells_map()[key_of(pos)],
    {
        self.load_cell(pos)
    }

    /// A mutable handle on the cell at `pos`, generated on first access
    /// from a fresh random draw. The world afterward holds at `pos`
    /// whatever the caller leaves in the handle, and every other generated
    /// cell unchanged.
    pub fn get_cell_mut(&mut self, pos: Position) -> (c: &mut Cell)
        requires
            old(self).wf(),
        ensures
            final(self).wf(),
            final(self).player() == old(self).player(),
            final(self).glyphs() == old(self).glyphs(),
            old(self).cells_map().dom().contains(key_of(pos))
                ==> (*c)@ == old(self).cells_map()[key_of(pos)],
            !old(self).cells_map().dom().contains(key_of(pos)) ==> exists|r: u32|
                (*c)@ == #[trigger] spec_generated(r),
            final(self).cells_map().dom() =~= old(self).cells_map().dom().insert(key_of(pos)),
            final(self).cells_map()[key_of(pos)] == (*final(c))@,
            forall|k: (int, int)|
                old(self).cells_map().dom().contains(k) && k != key_of(pos)
                    ==> final(self).cells_map().dom().contains(k)
                    && final(self).cells_map()[k] == old(self).cells_map()[k],
    {
        self.load_cell(pos);
        let i: usize = match self.find_index(pos) {
            Some(i) => i,
            None => {
                proof {
                    lemma_map_of_entries_contains(self.cells@, key_of(pos));
                    assert(false);
                }
                0
            },
        };
        let ghost mid = *self;
        proof {
            lemma_map_of_entries_index(self.cells@, i as int);
            assert forall|e: (Position, Cell)|
                e.0 == pos implies map_of_entries(
                    #[trigger] mid.cells@.update(i as int, e),
                ) =~= mid.cells_map().insert(key_of(pos), e.1@) && entries_distinct(
                    mid.cells@.update(i as int, e),
                ) by {
                lemma_map_of_entries_update(mid.cells@, i as int, e.1);
                assert(e == ((e.0, e.1)));
            }
        }
        let entry = vec_index_mut(&mut self.cells, i);
        cell_of_entry(entry)
    }

    /// Assigns content to the cell at `pos`, generating the cell first
    /// where it never was. The assignment succeeds exactly where the cell's
    /// content was never assigned; an occupied cell is left unchanged.
    pub fn set_content(&mut self, pos: Position, content: CellContent) -> (r: Result<
        (),
        CellOccupied,
    >)
        requires
            old(self).wf(),
        ensures
            final(self).wf(),
            final(self).player() == old(self).player(),
            final(self).glyphs() == old(self).glyphs(),
            old(self).cells_map().dom().contains(key_of(pos)) ==> {
                &&& (r is Ok <==> spec_set_succeeds(old(self).cells_map()[key_of(pos)]))
                &&& final(self).cells_map() =~= old(self).cells_map().insert(
                    key_of(pos),
                    spec_content_after(old(self).cells_map()[key_of(pos)], content),
                )
            },
            !old(self).cells_map().dom().contains(key_of(pos)) ==> r is Ok && exists|rd: u32|
                final(self).cells_map() =~= old(self).cells_map().insert(
                    key_of(pos),
                    spec_content_after(#[trigger] spec_generated(rd), content),
                ),
            final(self).cells_map().dom() =~= old(self).cells_map().dom().insert(key_of(pos)),
            forall|k: (int, int)|
                old(self).cells_map().dom().contains(k) && k != key_of(pos)
                    ==> final(self).cells_map().dom().contains(k)
                    && final(self).cells_map()[k] == old(self).cells_map()[k],
    {
        self.get_cell_mut(pos).set_content(content)
    }

    /// The viewport string of the given half extent centered on `center`:
    /// every cell of the window, generated where needed, rendered row by
    /// row with rows joined by a line break. The world keeps every cell it
    /// had and grows by exactly the window.
    pub fn render_viewport(&mut self, center: Position, half_extent: isize) -> (s: String)
        requires
            old(self).wf(),
            0 <= half_extent,
            2 * half_extent <= isize::MAX,
            isize::MIN <= center.0 - half_extent,
            center.0 + half_extent <= isize::MAX,
            isize::MIN <= center.1 - half_extent,
            center.1 + half_extent <= isize::MAX,
        ensures
            final(self).wf(),
            final(self).player() == old(self).player(),
            final(self).glyphs() == old(self).glyphs(),
            forall|k: (int, int)|
                old(self).cells_map().dom().contains(k)
                    ==> final(self).cells_map().dom().contains(k)
                    && final(self).cells_map()[k] == old(self).cells_map()[k],
            final(self).cells_map().dom() =~= old(self).cells_map().dom().union(
                spec_window(key_of(center), half_extent as int),
            ),
            s@ == spec_viewport(
                final(self).glyphs(),
                final(self).cells_map(),
                key_of(final(self).player()),
                key_of(center),
                half_extent as int,
            ),
    {
        let ghost m0 = self.cells_map();
        let ghost tbl = self.glyphs();
        let ghost ckey = key_of(center);
        let ghost h = half_extent as int;
        let ghost pkey = key_of(self.player_pos);
        let n: isize = 2 * half_extent;
        let mut s = String::new();
        let mut row: isize = 0;
        while row < n
            invariant
                self.wf(),
                self.player() == old(self).player(),
                self.glyphs() == tbl,
                m0 == old(self).cells_map(),
                tbl == old(self).glyphs(),
                ckey == key_of(center),
                h == half_extent as int,
                pkey == key_of(old(self).player()),
                n == 2 * half_extent,
                0 <= half_extent,
                isize::MIN <= center.0 - half_extent,
                center.0 + half_extent <= isize::MAX,
                isize::MIN <= center.1 - half_extent,
                center.1 + half_extent <= isize::MAX,
                0 <= row <= n,
                forall|k: (int, int)|
                    m0.dom().contains(k) ==> self.cells_map().dom().contains(k)
                        && self.cells_map()[k] == m0[k],
                self.cells_map().dom() =~= m0.dom().union(spec_window_rows(ckey, h, row as int)),
                s@ == spec_rows(tbl, self.cells_map(), pkey, ckey, h, row as nat),
            decreases n - row,
        {
            if row > 0 {
                s.append("\n\r");
            }
            let y: isize = center.1 - half_extent + row;
            let ghost s_start = s@;
            let mut col: isize = 0;
            while col < n
                invariant
                    self.wf(),
                    self.player() == old(self).player(),
                    self.glyphs() == tbl,
                    m0 == old(self).cells_map(),
                    tbl == old(self).glyphs(),
                    ckey == key_of(center),
                    h == half_extent as int,
                    pkey == key_of(old(self).player()),
                    n == 2 * half_extent,
                    0 <= half_extent,
                    isize::MIN <= center.0 - half_extent,
                    center.0 + half_extent <= isize::MAX,
                    isize::MIN <= center.1 - half_extent,
                    center.1 + half_extent <= isize::MAX,
                    0 <= row < n,
                    0 <= col <= n,
                    y == center.1 - half_extent + row,
                    forall|k: (int, int)|
                        m0.dom().contains(k) ==> self.cells_map().dom().contains(k)
                            && self.cells_map()[k] == m0[k],
                    self.cells_map().dom() =~= m0.dom().union(
                        spec_window_rows(ckey, h, row as int),
                    ).union(spec_row_prefix(ckey, h, y as int, col as int)),
                    s_start == spec_rows(tbl, self.cells_map(), pkey, ckey, h, row as nat) + (
                    if row == 0 {
                        Seq::<char>::empty()
                    } else {
                        "\n\r"@
                    }),
                    s@ == s_start + spec_row(
                        tbl,
                        self.cells_map(),
                        pkey,
                        ckey,
                        h,
                        y as int,
                        col as nat,
                    ),
                decreases n - col,
            {
                let x: isize = center.0 - half_extent + col;
                let contains_player = self.player_pos.0 == x && self.player_pos.1 == y;
                let ghost ma = self.cells_map();
                let cell = self.load_cell((x, y));
                proof {
                    let mb = self.cells_map();
                    assert forall|x2: int, y2: int|
                        ckey.0 - h <= x2 < ckey.0 + h && ckey.1 - h <= y2 < ckey.1 - h
                            + row implies #[trigger] ma[(x2, y2)] == mb[(x2, y2)] by {
                        assert(spec_window_rows(ckey, h, row as int).contains((x2, y2)));
                        assert(ma.dom().contains((x2, y2)));
                    }
                    lemma_spec_rows_congruent(tbl, ma, mb, pkey, ckey, h, row as nat);
                    assert forall|x2: int|
                        ckey.0 - h <= x2 < ckey.0 - h + col implies #[trigger] ma[(x2, y as int)]
                        == mb[(x2, y as int)] by {
                        assert(spec_row_prefix(ckey, h, y as int, col as int).contains(
                            (x2, y as int),
                        ));
                        assert(ma.dom().contains((x2, y as int)));
                    }
                    lemma_spec_row_congruent(tbl, ma, mb, pkey, ckey, h, y as int, col as nat);
                    assert(mb.dom() =~= m0.dom().union(
                        spec_window_rows(ckey, h, row as int),
                    ).union(spec_row_prefix(ckey, h, y as int, col as int + 1)));
                    assert(contains_player <==> pkey == ((x as int, y as int)));
                }
                let g = cell.to_colored_string(contains_player, &self.glyphs);
                s.append(g.as_str());
                proof {
                    assert(s@ == s_start + spec_row(
                        tbl,
                        self.cells_map(),
                        pkey,
                        ckey,
                        h,
                        y as int,
                        (col + 1) as nat,
                    ));
                }
                col += 1;
            }
            proof {
                assert(spec_window_rows(ckey, h, row as int).union(
                    spec_row_prefix(ckey, h, y as int, n as int),
                ) =~= spec_window_rows(ckey, h, row as int + 1));
                assert(s@ == spec_rows(tbl, self.cells_map(), pkey, ckey, h, (row + 1) as nat));
            }
            row += 1;
        }
        proof {
            assert(spec_window_rows(ckey, h, n as int) =~= spec_window(ckey, h));
        }
        s
    }

    /// The viewport of the default fixed extent around `center`. The
    /// terminal size is accepted for callers that track it but is not
    /// consulted: the window stays at the fixed default extent.
    pub fn get_display_at_location(&mut self, _size: (isize, isize), center: &Position) -> (s:
        String)
        requires
            old(self).wf(),
            isize::MIN <= center.0 - VIEW_HALF_EXTENT,
            center.0 + VIEW_HALF_EXTENT <= isize::MAX,
            isize::MIN <= center.1 - VIEW_HALF_EXTENT,
            center.1 + VIEW_HALF_EXTENT <= isize::MAX,
        ensures
            final(self).wf(),
            final(self).player() == old(self).player(),
            final(self).glyphs() == old(self).glyphs(),
            forall|k: (int, int)|
                old(self).cells_map().dom().contains(k)
                    ==> final(self).cells_map().dom().contains(k)
                    && final(self).cells_map()[k] == old(self).cells_map()[k],
            final(self).cells_map().dom() =~= old(self).cells_map().dom().union(
                spec_window(key_of(*center), VIEW_HALF_EXTENT as int),
            ),
            s@ == spec_viewport(
                final(self).glyphs(),
                final(self).cells_map(),
                key_of(final(self).player()),
                key_of(*center),
                VIEW_HALF_EXTENT as int,
            ),
    {
        self.render_viewport(*center, VIEW_HALF_EXTENT)
    }

    /// The viewport of the default fixed extent centered on the player.
    pub fn get_display(&mut self, size: (isize, isize)) -> (s: String)
        requires
            old(self).wf(),
            isize::MIN <= old(self).player().0 - VIEW_HALF_EXTENT,
            old(self).player().0 + VIEW_HALF_EXTENT <= isize::MAX,
            isize::MIN <= old(self).player().1 - VIEW_HALF_EXTENT,
            old(self).player().1 + VIEW_HALF_EXTENT <= isize::MAX,
        ensures
            final(self).wf(),
            final(self).player() == old(self).player(),
            final(self).glyphs() == old(self).glyphs(),
            forall|k: (int, int)|
                old(self).cells_map().dom().contains(k)
                    ==> final(self).cells_map().dom().contains(k)
                    && final(self).cells_map()[k] == old(self).cells_map()[k],
            final(self).cells_map().dom() =~= old(self).cells_map().dom().union(
                spec_window(key_of(old(self).player()), VIEW_HALF_EXTENT as int),
            ),
            s@ == spec_viewport(
                final(self).glyphs(),
                final(self).cells_map(),
                key_of(final(self).player()),
                key_of(old(self).player()),
                VIEW_HALF_EXTENT as int,
            ),
    {
        let center = self.player_pos;
        self.get_display_at_location(size, &center)
    }
}

} // verus!
