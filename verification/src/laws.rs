//! The library's stated laws: properties that relate several operations,
//! proved over the same spec functions that the operations' contracts use.

use vstd::prelude::*;
use crate::board::{key_of, spec_load, spec_viewport, spec_window, Position};
use crate::cell::{spec_content_after, spec_set_succeeds, CellContent, CellView};
use crate::game::{spec_player_after, Command};
use crate::style::GlyphTable;

verus! {

/// Lazy generation is generate-once: a load at a position the world
/// already holds leaves the world unchanged, so after a first load every
/// further load of the same position returns the same cell, whatever its
/// own draw.
pub proof fn lemma_generate_once(
    m: Map<(int, int), CellView>,
    pos: Position,
    r1: u32,
    r2: u32,
)
    ensures
        spec_load(m, pos, r1).dom().contains(key_of(pos)),
        spec_load(spec_load(m, pos, r1), pos, r2) == spec_load(m, pos, r1),
        spec_load(spec_load(m, pos, r1), pos, r2)[key_of(pos)] == spec_load(m, pos, r1)[key_of(
            pos,
        )],
{
}

/// The world only grows: a lazy load keeps every generated position and
/// its cell, and the loaded position is generated afterward.
pub proof fn lemma_world_monotonic(m: Map<(int, int), CellView>, pos: Position, r: u32)
    ensures
        m.dom().subset_of(spec_load(m, pos, r).dom()),
        forall|k: (int, int)|
            m.dom().contains(k) ==> #[trigger] spec_load(m, pos, r)[k] == m[k],
        spec_load(m, pos, r).dom().contains(key_of(pos)),
{
}

/// Content is single-assignment: on a cell whose content was never set,
/// one assignment succeeds; every further assignment fails and leaves the
/// first content in place.
pub proof fn lemma_content_single_assignment(
    c: CellView,
    first: CellContent,
    second: CellContent,
)
    requires
        spec_set_succeeds(c),
        first != CellContent::Empty,
    ensures
        spec_content_after(c, first).content == first,
        spec_content_after(c, first).base == c.base,
        spec_content_after(c, first).height == c.height,
        !spec_set_succeeds(spec_content_after(c, first)),
        spec_content_after(spec_content_after(c, first), second) == spec_content_after(c, first),
{
}

/// A movement command adjusts exactly one player axis by exactly one and
/// leaves the other axis: the vertical axis for up and down, the
/// horizontal one for left and right.
pub proof fn lemma_movement_axes(player: Position, cmd: Command)
    requires
        cmd is MoveUp || cmd is MoveDown || cmd is MoveLeft || cmd is MoveRight,
    ensures
        ({
            let p2 = spec_player_after(player, cmd);
            &&& (p2.0 == key_of(player).0 && (p2.1 == player.1 - 1 || p2.1 == player.1 + 1)) <==> (
            cmd is MoveUp || cmd is MoveDown)
            &&& ((p2.0 == player.0 - 1 || p2.0 == player.0 + 1) && p2.1 == key_of(player).1) <==> (
            cmd is MoveLeft || cmd is MoveRight)
        }),
{
}

/// Rendering is idempotent: rendering generates every cell of its window,
/// so a world that already holds the whole window comes out of a render
/// pass whole, and a second pass over the same state yields the same
/// viewport string. The redraw test on an unchanged string then writes
/// nothing.
pub proof fn lemma_render_idempotent(
    t: GlyphTable,
    m1: Map<(int, int), CellView>,
    m2: Map<(int, int), CellView>,
    player: (int, int),
    center: (int, int),
    half: int,
)
    requires
        0 <= half,
        spec_window(center, half).subset_of(m1.dom()),
        m2.dom() == m1.dom().union(spec_window(center, half)),
        forall|k: (int, int)| m1.dom().contains(k) ==> #[trigger] m2[k] == m1[k],
    ensures
        m2 == m1,
        spec_viewport(t, m2, player, center, half) == spec_viewport(t, m1, player, center, half),
{
    assert(m2.dom() =~= m1.dom());
    assert(m2 =~= m1);
}

} // verus!
