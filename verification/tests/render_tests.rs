//! Viewport rendering: glyph styling, the fixed-extent window, and render
//! idempotence.

use crossterm::style::Stylize;
use gridwalk::board::{Board, VIEW_HALF_EXTENT};
use gridwalk::cell::{Cell, CellBase, CellContent};
use gridwalk::game::{Command, Simulation};
use gridwalk::style::GlyphTable;

#[test]
fn colored_string_styles_bases() {
    let glyphs = GlyphTable::standard();
    let grass = Cell::from_base(CellBase::Grass).to_colored_string(false, &glyphs);
    assert_eq!(grass, " ".on_dark_green().to_string());
    assert_ne!(grass, " ");
    let water = Cell::from_base(CellBase::Water).to_colored_string(false, &glyphs);
    assert_eq!(water, " ".on_blue().to_string());
    let sand = Cell::from_base(CellBase::Sand).to_colored_string(false, &glyphs);
    assert_eq!(sand, " ".on_yellow().to_string());
    let stone = Cell::from_base(CellBase::Stone).to_colored_string(false, &glyphs);
    assert_eq!(stone, " ".on_grey().to_string());
}

#[test]
fn colored_string_styles_contents() {
    let glyphs = GlyphTable::standard();
    let mut food = Cell::from_base(CellBase::Grass);
    food.set_content(CellContent::Food).unwrap();
    assert_eq!(
        food.to_colored_string(false, &glyphs),
        "F".yellow().to_string().on_dark_green().to_string()
    );
    let mut poison = Cell::from_base(CellBase::Water);
    poison.set_content(CellContent::Poison).unwrap();
    assert_eq!(
        poison.to_colored_string(false, &glyphs),
        "P".red().to_string().on_blue().to_string()
    );
    let mut marker = Cell::from_base(CellBase::Sand);
    marker.set_content(CellContent::Marker).unwrap();
    assert_eq!(
        marker.to_colored_string(false, &glyphs),
        "#".red().to_string().on_yellow().to_string()
    );
}

#[test]
fn colored_string_player_overrides_content() {
    let glyphs = GlyphTable::standard();
    let mut c = Cell::from_base(CellBase::Stone);
    c.set_content(CellContent::Marker).unwrap();
    assert_eq!(
        c.to_colored_string(true, &glyphs),
        "*".white().to_string().on_grey().to_string()
    );
}

#[test]
fn viewport_of_zero_extent_is_empty() {
    let mut b = Board::new();
    assert_eq!(b.render_viewport((0, 0), 0), "");
}

#[test]
fn viewport_generates_its_window() {
    let mut b = Board::new();
    b.render_viewport((0, 0), 2);
    for y in -2..2 {
        for x in -2..2 {
            assert!(b.try_get_cell(&(x, y)).is_some());
        }
    }
    assert!(b.try_get_cell(&(2, 0)).is_none());
    assert!(b.try_get_cell(&(0, 2)).is_none());
    assert!(b.try_get_cell(&(-3, 0)).is_none());
}

// The draw standing for the fraction 0.95 of the unit interval: sand for
// every generated cell.
const SAND_DRAW: u32 = 4080218931;

#[test]
fn sand_world_viewport_centers_player() {
    let mut sim = Simulation::new();
    sim.apply_command(Command::MoveRight);
    sim.apply_command(Command::MoveRight);
    sim.apply_command(Command::MoveDown);
    assert_eq!(sim.board().player_position(), (2, 1));

    let mut b = Board::new();
    let center = (2isize, 1isize);
    for y in (center.1 - VIEW_HALF_EXTENT)..(center.1 + VIEW_HALF_EXTENT) {
        for x in (center.0 - VIEW_HALF_EXTENT)..(center.0 + VIEW_HALF_EXTENT) {
            assert_eq!(b.load_cell_from((x, y), SAND_DRAW).base(), CellBase::Sand);
        }
    }
    b.set_player_position(center);
    let shown = b.render_viewport(center, VIEW_HALF_EXTENT);

    let sand = " ".on_yellow().to_string();
    let player = "*".white().to_string().on_yellow().to_string();
    let side = 2 * VIEW_HALF_EXTENT as usize;
    let mut expected = String::new();
    for row in 0..side {
        if row > 0 {
            expected.push_str("\n\r");
        }
        for col in 0..side {
            if row == VIEW_HALF_EXTENT as usize && col == VIEW_HALF_EXTENT as usize {
                expected.push_str(&player);
            } else {
                expected.push_str(&sand);
            }
        }
    }
    assert_eq!(shown, expected);
}

#[test]
fn render_is_idempotent_without_commands() {
    let mut b = Board::new();
    let first = b.get_display((0, 0));
    let second = b.get_display((0, 0));
    assert_eq!(first, second);

    let mut sim = Simulation::new();
    let out1 = sim.render_tick();
    assert!(out1.is_some());
    // with no intervening command the state is unchanged: nothing to write
    let out2 = sim.render_tick();
    assert!(out2.is_none());
    let out3 = sim.render_tick();
    assert!(out3.is_none());
}

#[test]
fn get_display_centers_on_player() {
    let mut b = Board::new();
    b.set_player_position((40, -40));
    b.get_display((0, 0));
    assert!(b.try_get_cell(&(40 - 15, -40 - 15)).is_some());
    assert!(b.try_get_cell(&(40 + 14, -40 + 14)).is_some());
    assert!(b.try_get_cell(&(40 + 15, -40)).is_none());
    assert!(b.try_get_cell(&(0, 0)).is_none());
}

#[test]
fn get_display_at_location_matches_render_viewport() {
    // the same fixed-extent window from both entry points, drawn cell by
    // cell from the same cached world
    let mut b = Board::new();
    let at = b.get_display_at_location((80, 24), &(0, 0));
    let direct = b.render_viewport((0, 0), VIEW_HALF_EXTENT);
    assert_eq!(at, direct);
}
