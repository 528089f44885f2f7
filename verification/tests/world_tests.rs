//! The world model: lazy generation, monotonic growth, and content
//! single-assignment.

use gridwalk::board::{Board, GRASS_BOUND, STONE_BOUND};
use gridwalk::cell::{Cell, CellBase, CellContent, CellOccupied};

#[test]
fn generation_thresholds() {
    assert_eq!(Board::new().load_cell_from((0, 0), 0).base(), CellBase::Grass);
    assert_eq!(Board::new().load_cell_from((0, 0), GRASS_BOUND - 1).base(), CellBase::Grass);
    assert_eq!(Board::new().load_cell_from((0, 0), GRASS_BOUND).base(), CellBase::Stone);
    assert_eq!(Board::new().load_cell_from((0, 0), STONE_BOUND - 1).base(), CellBase::Stone);
    assert_eq!(Board::new().load_cell_from((0, 0), STONE_BOUND).base(), CellBase::Sand);
    assert_eq!(Board::new().load_cell_from((0, 0), u32::MAX).base(), CellBase::Sand);
}

#[test]
fn generation_is_deterministic_under_fixed_draw() {
    let mut a = Board::new();
    let mut b = Board::new();
    let ca = a.load_cell_from((7, -3), 12345);
    let cb = b.load_cell_from((7, -3), 12345);
    assert_eq!(ca.base(), cb.base());
    assert_eq!(ca.content(), cb.content());
    assert_eq!(ca.height(), cb.height());
}

#[test]
fn generate_once_cache_forever() {
    let mut b = Board::new();
    let first = b.load_cell_from((4, 4), 0);
    assert_eq!(first.base(), CellBase::Grass);
    // a second load of the same position ignores its draw: the cached cell
    // comes back
    let second = b.load_cell_from((4, 4), u32::MAX);
    assert_eq!(second.base(), CellBase::Grass);
    let third = b.load_cell((4, 4));
    assert_eq!(third.base(), CellBase::Grass);
}

#[test]
fn try_get_iff_generated() {
    let mut b = Board::new();
    assert!(b.try_get_cell(&(0, 0)).is_none());
    b.load_cell((0, 0));
    assert!(b.try_get_cell(&(0, 0)).is_some());
    // generating one position reveals no other
    assert!(b.try_get_cell(&(0, 1)).is_none());
    b.load_cell((0, 1));
    assert!(b.try_get_cell(&(0, 0)).is_some());
    assert!(b.try_get_cell(&(0, 1)).is_some());
}

#[test]
fn get_cell_generates() {
    let mut b = Board::new();
    let c = b.get_cell((-5, 9));
    assert_eq!(c.content(), CellContent::Empty);
    assert_eq!(c.height(), 0);
    assert!(b.try_get_cell(&(-5, 9)).is_some());
}

#[test]
fn cell_new_and_default() {
    let c = Cell::new();
    assert_eq!(c.base(), CellBase::Grass);
    assert_eq!(c.content(), CellContent::Empty);
    assert_eq!(c.height(), 0);
    let d = Cell::default();
    assert_eq!(d.base(), CellBase::Grass);
    assert_eq!(d.content(), CellContent::Empty);
}

#[test]
fn cell_from_base() {
    let c = Cell::from_base(CellBase::Water);
    assert_eq!(c.base(), CellBase::Water);
    assert_eq!(c.content(), CellContent::Empty);
    assert_eq!(c.height(), 0);
}

#[test]
fn set_content_succeeds_exactly_once() {
    let mut c = Cell::from_base(CellBase::Stone);
    assert!(c.set_content(CellContent::Food).is_ok());
    assert_eq!(c.content(), CellContent::Food);
    // every further assignment fails and changes nothing
    assert_eq!(c.set_content(CellContent::Poison), Err(CellOccupied));
    assert_eq!(c.content(), CellContent::Food);
    assert_eq!(c.set_content(CellContent::Marker), Err(CellOccupied));
    assert_eq!(c.content(), CellContent::Food);
    assert_eq!(c.base(), CellBase::Stone);
}

#[test]
fn occupied_error_message() {
    let mut c = Cell::new();
    c.set_content(CellContent::Marker).unwrap();
    let e = c.set_content(CellContent::Marker).unwrap_err();
    assert_eq!(e.message(), "Cell is not empty!");
}

#[test]
fn set_content_generates_and_places() {
    let mut b = Board::new();
    assert!(b.set_content((3, 3), CellContent::Marker).is_ok());
    let c = b.try_get_cell(&(3, 3)).unwrap();
    assert_eq!(c.content(), CellContent::Marker);
    assert_eq!(b.set_content((3, 3), CellContent::Marker), Err(CellOccupied));
    assert_eq!(b.try_get_cell(&(3, 3)).unwrap().content(), CellContent::Marker);

    let handle = b.get_cell_mut((5, 5));
    assert!(handle.set_content(CellContent::Food).is_ok());
    assert_eq!(b.try_get_cell(&(5, 5)).unwrap().content(), CellContent::Food);
}

#[test]
fn player_position_moves_only_by_request() {
    let mut b = Board::new();
    assert_eq!(b.player_position(), (0, 0));
    b.load_cell((8, 8));
    assert_eq!(b.player_position(), (0, 0));
    b.set_player_position((-2, 6));
    assert_eq!(b.player_position(), (-2, 6));
    assert!(b.try_get_cell(&(8, 8)).is_some());
}
