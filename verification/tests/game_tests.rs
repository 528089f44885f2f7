//! The loop decision logic: the key table, command application, the redraw
//! test, and the supervisor's outcome handling.

use crossterm::style::Stylize;
use gridwalk::cell::CellContent;
use gridwalk::game::{
    exit_code, exit_diagnostic, map_key, Command, InputAction, KeyPress, MsgToMain, Simulation,
};

#[test]
fn key_table() {
    assert_eq!(map_key(KeyPress::Up), InputAction::Forward(Command::MoveUp));
    assert_eq!(map_key(KeyPress::Down), InputAction::Forward(Command::MoveDown));
    assert_eq!(map_key(KeyPress::Left), InputAction::Forward(Command::MoveLeft));
    assert_eq!(map_key(KeyPress::Right), InputAction::Forward(Command::MoveRight));
    assert_eq!(map_key(KeyPress::Char('q')), InputAction::Quit);
    assert_eq!(map_key(KeyPress::Char('p')), InputAction::Forward(Command::PlaceMarker));
    // unknown keys become a pause, still forwarded
    assert_eq!(map_key(KeyPress::Char('z')), InputAction::Forward(Command::NoOp));
    assert_eq!(map_key(KeyPress::Other), InputAction::Forward(Command::NoOp));
}

#[test]
fn movement_adjusts_one_axis_by_one() {
    let mut sim = Simulation::new();
    assert_eq!(sim.board().player_position(), (0, 0));
    sim.apply_command(Command::MoveUp);
    assert_eq!(sim.board().player_position(), (0, -1));
    sim.apply_command(Command::MoveDown);
    assert_eq!(sim.board().player_position(), (0, 0));
    sim.apply_command(Command::MoveLeft);
    assert_eq!(sim.board().player_position(), (-1, 0));
    sim.apply_command(Command::MoveRight);
    assert_eq!(sim.board().player_position(), (0, 0));
    sim.apply_command(Command::NoOp);
    assert_eq!(sim.board().player_position(), (0, 0));
}

#[test]
fn movement_touches_no_cell() {
    let mut sim = Simulation::new();
    sim.apply_command(Command::PlaceMarker);
    let before = sim.board().try_get_cell(&(0, 0)).unwrap();
    sim.apply_command(Command::MoveRight);
    sim.apply_command(Command::MoveLeft);
    let after = sim.board().try_get_cell(&(0, 0)).unwrap();
    assert_eq!(before.base(), after.base());
    assert_eq!(before.content(), after.content());
    assert_eq!(before.height(), after.height());
}

#[test]
fn place_marker_twice_queues_message() {
    let mut sim = Simulation::new();
    sim.apply_command(Command::PlaceMarker);
    assert_eq!(
        sim.board().try_get_cell(&(0, 0)).unwrap().content(),
        CellContent::Marker
    );
    // drain the pending draw so only the message can force the next write
    sim.render_tick();
    sim.apply_command(Command::PlaceMarker);
    // the marker stays; the failure became a player message
    assert_eq!(
        sim.board().try_get_cell(&(0, 0)).unwrap().content(),
        CellContent::Marker
    );
    let out = sim.render_tick().expect("a pending message forces a write");
    let expected_msg = format!("{}Cell is not empty!", "/!\\".red());
    assert!(out.ends_with(&expected_msg));
    // the message is consumed by the write
    assert!(sim.render_tick().is_none());
}

#[test]
fn quit_before_any_movement() {
    // the quit key maps to a stop, not to a command for the simulation
    assert_eq!(map_key(KeyPress::Char('q')), InputAction::Quit);
    // the simulation has consumed nothing; the supervisor sees a normal
    // quit and reports success with no diagnostic
    let sim = Simulation::new();
    assert_eq!(sim.board().player_position(), (0, 0));
    assert_eq!(exit_code(&MsgToMain::StopProgram), 0);
    assert!(exit_diagnostic(&MsgToMain::StopProgram).is_none());
}

#[test]
fn crash_outcomes() {
    assert_eq!(exit_code(&MsgToMain::InputThreadCrash), 1);
    assert_eq!(exit_code(&MsgToMain::GameThreadCrash), 1);
    assert_eq!(
        exit_diagnostic(&MsgToMain::InputThreadCrash),
        Some("Error in input thread")
    );
    assert_eq!(
        exit_diagnostic(&MsgToMain::GameThreadCrash),
        Some("Error in game thread")
    );
}

#[test]
fn redraw_only_on_change_or_message() {
    let mut sim = Simulation::new();
    let first = sim.render_tick().expect("the first draw always differs");
    assert!(sim.render_tick().is_none());
    // a movement changes the viewport: the next tick writes again
    sim.apply_command(Command::MoveRight);
    let second = sim.render_tick().expect("a moved player changes the viewport");
    assert_ne!(first, second);
    assert!(sim.render_tick().is_none());
}
