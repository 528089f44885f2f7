//! The decision logic of the two game loops: the fixed key table of the
//! input loop, the command handling and redraw test of the simulation
//! loop, and the supervisor's reading of a loop's termination message.
//!
//! The loops themselves — threads, the command channel, terminal reads and
//! writes — live outside this library; they feed key presses and commands
//! in and carry the returned text to the terminal.

use vstd::prelude::*;
use crate::board::{
    key_of, spec_generated, spec_viewport, spec_window, Board, Position, VIEW_HALF_EXTENT,
};
use crate::cell::{spec_content_after, spec_set_succeeds, CellContent, CellView};
use crate::style::GlyphTable;

verus! {

/// A discrete instruction for the simulation, produced from one key press
/// and consumed exactly once.
#[derive(Clone, Copy, PartialEq, Eq, Structural, Debug)]
pub enum Command {
    MoveUp,
    MoveDown,
    MoveLeft,
    MoveRight,
    PlaceMarker,
    NoOp,
}

/// One key press, as the input loop reports it: an arrow key, a character
/// key, or any other event.
#[derive(Clone, Copy, PartialEq, Eq, Structural, Debug)]
pub enum KeyPress {
    Up,
    Down,
    Left,
    Right,
    Char(char),
    Other,
}

/// What the input loop does with one key press: stop the program, or
/// forward a command to the simulation.
#[derive(Clone, Copy, PartialEq, Eq, Structural, Debug)]
pub enum InputAction {
    Quit,
    Forward(Command),
}

/// The message a worker loop leaves the supervisor with.
#[derive(Clone, Copy, PartialEq, Eq, Structural, Debug)]
pub enum MsgToMain {
    StopProgram,
    InputThreadCrash,
    GameThreadCrash,
}

/// The fixed key table: arrows move, the quit key stops the program, the
/// mark key places a marker, and every other key is forwarded as a pause,
/// so that a loop that waits for an event is never starved.
pub open spec fn spec_map_key(k: KeyPress) -> InputAction {
    match k {
        KeyPress::Up => InputAction::Forward(Command::MoveUp),
        KeyPress::Down => InputAction::Forward(Command::MoveDown),
        KeyPress::Left => InputAction::Forward(Command::MoveLeft),
        KeyPress::Right => InputAction::Forward(Command::MoveRight),
        KeyPress::Char(c) => if c == 'q' {
            InputAction::Quit
        } else if c == 'p' {
            InputAction::Forward(Command::PlaceMarker)
        } else {
            InputAction::Forward(Command::NoOp)
        },
        KeyPress::Other => InputAction::Forward(Command::NoOp),
    }
}

/// Maps one key press to its action, by the fixed key table.
pub fn map_key(k: KeyPress) -> (a: InputAction)
    ensures
        a == spec_map_key(k),
{
    match k {
        KeyPress::Up => InputAction::Forward(Command::MoveUp),
        KeyPress::Down => InputAction::Forward(Command::MoveDown),
        KeyPress::Left => InputAction::Forward(Command::MoveLeft),
        KeyPress::Right => InputAction::Forward(Command::MoveRight),
        KeyPress::Char(c) => {
            if c == 'q' {
                InputAction::Quit
            } else if c == 'p' {
                InputAction::Forward(Command::PlaceMarker)
            } else {
                InputAction::Forward(Command::NoOp)
            }
        },
        KeyPress::Other => InputAction::Forward(Command::NoOp),
    }
}

/// The process exit status for a termination message: success exactly on a
/// player-requested quit, failure on either loop crashing.
pub fn exit_code(msg: &MsgToMain) -> (c: i32)
    ensures
        msg is StopProgram ==> c == 0,
        !(msg is StopProgram) ==> c == 1,
{
    match msg {
        MsgToMain::StopProgram => 0,
        MsgToMain::InputThreadCrash => 1,
        MsgToMain::GameThreadCrash => 1,
    }
}

/// The one-line diagnostic for a termination message: the crashed loop is
/// named; a normal quit prints nothing.
pub fn exit_diagnostic(msg: &MsgToMain) -> (d: Option<&'static str>)
    ensures
        msg is StopProgram <==> d is None,
        msg is InputThreadCrash ==> (d matches Some(t) && t@ == "Error in input thread"@),
        msg is GameThreadCrash ==> (d matches Some(t) && t@ == "Error in game thread"@),
{
    match msg {
        MsgToMain::StopProgram => None,
        MsgToMain::InputThreadCrash => Some("Error in input thread"),
        MsgToMain::GameThreadCrash => Some("Error in game thread"),
    }
}

/// Whether a command can be applied to a player at this position without
/// the moved axis leaving the machine's range.
pub open spec fn spec_can_apply(player: Position, cmd: Command) -> bool {
    match cmd {
        Command::MoveUp => player.1 > isize::MIN,
        Command::MoveDown => player.1 < isize::MAX,
        Command::MoveLeft => player.0 > isize::MIN,
        Command::MoveRight => player.0 < isize::MAX,
        Command::PlaceMarker => true,
        Command::NoOp => true,
    }
}

/// The player position after a command: a movement command adjusts exactly
/// one axis by exactly one; every other command leaves the position.
pub open spec fn spec_player_after(player: Position, cmd: Command) -> (int, int) {
    match cmd {
        Command::MoveUp => (player.0 as int, player.1 - 1),
        Command::MoveDown => (player.0 as int, player.1 + 1),
        Command::MoveLeft => (player.0 - 1, player.1 as int),
        Command::MoveRight => (player.0 + 1, player.1 as int),
        Command::PlaceMarker => key_of(player),
        Command::NoOp => key_of(player),
    }
}

/// The message shown to the player when a marker lands on occupied
/// content: the table's styled warning prefix, then the error's text.
pub open spec fn spec_occupied_message(t: GlyphTable) -> Seq<char> {
    t.warning@ + "Cell is not empty!"@
}

/// The state the simulation loop carries between iterations: the world and
/// player, the last rendered viewport, and a pending player-visible
/// message.
pub struct Simulation {
    board: Board,
    current_display: String,
    msg_to_player: String,
}

impl Simulation {
    /// The world's mapping from generated coordinates to their cells.
    pub closed spec fn world(&self) -> Map<(int, int), CellView> {
        self.board.cells_map()
    }

    /// The player's position.
    pub closed spec fn player(&self) -> Position {
        self.board.player()
    }

    /// The viewport string of the previous draw.
    pub closed spec fn display(&self) -> Seq<char> {
        self.current_display@
    }

    /// The pending player-visible message.
    pub closed spec fn msg(&self) -> Seq<char> {
        self.msg_to_player@
    }

    /// The glyph table the simulation renders with.
    pub closed spec fn glyphs(&self) -> GlyphTable {
        self.board.glyphs()
    }

    /// The world lists every generated coordinate exactly once.
    pub closed spec fn wf(&self) -> bool {
        self.board.wf()
    }

    /// A fresh simulation: empty world, player at the origin, nothing
    /// rendered and nothing to tell the player.
    pub fn new() -> (sim: Self)
        ensures
            sim.wf(),
            sim.world() == Map::<(int, int), CellView>::empty(),
            sim.player() == ((0isize, 0isize)),
            sim.display() == Seq::<char>::empty(),
            sim.msg() == Seq::<char>::empty(),
    {
        Simulation { board: Board::new(), current_display: String::new(), msg_to_player: String::new() }
    }

    /// The world and player, for callers that inspect the simulation.
    pub fn board(&self) -> (b: &Board)
        ensures
            b.cells_map() == self.world(),
            b.player() == self.player(),
            b.glyphs() == self.glyphs(),
            b.wf() <==> self.wf(),
    {
        &self.board
    }

    /// Applies one drained command. A movement command adjusts exactly one
    /// player axis by exactly one and touches no cell. A marker command
    /// assigns the marker to the player's cell, generating it first where
    /// it never was; where the cell's content is already set, the world is
    /// left unchanged and the failure becomes a pending player message.
    pub fn apply_command(&mut self, cmd: Command)
        requires
            old(self).wf(),
            spec_can_apply(old(self).player(), cmd),
        ensures
            final(self).wf(),
            key_of(final(self).player()) == spec_player_after(old(self).player(), cmd),
            final(self).display() == old(self).display(),
            final(self).glyphs() == old(self).glyphs(),
            !(cmd is PlaceMarker) ==> final(self).world() == old(self).world() && final(self).msg()
                == old(self).msg(),
            cmd is PlaceMarker ==> {
                let pk = key_of(old(self).player());
                &&& old(self).world().dom().contains(pk) && spec_set_succeeds(
                    old(self).world()[pk],
                ) ==> final(self).world() =~= old(self).world().insert(
                    pk,
                    spec_content_after(old(self).world()[pk], CellContent::Marker),
                ) && final(self).msg() == old(self).msg()
                &&& old(self).world().dom().contains(pk) && !spec_set_succeeds(
                    old(self).world()[pk],
                ) ==> final(self).world() =~= old(self).world() && final(self).msg()
                    == spec_occupied_message(old(self).glyphs())
                &&& !old(self).world().dom().contains(pk) ==> (exists|rd: u32|
                    final(self).world() =~= old(self).world().insert(
                        pk,
                        spec_content_after(#[trigger] spec_generated(rd), CellContent::Marker),
                    )) && final(self).msg() == old(self).msg()
            },
    {
        match cmd {
            Command::MoveUp => {
                let p = self.board.player_position();
                self.board.set_player_position((p.0, p.1 - 1));
            },
            Command::MoveDown => {
                let p = self.board.player_position();
                self.board.set_player_position((p.0, p.1 + 1));
            },
            Command::MoveLeft => {
                let p = self.board.player_position();
                self.board.set_player_position((p.0 - 1, p.1));
            },
            Command::MoveRight => {
                let p = self.board.player_position();
                self.board.set_player_position((p.0 + 1, p.1));
            },
            Command::PlaceMarker => {
                let pos = self.board.player_position();
                if let Err(e) = self.board.get_cell_mut(pos).set_content(CellContent::Marker) {
                    let mut m = self.board.glyph_table().warning.clone();
                    m.append(e.message());
                    self.msg_to_player = m;
                }
            },
            Command::NoOp => {},
        }
    }

    /// One pass of the simulation loop's draw phase: recompute the
    /// viewport around the player and decide whether the terminal must be
    /// redrawn. Text comes back exactly where the viewport changed or a
    /// player message is pending: the new viewport, a line break, and the
    /// message, which is thereby consumed. Otherwise nothing is to be
    /// written.
    pub fn render_tick(&mut self) -> (out: Option<String>)
        requires
            old(self).wf(),
            isize::MIN <= old(self).player().0 - VIEW_HALF_EXTENT,
            old(self).player().0 + VIEW_HALF_EXTENT <= isize::MAX,
            isize::MIN <= old(self).player().1 - VIEW_HALF_EXTENT,
            old(self).player().1 + VIEW_HALF_EXTENT <= isize::MAX,
        ensures
            final(self).wf(),
            final(self).player() == old(self).player(),
            final(self).glyphs() == old(self).glyphs(),
            forall|k: (int, int)|
                old(self).world().dom().contains(k) ==> final(self).world().dom().contains(k)
                    && final(self).world()[k] == old(self).world()[k],
            final(self).world().dom() =~= old(self).world().dom().union(
                spec_window(key_of(old(self).player()), VIEW_HALF_EXTENT as int),
            ),
            final(self).msg() == Seq::<char>::empty(),
            final(self).display() == spec_viewport(
                final(self).glyphs(),
                final(self).world(),
                key_of(final(self).player()),
                key_of(final(self).player()),
                VIEW_HALF_EXTENT as int,
            ),
            match out {
                Some(t) => (final(self).display() != old(self).display() || old(self).msg()
                    != Seq::<char>::empty()) && t@ == final(self).display() + "\n\r"@
                    + old(self).msg(),
                None => final(self).display() == old(self).display() && old(self).msg()
                    == Seq::<char>::empty(),
            },
    {
        let center = self.board.player_position();
        let display = self.board.render_viewport(center, VIEW_HALF_EXTENT);
        let changed = !(display == self.current_display);
        let has_msg = !self.msg_to_player.as_str().is_empty();
        if changed || has_msg {
            proof {
                assert(self.msg_to_player@ == old(self).msg());
            }
            let mut t = display.clone();
            t.append("\n\r");
            t.append(self.msg_to_player.as_str());
            self.current_display = display;
            self.msg_to_player = String::new();
            Some(t)
        } else {
            proof {
                assert(self.msg_to_player@ =~= Seq::<char>::empty());
            }
            None
        }
    }
}

} // verus!
