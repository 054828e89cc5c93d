use vstd::prelude::*;

use crate::board::{is_direction, Off2D};

verus! {

/// What a key press asks of the driver.
#[derive(PartialEq, Eq, Clone, Copy, Debug)]
pub enum Command {
    /// Move the player one step.
    Move(Off2D),
    /// Discard the game and start again from the initial layout.
    Restart,
    /// Stop playing.
    Quit,
    /// Nothing to do.
    Ignore,
}

/// The command bound to `key`: `w`, `s`, `a`, `d` move up, down, left and
/// right, `r` restarts, `q` quits, and any other key is ignored.
pub open spec fn spec_command_for_key(key: char) -> Command {
    if key == 'w' {
        Command::Move((0isize, -1isize))
    } else if key == 's' {
        Command::Move((0isize, 1isize))
    } else if key == 'a' {
        Command::Move((-1isize, 0isize))
    } else if key == 'd' {
        Command::Move((1isize, 0isize))
    } else if key == 'r' {
        Command::Restart
    } else if key == 'q' {
        Command::Quit
    } else {
        Command::Ignore
    }
}

/// The command bound to `key`; every move it yields is a single step.
pub fn command_for_key(key: char) -> (r: Command)
    ensures
        r == spec_command_for_key(key),
        r matches Command::Move(off) ==> is_direction(off),
{
    match key {
        'w' => Command::Move((0, -1)),
        's' => Command::Move((0, 1)),
        'a' => Command::Move((-1, 0)),
        'd' => Command::Move((1, 0)),
        'r' => Command::Restart,
        'q' => Command::Quit,
        _ => Command::Ignore,
    }
}

} // verus!
