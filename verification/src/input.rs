use vstd::prelude::*;
use crate::grid::Grid;
use crate::object::Object;

verus! {

/// The keys the game tells apart.
#[derive(Clone, Copy, Debug, PartialEq, Eq, Structural)]
pub enum KeyCode {
    Enter,
    Escape,
    Up,
    Down,
    Left,
    Right,
    /// Any other key.
    Other,
}

/// One key press: the key, and whether Alt was held with it.
#[derive(Clone, Copy, Debug, PartialEq, Eq, Structural)]
pub struct Key {
    pub code: KeyCode,
    pub alt: bool,
}

/// What the caller is to do after a key press.
#[derive(Clone, Copy, Debug, PartialEq, Eq, Structural)]
pub enum KeyOutcome {
    /// Switch between windowed and fullscreen display, and go on.
    ToggleFullscreen,
    /// Leave the game.
    Exit,
    /// Go on with the next frame.
    Continue,
}

/// The step that `key` asks of the player: one tile up, down, left or right
/// for the arrow keys, none for any other key.
pub open spec fn step_for(key: Key) -> Option<(int, int)> {
    match key.code {
        KeyCode::Up => Some((0int, -1int)),
        KeyCode::Down => Some((0int, 1int)),
        KeyCode::Left => Some((-1int, 0int)),
        KeyCode::Right => Some((1int, 0int)),
        _ => None,
    }
}

/// What `key` asks of the caller: Alt+Enter toggles fullscreen, Escape
/// leaves the game, and every other key lets it go on.
pub open spec fn outcome_for(key: Key) -> KeyOutcome {
    match key.code {
        KeyCode::Enter => if key.alt {
            KeyOutcome::ToggleFullscreen
        } else {
            KeyOutcome::Continue
        },
        KeyCode::Escape => KeyOutcome::Exit,
        _ => KeyOutcome::Continue,
    }
}

/// Acts on one key press: an arrow key moves the player one tile if the
/// map lets it, and the result tells the caller whether to toggle
/// fullscreen, to leave, or to go on.
pub fn handle_keys(key: Key, player: &mut Object, map: &Grid) -> (outcome: KeyOutcome)
    requires
        map.wf(),
    ensures
        outcome == outcome_for(key),
        *final(player) == (match step_for(key) {
            Some(step) => old(player).moved_by(step.0, step.1, map@),
            None => *old(player),
        }),
{
    match key.code {
        KeyCode::Enter => {
            if key.alt {
                return KeyOutcome::ToggleFullscreen;
            }
        },
        KeyCode::Escape => {
            return KeyOutcome::Exit;
        },
        KeyCode::Up => {
            player.move_by(0, -1, map);
        },
        KeyCode::Down => {
            player.move_by(0, 1, map);
        },
        KeyCode::Left => {
            player.move_by(-1, 0, map);
        },
        KeyCode::Right => {
            player.move_by(1, 0, map);
        },
        KeyCode::Other => {},
    }
    KeyOutcome::Continue
}

} // verus!
