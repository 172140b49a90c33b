pub mod traits;

use crate::cell::Cell;
use crate::game::traits::CellGame as CellGameTrait;
use crate::game_rules::stepped;
use vstd::prelude::*;

verus! {

/// An event that the game loop posts to itself.
#[derive(Debug, PartialEq, Clone, Copy)]
pub enum UserEvent {
    /// Advance the cell at `(x, y)` by hand.
    StepCell { x: usize, y: usize },
    /// End the game.
    CloseGame,
}

impl traits::UserEvent for UserEvent {

}

/// The keys the game loop reacts to; every other key is `Other`.
#[derive(Debug, PartialEq, Clone, Copy)]
pub enum Key {
    P,
    PageUp,
    PageDown,
    Space,
    Escape,
    Other,
}

/// What the caller has to do after a key was handled.
#[derive(Debug, PartialEq, Clone, Copy)]
pub enum KeyAction {
    /// Nothing.
    Nothing,
    /// Shorten the time between two generations.
    ShortenUpdateTime,
    /// Lengthen the time between two generations.
    LengthenUpdateTime,
    /// Let trails decay faster.
    RaiseDecay,
    /// Let trails decay more slowly.
    LowerDecay,
    /// Draw the board again: it has moved on by one generation.
    Redraw,
}

/// What the game loop remembers between events.
pub struct GameContext {
    /// The cell that the pointer advanced last while its button was held, so
    /// that resting on a cell advances it once only.
    pub last_cell_stepped: Option<(usize, usize)>,
    /// Whether the simulation is halted.
    pub paused: bool,
    /// Whether the loop is to end.
    pub stop: bool,
}

impl GameContext {
    /// The context of a running game on which nothing has happened yet.
    pub fn new() -> (context: Self)
        ensures
            context.last_cell_stepped == None::<(usize, usize)>,
            !context.paused,
            !context.stop,
    {
        GameContext { last_cell_stepped: None, paused: false, stop: false }
    }

    /// Handles an event that the loop posted to itself and says whether the
    /// board has to be drawn again.
    ///
    /// A request to advance a cell advances it by hand and remembers it,
    /// unless it is the cell advanced last: then nothing happens. Any other
    /// event changes nothing.
    pub fn on_user_event<G: CellGameTrait>(&mut self, event: UserEvent, game: &mut G) -> (redraw:
        bool)
        requires
            old(game).wf(),
            event matches UserEvent::StepCell { x, y } ==> old(game).board_view().in_bounds(
                x as int,
                y as int,
            ),
        ensures
            final(game).wf(),
            final(self).paused == old(self).paused,
            final(self).stop == old(self).stop,
            match event {
                UserEvent::StepCell { x, y } => if old(self).last_cell_stepped == Some((x, y)) {
                    !redraw && *final(self) == *old(self) && final(game).board_view() == old(game).board_view()
                } else {
                    redraw && final(self).last_cell_stepped == Some((x, y)) && final(game).board_view() == old(game).board_view().with_cell(
                        x as int,
                        y as int,
                        old(game).board_view().at(x as int, y as int).successor(),
                    )
                },
                UserEvent::CloseGame => !redraw && *final(self) == *old(self) && final(game).board_view() == old(game).board_view(),
            },
    {
        match event {
            UserEvent::StepCell { x, y } => {
                if let Some((last_x, last_y)) = self.last_cell_stepped {
                    if last_x == x && last_y == y {
                        return false;
                    }
                }
                game.next_cell(x, y);
                self.last_cell_stepped = Some((x, y));
                true
            },
            _ => false,
        }
    }

    /// Handles a change of the pointer: where it is, in cells, and whether
    /// its left button is held. Returns the event to post, if any.
    ///
    /// While the button is held the cell under the pointer is to be advanced.
    /// Once it is released the cell advanced last is forgotten, so that the
    /// next press advances it again.
    pub fn on_mouse_state_updated(&mut self, left_pressed: bool, x: usize, y: usize) -> (event:
        Option<UserEvent>)
        ensures
            final(self).paused == old(self).paused,
            final(self).stop == old(self).stop,
            left_pressed ==> event == Some(UserEvent::StepCell { x, y }) && *final(self) == *old(self),
            !left_pressed ==> event == None::<UserEvent> && final(self).last_cell_stepped
                == None::<(usize, usize)>,
    {
        if left_pressed {
            Some(UserEvent::StepCell { x, y })
        } else {
            self.last_cell_stepped = None;
            None
        }
    }

    /// Handles a key and says what is left for the caller to do.
    ///
    /// A released key does nothing. `P` halts or resumes the simulation,
    /// `Escape` asks the loop to end, `Space` moves the game on by one
    /// generation at once, paused or not. `PageUp` and `PageDown` change the
    /// pace of the simulation, or with shift held the decay of trails; both
    /// are left to the caller.
    pub fn on_keyboard_input<G: CellGameTrait>(
        &mut self,
        pressed: bool,
        key: Key,
        shift: bool,
        game: &mut G,
    ) -> (action: KeyAction)
        requires
            old(game).wf(),
        ensures
            final(game).wf(),
            final(self).last_cell_stepped == old(self).last_cell_stepped,
            final(self).paused == (if pressed && key == Key::P {
                !old(self).paused
            } else {
                old(self).paused
            }),
            final(self).stop == (old(self).stop || (pressed && key == Key::Escape)),
            final(game).board_view() == (if pressed && key == Key::Space {
                stepped::<G::GameRule>(old(game).board_view())
            } else {
                old(game).board_view()
            }),
            action == Self::key_action(pressed, key, shift),
    {
        if !pressed {
            return KeyAction::Nothing;
        }
        match key {
            Key::P => {
                self.paused = !self.paused;
                KeyAction::Nothing
            },
            Key::PageUp => {
                if shift {
                    KeyAction::RaiseDecay
                } else {
                    KeyAction::ShortenUpdateTime
                }
            },
            Key::PageDown => {
                if shift {
                    KeyAction::LowerDecay
                } else {
                    KeyAction::LengthenUpdateTime
                }
            },
            Key::Space => {
                game.step();
                KeyAction::Redraw
            },
            Key::Escape => {
                self.stop = true;
                KeyAction::Nothing
            },
            Key::Other => KeyAction::Nothing,
        }
    }

    /// What is left for the caller to do after a key was handled.
    pub open spec fn key_action(pressed: bool, key: Key, shift: bool) -> KeyAction {
        if !pressed {
            KeyAction::Nothing
        } else {
            match key {
                Key::PageUp => if shift {
                    KeyAction::RaiseDecay
                } else {
                    KeyAction::ShortenUpdateTime
                },
                Key::PageDown => if shift {
                    KeyAction::LowerDecay
                } else {
                    KeyAction::LengthenUpdateTime
                },
                Key::Space => KeyAction::Redraw,
                _ => KeyAction::Nothing,
            }
        }
    }

    /// Runs once all pending events are handled: moves the game on by one
    /// generation if it is not paused and `update_due` says that the time
    /// between two generations has passed. Returns whether the loop is to
    /// end and whether the game moved on, in which case the board has to be
    /// drawn again.
    pub fn on_main_events_cleared<G: CellGameTrait>(&self, update_due: bool, game: &mut G) -> (ret:
        (bool, bool))
        requires
            old(game).wf(),
        ensures
            final(game).wf(),
            ret.0 == self.stop,
            ret.1 == (!self.paused && update_due),
            final(game).board_view() == (if ret.1 {
                stepped::<G::GameRule>(old(game).board_view())
            } else {
                old(game).board_view()
            }),
    {
        let stepped = !self.paused && update_due;
        if stepped {
            game.step();
        }
        (self.stop, stepped)
    }
}

} // verus!
