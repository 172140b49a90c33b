use cell_engine::cell::CellConway::{Alive, Dead};
use cell_engine::cell::CellConway;
use cell_engine::default_game_runner::{GameContext, Key, KeyAction, UserEvent};
use cell_engine::game::traits::CellGame as CellGameTrait;
use cell_engine::game::ConwaysGame;

fn interior(game: &ConwaysGame) -> Vec<CellConway> {
    game.get_board().iter().map(|cell| *cell).collect()
}

fn blinker() -> ConwaysGame {
    let mut game = <ConwaysGame as CellGameTrait>::new(3, 3, Dead);
    game.next_cell(0, 1);
    game.next_cell(1, 1);
    game.next_cell(2, 1);
    game
}

const ACROSS: [CellConway; 9] = [Dead, Dead, Dead, Alive, Alive, Alive, Dead, Dead, Dead];
const UPRIGHT: [CellConway; 9] = [Dead, Alive, Dead, Dead, Alive, Dead, Dead, Alive, Dead];

#[test]
fn new_context_runs() {
    let context = GameContext::new();
    assert_eq!(context.last_cell_stepped, None);
    assert!(!context.paused);
    assert!(!context.stop);
}

#[test]
fn step_cell_event_advances_a_cell_once() {
    let mut context = GameContext::new();
    let mut game = <ConwaysGame as CellGameTrait>::new(3, 3, Dead);
    assert!(context.on_user_event(UserEvent::StepCell { x: 2, y: 1 }, &mut game));
    assert_eq!(context.last_cell_stepped, Some((2, 1)));
    let mut expected = vec![Dead; 9];
    expected[5] = Alive;
    assert_eq!(interior(&game), expected);
    // The same cell again: nothing
    assert!(!context.on_user_event(UserEvent::StepCell { x: 2, y: 1 }, &mut game));
    assert_eq!(context.last_cell_stepped, Some((2, 1)));
    assert_eq!(interior(&game), expected);
    // Another cell
    assert!(context.on_user_event(UserEvent::StepCell { x: 1, y: 2 }, &mut game));
    assert_eq!(context.last_cell_stepped, Some((1, 2)));
    expected[7] = Alive;
    assert_eq!(interior(&game), expected);
    // Back to the first
    assert!(context.on_user_event(UserEvent::StepCell { x: 2, y: 1 }, &mut game));
    expected[5] = Dead;
    assert_eq!(interior(&game), expected);
    assert!(!context.on_user_event(UserEvent::CloseGame, &mut game));
    assert_eq!(context.last_cell_stepped, Some((2, 1)));
    assert_eq!(interior(&game), expected);
    assert!(!context.paused);
    assert!(!context.stop);
}

#[test]
fn pointer_posts_an_event_while_its_button_is_held() {
    let mut context = GameContext::new();
    let mut game = <ConwaysGame as CellGameTrait>::new(3, 3, Dead);
    assert_eq!(
        context.on_mouse_state_updated(true, 1, 2),
        Some(UserEvent::StepCell { x: 1, y: 2 })
    );
    assert_eq!(context.last_cell_stepped, None);
    assert!(context.on_user_event(UserEvent::StepCell { x: 1, y: 2 }, &mut game));
    assert_eq!(
        context.on_mouse_state_updated(true, 1, 2),
        Some(UserEvent::StepCell { x: 1, y: 2 })
    );
    assert_eq!(context.last_cell_stepped, Some((1, 2)));
    assert!(!context.on_user_event(UserEvent::StepCell { x: 1, y: 2 }, &mut game));
    // Releasing the button forgets the cell, so a new press advances it again
    assert_eq!(context.on_mouse_state_updated(false, 1, 2), None);
    assert_eq!(context.last_cell_stepped, None);
    assert!(context.on_user_event(UserEvent::StepCell { x: 1, y: 2 }, &mut game));
    assert_eq!(interior(&game), vec![Dead; 9]);
}

#[test]
fn keys_by_what_they_do() {
    let mut context = GameContext::new();
    let mut game = blinker();
    let actions = [
        (Key::P, false, KeyAction::Nothing),
        (Key::P, true, KeyAction::Nothing),
        (Key::PageUp, false, KeyAction::ShortenUpdateTime),
        (Key::PageUp, true, KeyAction::RaiseDecay),
        (Key::PageDown, false, KeyAction::LengthenUpdateTime),
        (Key::PageDown, true, KeyAction::LowerDecay),
        (Key::Other, false, KeyAction::Nothing),
        (Key::Other, true, KeyAction::Nothing),
    ];
    for (key, shift, action) in actions {
        // A released key does nothing at all
        assert_eq!(context.on_keyboard_input(false, key, shift, &mut game), KeyAction::Nothing);
        assert!(!context.paused);
        assert!(!context.stop);
        let paused = context.paused;
        assert_eq!(context.on_keyboard_input(true, key, shift, &mut game), action);
        assert_eq!(context.paused, paused != (key == Key::P));
        if key == Key::P {
            context.on_keyboard_input(true, key, shift, &mut game);
        }
        assert!(!context.stop);
        assert_eq!(interior(&game), ACROSS.to_vec());
    }
}

#[test]
fn space_steps_the_game_even_when_paused() {
    let mut context = GameContext::new();
    let mut game = blinker();
    assert_eq!(context.on_keyboard_input(false, Key::Space, false, &mut game), KeyAction::Nothing);
    assert_eq!(interior(&game), ACROSS.to_vec());
    assert_eq!(context.on_keyboard_input(true, Key::Space, false, &mut game), KeyAction::Redraw);
    assert_eq!(interior(&game), UPRIGHT.to_vec());
    context.on_keyboard_input(true, Key::P, false, &mut game);
    assert!(context.paused);
    assert_eq!(context.on_keyboard_input(true, Key::Space, true, &mut game), KeyAction::Redraw);
    assert_eq!(interior(&game), ACROSS.to_vec());
    assert!(context.paused);
}

#[test]
fn escape_stops_the_loop() {
    let mut context = GameContext::new();
    let mut game = blinker();
    assert_eq!(context.on_main_events_cleared(false, &mut game), (false, false));
    assert_eq!(context.on_keyboard_input(false, Key::Escape, false, &mut game), KeyAction::Nothing);
    assert!(!context.stop);
    assert_eq!(context.on_keyboard_input(true, Key::Escape, false, &mut game), KeyAction::Nothing);
    assert!(context.stop);
    assert_eq!(context.on_main_events_cleared(false, &mut game), (true, false));
    context.on_keyboard_input(true, Key::P, false, &mut game);
    assert!(context.stop);
    assert_eq!(interior(&game), ACROSS.to_vec());
}

#[test]
fn game_moves_on_when_an_update_is_due_and_it_is_not_paused() {
    let mut context = GameContext::new();
    let mut game = blinker();
    assert_eq!(context.on_main_events_cleared(false, &mut game), (false, false));
    assert_eq!(interior(&game), ACROSS.to_vec());
    assert_eq!(context.on_main_events_cleared(true, &mut game), (false, true));
    assert_eq!(interior(&game), UPRIGHT.to_vec());
    context.on_keyboard_input(true, Key::P, false, &mut game);
    assert_eq!(context.on_main_events_cleared(true, &mut game), (false, false));
    assert_eq!(context.on_main_events_cleared(false, &mut game), (false, false));
    assert_eq!(interior(&game), UPRIGHT.to_vec());
    context.on_keyboard_input(true, Key::P, false, &mut game);
    assert_eq!(context.on_main_events_cleared(true, &mut game), (false, true));
    assert_eq!(interior(&game), ACROSS.to_vec());
}
