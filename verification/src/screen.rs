//! The screens of the game and the moves between them that the menus ask for.

use vstd::prelude::*;

verus! {

/// The game's main screen states.
#[derive(Clone, Copy, Debug, PartialEq, Eq, Hash, Structural)]
pub enum Screen {
    Splash,
    Loading,
    Title,
    Credits,
    Playing,
    Hell,
    Win,
}

impl Default for Screen {
    /// The game opens on the splash screen.
    fn default() -> (screen: Screen)
        ensures
            screen == Screen::Splash,
    {
        Screen::Splash
    }
}

/// The buttons of the screen shown after the player was caught.
#[derive(Clone, Copy, Debug, PartialEq, Eq, Structural)]
pub enum HellAction {
    Back,
}

/// The buttons of the screen shown after the player escaped.
#[derive(Clone, Copy, Debug, PartialEq, Eq, Structural)]
pub enum WinAction {
    Back,
}

/// The screen that a button of the hell screen leads to, if it is pressed:
/// the way back from hell is another attempt.
pub fn handle_hell_action(pressed: bool, action: HellAction) -> (next: Option<Screen>)
    ensures
        pressed ==> next == Some(Screen::Playing),
        !pressed ==> next.is_none(),
{
    if pressed {
        match action {
            HellAction::Back => Some(Screen::Playing),
        }
    } else {
        None
    }
}

/// The screen that a button of the win screen leads to, if it is pressed:
/// the way back from heaven is the title.
pub fn handle_win_action(pressed: bool, action: WinAction) -> (next: Option<Screen>)
    ensures
        pressed ==> next == Some(Screen::Title),
        !pressed ==> next.is_none(),
{
    if pressed {
        match action {
            WinAction::Back => Some(Screen::Title),
        }
    } else {
        None
    }
}

} // verus!
