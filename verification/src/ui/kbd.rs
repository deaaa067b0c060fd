//! The keyboard: how it is set up for a question, and what its answer
//! means.

use vstd::prelude::*;

verus! {

/// Why the keyboard gave no text.
#[derive(Clone, Copy, Debug, PartialEq, Eq, Structural)]
pub enum SwkbdError {
    InvalidInput,
    OutOfMem,
    HomePressed,
    ResetPressed,
    PowerPressed,
    ParentalOk,
    ParentalFail,
    BannedInput,
}

/// No line of input was had: the keyboard failed, or, with `None`, the
/// user cancelled.
#[derive(Clone, Copy, Debug, PartialEq, Eq, Structural)]
pub struct KeyboardError(pub Option<SwkbdError>);

/// Whether the keyboard can fail in this way as this library sets it up:
/// it never asks for parental controls and bans no input.
pub open spec fn can_happen(error: KeyboardError) -> bool {
    !(error.0 matches Some(e) && (e is ParentalOk || e is ParentalFail || e is BannedInput))
}

/// The text shown for an error of the keyboard.
pub open spec fn keyboard_error_text(error: KeyboardError) -> Seq<char> {
    match error.0 {
        Some(SwkbdError::InvalidInput) => "Invalid input"@,
        Some(SwkbdError::OutOfMem) => "Out of memory"@,
        Some(SwkbdError::HomePressed) => "Home button pressed"@,
        Some(SwkbdError::ResetPressed) => "Console reset"@,
        Some(SwkbdError::PowerPressed) => "Power button pressed"@,
        Some(_) => Seq::empty(),
        None => "Input cancelled"@,
    }
}

impl KeyboardError {
    /// The text shown for this error.
    pub fn to_string(&self) -> (text: String)
        requires
            can_happen(*self),
        ensures
            text@ == keyboard_error_text(*self),
    {
        match self.0 {
            Some(SwkbdError::InvalidInput) => "Invalid input".to_owned(),
            Some(SwkbdError::OutOfMem) => "Out of memory".to_owned(),
            Some(SwkbdError::HomePressed) => "Home button pressed".to_owned(),
            Some(SwkbdError::ResetPressed) => "Console reset".to_owned(),
            Some(SwkbdError::PowerPressed) => "Power button pressed".to_owned(),
            Some(_) => String::new(),
            None => "Input cancelled".to_owned(),
        }
    }
}

/// The button with which the keyboard was closed.
#[derive(Clone, Copy, Debug, PartialEq, Eq, Structural)]
pub enum Button {
    Left,
    Middle,
    Right,
}

/// Which text the keyboard accepts.
#[derive(Clone, Copy, Debug, PartialEq, Eq, Structural)]
pub enum ValidInput {
    Anything,
    NotEmptyNotBlank,
}

/// How the keyboard is set up for a question.
#[derive(Clone, Copy, Debug, PartialEq, Eq, Structural)]
pub struct KeyboardSetup {
    /// Only the keys of a QWERTY keyboard, where all keys are shown
    /// otherwise.
    pub qwerty: bool,
    /// How many buttons close the keyboard.
    pub buttons: u8,
    /// Whether the text may have more than one line.
    pub multiline: bool,
    /// Whether the home, reset and power buttons close the keyboard.
    pub allow_home: bool,
    pub allow_reset: bool,
    pub allow_power: bool,
    /// Which text is accepted.
    pub valid_input: ValidInput,
}

/// The setup of the keyboard for a question. A restricted question is
/// answered on the QWERTY keys in one line; any other on all keys, in as
/// many lines as it takes. An answer that is empty or blank is taken only
/// where a blank is allowed.
pub fn keyboard_setup(restrict: bool, blank_allowed: bool) -> (setup: KeyboardSetup)
    ensures
        setup == (KeyboardSetup {
            qwerty: restrict,
            buttons: 1,
            multiline: !restrict,
            allow_home: true,
            allow_reset: true,
            allow_power: true,
            valid_input: if blank_allowed {
                ValidInput::Anything
            } else {
                ValidInput::NotEmptyNotBlank
            },
        }),
{
    KeyboardSetup {
        qwerty: restrict,
        buttons: 1,
        multiline: !restrict,
        allow_home: true,
        allow_reset: true,
        allow_power: true,
        valid_input: if blank_allowed {
            ValidInput::Anything
        } else {
            ValidInput::NotEmptyNotBlank
        },
    }
}

/// What the keyboard's answer comes to: the text, unless the keyboard
/// failed or was closed with the left button, which cancels.
pub fn get_input(outcome: Result<Button, SwkbdError>, text: String) -> (result: Result<
    String,
    KeyboardError,
>)
    ensures
        match outcome {
            Ok(Button::Left) => result == Err::<String, KeyboardError>(KeyboardError(None)),
            Ok(_) => result == Ok::<String, KeyboardError>(text),
            Err(e) => result == Err::<String, KeyboardError>(KeyboardError(Some(e))),
        },
{
    match outcome {
        Ok(Button::Left) => Err(KeyboardError(None)),
        Ok(_) => Ok(text),
        Err(e) => Err(KeyboardError(Some(e))),
    }
}

} // verus!
