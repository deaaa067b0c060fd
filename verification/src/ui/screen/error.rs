//! The screen that shows an error until the user has seen it.

use crate::ui::citro2d::color32;
use crate::ui::layout::Scale;
use crate::ui::mailbox::{Mailbox, UiMsg};
use crate::ui::text::TextLines;
use vstd::prelude::*;

verus! {

/// The width at which the message is wrapped, in pixels.
pub const MESSAGE_WIDTH: u32 = 360;

/// Shows a message. It asks to be closed when START is pressed.
pub struct ErrorScreen {
    message: TextLines,
}

impl ErrorScreen {
    /// The lines of the message.
    pub closed spec fn message(&self) -> TextLines {
        self.message
    }

    /// Asks the render thread to wrap `message` for the screen, at half
    /// size. The lines come by way of `tx`; the screen is made of them
    /// with `show`.
    pub fn new<S, K, W>(message: String, mailbox: &mut Mailbox<S, K, W>, tx: W)
        ensures
            final(mailbox)@ == old(mailbox)@.push(
                UiMsg::WordWrap {
                    text: message,
                    width: MESSAGE_WIDTH,
                    scale: Scale { num: 1, den: 2 },
                    tx,
                },
            ),
    {
        mailbox.send(
            UiMsg::WordWrap {
                text: message,
                width: MESSAGE_WIDTH,
                scale: Scale { num: 1, den: 2 },
                tx,
            },
        );
    }

    /// The screen that shows the wrapped message.
    pub fn show(message: TextLines) -> (screen: Self)
        ensures
            screen.message() == message,
    {
        ErrorScreen { message }
    }

    /// Whether the screen asks to be closed: it does when START is
    /// pressed.
    pub fn update(&mut self, start_pressed: bool) -> (close: bool)
        ensures
            close == start_pressed,
            final(self).message() == old(self).message(),
    {
        start_pressed
    }

    /// The lines of the message, to draw them.
    pub fn lines(&self) -> (lines: &TextLines)
        ensures
            *lines == self.message(),
    {
        &self.message
    }

    /// The colour of the message: a light red.
    pub fn color() -> (color: u32)
        ensures
            color == 0xff5555ffu32,
    {
        color32(255, 85, 85, 255)
    }
}

} // verus!
