//! The screens: what each of them keeps, and how it answers to the keys.

pub mod error;
pub mod markup;
pub mod qr;
pub mod timeline;

use vstd::prelude::*;

verus! {

/// The width of the upper display, in pixels.
pub const SCREEN_WIDTH: u16 = 400;

/// The height of the upper display, in pixels.
pub const SCREEN_HEIGHT: u16 = 240;

/// A screen that shows nothing.
pub struct EmptyScreen;

} // verus!
