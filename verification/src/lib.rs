//! The core of a small social-network client for a handheld console: the
//! message queue between the logic thread and the render thread, the serial
//! network request queue, the image cache with its handle pool, the texture
//! layout, and the text layout engine.
//!
//! Everything here is sequential and owns no thread, socket or GPU object.
//! The program around it holds each of these values behind its own lock and
//! performs the input and output that they ask for.

pub mod error;
pub mod net;
pub mod types;
pub mod ui;
