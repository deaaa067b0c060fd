//! What can go wrong.

use crate::net::curl::{CurlError, NulError};
use crate::net::retriever::HttpError;
use crate::ui::kbd::KeyboardError;
use vstd::prelude::*;

verus! {

/// An error of the client.
pub enum ClientError {
    /// A text for the transport has a NUL character in it.
    Nul(NulError),
    /// A URL could not be parsed.
    Url(url::ParseError),
    /// The transport failed: no connection, no name, no TLS.
    Curl(CurlError),
    /// The server answered with a status that is no success.
    Http(HttpError),
    /// The bytes of a picture could not be decoded, or the picture is
    /// larger than is taken.
    Image(image::ImageError),
    /// The bytes are a picture of a format that is not taken.
    Format,
    /// A picture cannot be shown: it has no pixels, float samples, a side
    /// that is longer than was asked for or than 65535 pixels, or other
    /// pixels than its size asks for.
    BadImage,
    /// Every handle for a picture is out.
    NoHandle,
    /// The markup of a status could not be read.
    Markup(quick_xml::Error),
    /// The instance did not say how the application is to name itself.
    MissingAuth,
    /// The instance does not take the token.
    Unauthorized,
    /// The user gave no input.
    Keyboard(KeyboardError),
}

} // verus!
