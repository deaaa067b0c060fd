//! The screen that shows a QR code for the user to scan.

use crate::error::ClientError;
use crate::ui::loader::{Loader, QrCanvas};
use crate::ui::mailbox::{Mailbox, UiMsg};
use crate::ui::pool::{is_lowest_free, LogicImgPool, OpaqueImg};
use crate::ui::screen::{SCREEN_HEIGHT, SCREEN_WIDTH};
use vstd::prelude::*;

verus! {

/// Shows a QR code in the middle of the upper display, at twice its size.
pub struct QrScreen {
    qr_code: OpaqueImg,
    width: u16,
    height: u16,
}

/// Where the left or upper edge of a picture of `size` pixels lies that is
/// shown at twice its size in the middle of a display of `room` pixels.
pub open spec fn centered(room: u16, size: u16) -> int {
    room / 2 - size
}

impl QrScreen {
    /// The handle of the picture of the code.
    pub closed spec fn code(&self) -> OpaqueImg {
        self.qr_code
    }

    /// The width of the code, in modules.
    pub closed spec fn width(&self) -> u16 {
        self.width
    }

    /// The height of the code, in modules.
    pub closed spec fn height(&self) -> u16 {
        self.height
    }

    /// Asks the render thread to make the picture of the code on `canvas`
    /// and makes the screen for it. It fails if the canvas has a side of
    /// more than 65535 modules, or if no handle is left.
    pub fn new<S, K, W>(canvas: QrCanvas, pool: &mut LogicImgPool, mailbox: &mut Mailbox<S, K, W>) -> (
        result: Result<Self, ClientError>)
        ensures
            match result {
                Ok(screen) => {
                    &&& canvas.width() <= u16::MAX && canvas.height() <= u16::MAX
                    &&& screen.width() == canvas.width()
                    &&& screen.height() == canvas.height()
                    &&& is_lowest_free(old(pool).used(), screen.code().id())
                    &&& final(pool).used() == old(pool).used().insert(screen.code().id())
                    &&& final(mailbox)@ == old(mailbox)@.push(
                        UiMsg::LoadImage(screen.code().id(), Loader::Code(canvas)),
                    )
                },
                Err(ClientError::BadImage) => {
                    &&& canvas.width() > u16::MAX || canvas.height() > u16::MAX
                    &&& final(pool).used() == old(pool).used()
                    &&& final(mailbox)@ == old(mailbox)@
                },
                Err(ClientError::NoHandle) => {
                    &&& canvas.width() <= u16::MAX && canvas.height() <= u16::MAX
                    &&& forall|j: usize| j < usize::MAX ==> old(pool).used().contains(j)
                    &&& final(pool).used() == old(pool).used()
                    &&& final(mailbox)@ == old(mailbox)@
                },
                Err(_) => false,
            },
    {
        let width = canvas.get_width();
        let height = canvas.get_height();
        if width > 0xffff || height > 0xffff {
            return Err(ClientError::BadImage);
        }
        match pool.allocate(Loader::Code(canvas), mailbox) {
            Some(qr_code) => Ok(QrScreen { qr_code, width: width as u16, height: height as u16 }),
            None => Err(ClientError::NoHandle),
        }
    }

    /// Where the picture is drawn, at twice its size: in the middle of the
    /// upper display.
    pub fn position(&self) -> (at: (i32, i32))
        ensures
            at.0 == centered(SCREEN_WIDTH, self.width()),
            at.1 == centered(SCREEN_HEIGHT, self.height()),
    {
        ((SCREEN_WIDTH / 2) as i32 - self.width as i32, (SCREEN_HEIGHT / 2) as i32 - self.height as i32)
    }

    /// The handle of the picture of the code, to draw it.
    pub fn qr_code(&self) -> (code: &OpaqueImg)
        ensures
            *code == self.code(),
    {
        &self.qr_code
    }

    /// Gives up the screen and hands out the handle, which goes back to
    /// its pool.
    pub fn into_handle(self) -> (code: OpaqueImg)
        ensures
            code == self.code(),
    {
        self.qr_code
    }
}

} // verus!
