//! What the render thread owns, and what the logic thread sends to it.

pub mod citro2d;
pub mod decode;
pub mod glyph_cache;
pub mod id_set;
pub mod kbd;
pub mod layout;
pub mod line_break;
pub mod loader;
pub mod mailbox;
pub mod pool;
pub mod screen;
pub mod text;
pub mod texture;
pub mod web_image;

use crate::ui::citro2d::{fit, TexDimError, TEX_DIM_MAX};
use crate::ui::layout::Scale;
use crate::ui::loader::{ImageLoader, Loader};
use crate::ui::mailbox::{frame_batch, frame_len, frame_running, Mailbox, UiMsg};
use crate::ui::text::TextRenderer;
use crate::ui::texture::Image;
use std::collections::HashMap;
use vstd::prelude::*;

verus! {

broadcast use vstd::std_specs::hash::group_hash_axioms;

/// What the render thread has to do for a message, outside of what this
/// library keeps.
pub enum Action<S, K, W> {
    /// Nothing.
    Nothing,
    /// Let go of the screen that was shown until now: another one has
    /// taken its place.
    Closed(S),
    /// Copy the picture to the GPU. If that succeeds, hand what the GPU
    /// gave to `Ui::bind` under the number.
    Upload(usize, Image),
    /// Report that a picture could not be made. No picture is kept under
    /// its number, and drawing it shows nothing.
    LoadFailed(TexDimError),
    /// Let go of the picture with the number, with `Ui::unbind`.
    Unload(usize),
    /// Open the keyboard and send what was typed to `reply`.
    Keyboard { hint: &'static str, restrict: bool, blank_allowed: bool, reply: K },
    /// Wrap the text with the text renderer and send the lines to `tx`.
    WordWrap { text: String, width: u32, scale: Scale, tx: W },
}

/// `action` is what is to be done for `msg` while `shown` is the screen
/// that is shown. A picture to load has been made, in the smallest texture
/// that holds it, unless it is too large.
pub open spec fn acts<S, K, W>(shown: S, msg: UiMsg<S, K, W>, action: Action<S, K, W>) -> bool {
    match msg {
        UiMsg::LoadImage(id, loader) => if loader.spec_width() <= TEX_DIM_MAX
            && loader.spec_height() <= TEX_DIM_MAX {
            action matches Action::Upload(number, image) && number == id && image.spec_width()
                == loader.spec_width() && image.spec_height() == loader.spec_height()
                && image.spec_texture().wf() && image.spec_texture().spec_width() == fit(
                loader.spec_width(),
            ) && image.spec_texture().spec_height() == fit(loader.spec_height())
                && image.spec_texture().spec_format() == loader.spec_format()
                && !image.spec_texture().spec_filter() && image.spec_texture().bytes()
                == loader.texture_bytes()
        } else {
            action is LoadFailed
        },
        UiMsg::UnloadImage(id) => action == Action::<S, K, W>::Unload(id),
        UiMsg::SetScreen(_) => action == Action::<S, K, W>::Closed(shown),
        UiMsg::Flush => action is Nothing,
        UiMsg::Quit => action is Nothing,
        UiMsg::Keyboard { hint, restrict, blank_allowed, reply } => action == (Action::<
            S,
            K,
            W,
        >::Keyboard { hint, restrict, blank_allowed, reply }),
        UiMsg::WordWrap { text, width, scale, tx } => action == (Action::<S, K, W>::WordWrap {
            text,
            width,
            scale,
            tx,
        }),
    }
}

/// The screen that is shown after the messages of `batch`: the one of the
/// last message that sets a screen, or else the one shown before.
pub open spec fn screen_after<S, K, W>(screen: S, batch: Seq<UiMsg<S, K, W>>) -> S
    decreases batch.len(),
{
    if batch.len() == 0 {
        screen
    } else {
        match batch.last() {
            UiMsg::SetScreen(next) => next,
            _ => screen_after(screen, batch.drop_last()),
        }
    }
}

/// What the render thread owns: the pictures on the GPU by their numbers,
/// the screen that is shown, and the text renderer. `I` is a picture on
/// the GPU and `S` a screen.
pub struct Ui<I, S> {
    pool: HashMap<usize, I>,
    screen: S,
    text_renderer: TextRenderer,
}

impl<I, S> Ui<I, S> {
    /// The pictures on the GPU, by their numbers.
    pub closed spec fn pictures(&self) -> Map<usize, I> {
        self.pool@
    }

    /// The screen that is shown.
    pub closed spec fn shown(&self) -> S {
        self.screen
    }

    /// The text renderer.
    pub closed spec fn renderer(&self) -> TextRenderer {
        self.text_renderer
    }

    /// A render thread that shows `screen` and holds no picture.
    pub fn new(screen: S, text_renderer: TextRenderer) -> (ui: Self)
        ensures
            ui.pictures() == Map::<usize, I>::empty(),
            ui.shown() == screen,
            ui.renderer() == text_renderer,
    {
        Ui { pool: HashMap::new(), screen, text_renderer }
    }

    /// Takes in one message and says what is left to do for it.
    ///
    /// A picture to load is made here, and is to be copied to the GPU. A
    /// new screen takes the place of the old one at once, and the old one
    /// is handed out. What touches the GPU, the keyboard or the font is
    /// left to the caller.
    pub fn apply<K, W>(&mut self, msg: UiMsg<S, K, W>) -> (action: Action<S, K, W>)
        ensures
            acts(old(self).shown(), msg, action),
            final(self).shown() == screen_after(old(self).shown(), seq![msg]),
            final(self).pictures() == old(self).pictures(),
            final(self).renderer() == old(self).renderer(),
    {
        proof {
            let none = Seq::<UiMsg<S, K, W>>::empty();
            assert(seq![msg].drop_last() =~= none);
            assert(seq![msg].last() == msg);
            assert(screen_after(self.shown(), none) == self.shown());
        }
        match msg {
            UiMsg::LoadImage(id, loader) => match loader.load() {
                Ok(image) => Action::Upload(id, image),
                Err(e) => Action::LoadFailed(e),
            },
            UiMsg::UnloadImage(id) => Action::Unload(id),
            UiMsg::SetScreen(screen) => {
                let mut screen = screen;
                std::mem::swap(&mut self.screen, &mut screen);
                Action::Closed(screen)
            },
            UiMsg::Flush => Action::Nothing,
            UiMsg::Quit => Action::Nothing,
            UiMsg::Keyboard { hint, restrict, blank_allowed, reply } => Action::Keyboard {
                hint,
                restrict,
                blank_allowed,
                reply,
            },
            UiMsg::WordWrap { text, width, scale, tx } => Action::WordWrap {
                text,
                width,
                scale,
                tx,
            },
        }
    }

    /// Takes the messages of one frame out of the mailbox, in the order in
    /// which they were sent, up to the first `Flush` or `Quit`, and takes
    /// each of them in. The result is what is left to do for each message,
    /// to be done in this order before the frame is drawn, and whether the
    /// program goes on: it does unless the frame was ended by `Quit`. The
    /// screens that were replaced are handed out and not let go of here.
    pub fn iteration<K, W>(&mut self, mailbox: &mut Mailbox<S, K, W>) -> (frame: (
        Vec<Action<S, K, W>>,
        bool,
    ))
        ensures
            final(mailbox)@ == old(mailbox)@.skip(frame_len(old(mailbox)@) as int),
            frame.1 == frame_running(old(mailbox)@),
            frame.0@.len() == frame_batch(old(mailbox)@).len(),
            forall|i: int|
                0 <= i < frame.0@.len() ==> acts(
                    screen_after(old(self).shown(), frame_batch(old(mailbox)@).take(i)),
                    frame_batch(old(mailbox)@)[i],
                    #[trigger] frame.0@[i],
                ),
            final(self).shown() == screen_after(old(self).shown(), frame_batch(old(mailbox)@)),
            final(self).pictures() == old(self).pictures(),
            final(self).renderer() == old(self).renderer(),
    {
        let (batch, running) = mailbox.drain_once();
        let ghost all = batch@;
        let mut batch = batch;
        let mut actions: Vec<Action<S, K, W>> = Vec::new();
        assert(all.take(0) =~= Seq::<UiMsg<S, K, W>>::empty());
        while batch.len() > 0
            invariant
                batch@.len() <= all.len(),
                batch@ == all.skip(all.len() - batch@.len()),
                actions@.len() == all.len() - batch@.len(),
                forall|i: int|
                    0 <= i < actions@.len() ==> acts(
                        screen_after(old(self).shown(), all.take(i)),
                        all[i],
                        #[trigger] actions@[i],
                    ),
                self.shown() == screen_after(old(self).shown(), all.take(actions@.len() as int)),
                self.pictures() == old(self).pictures(),
                self.renderer() == old(self).renderer(),
            decreases batch@.len(),
        {
            let ghost done = actions@.len() as int;
            let ghost before = self.shown();
            let msg = batch.remove(0);
            assert(msg == all[done]);
            assert(batch@ =~= all.skip(done + 1));
            let action = self.apply(msg);
            actions.push(action);
            proof {
                assert(all.take(done + 1).drop_last() =~= all.take(done));
                assert(all.take(done + 1).last() == msg);
                let none = Seq::<UiMsg<S, K, W>>::empty();
                assert(seq![msg].last() == msg);
                assert(seq![msg].drop_last() =~= none);
                assert(screen_after(before, none) == before);
            }
        }
        assert(all.take(all.len() as int) =~= all);
        (actions, running)
    }

    /// Keeps a picture that the GPU has made under the number `id`, in
    /// place of the one kept there before.
    pub fn bind(&mut self, id: usize, image: I)
        ensures
            final(self).pictures() == old(self).pictures().insert(id, image),
            final(self).shown() == old(self).shown(),
            final(self).renderer() == old(self).renderer(),
    {
        let _ = self.pool.insert(id, image);
    }

    /// Lets go of the picture that is kept under the number `id`, if there
    /// is one, and hands it out.
    pub fn unbind(&mut self, id: usize) -> (image: Option<I>)
        ensures
            final(self).pictures() == old(self).pictures().remove(id),
            final(self).shown() == old(self).shown(),
            final(self).renderer() == old(self).renderer(),
            match image {
                Some(found) => old(self).pictures().contains_key(id) && found
                    == old(self).pictures()[id],
                None => !old(self).pictures().contains_key(id),
            },
    {
        self.pool.remove(&id)
    }

    /// The picture that is kept under the number `id`, to draw it. There is
    /// none before the picture was made, after it was unloaded, or if it
    /// could not be made: then nothing is drawn.
    pub fn picture(&self, id: usize) -> (image: Option<&I>)
        ensures
            match image {
                Some(found) => self.pictures().contains_key(id) && *found == self.pictures()[id],
                None => !self.pictures().contains_key(id),
            },
    {
        self.pool.get(&id)
    }

    /// The screen that is shown.
    pub fn screen(&self) -> (screen: &S)
        ensures
            *screen == self.shown(),
    {
        &self.screen
    }

    /// The screen that is shown, to update it.
    pub fn screen_mut(&mut self) -> (screen: &mut S)
        ensures
            *screen == old(self).shown(),
            final(self).shown() == *final(screen),
            final(self).pictures() == old(self).pictures(),
            final(self).renderer() == old(self).renderer(),
    {
        &mut self.screen
    }

    /// The text renderer, to measure and to draw text.
    pub fn text_renderer(&mut self) -> (renderer: &mut TextRenderer)
        ensures
            *renderer == old(self).renderer(),
            final(self).renderer() == *final(renderer),
            final(self).pictures() == old(self).pictures(),
            final(self).shown() == old(self).shown(),
    {
        &mut self.text_renderer
    }
}

/// Asks the render thread for a line of input: the answer comes by way of
/// `reply`, once the render thread has handled the message.
pub fn get_input<S, K, W>(
    mailbox: &mut Mailbox<S, K, W>,
    hint: &'static str,
    restrict: bool,
    blank_allowed: bool,
    reply: K,
)
    ensures
        final(mailbox)@ == old(mailbox)@.push(
            UiMsg::Keyboard { hint, restrict, blank_allowed, reply },
        ),
{
    mailbox.send(UiMsg::Keyboard { hint, restrict, blank_allowed, reply });
}

} // verus!
