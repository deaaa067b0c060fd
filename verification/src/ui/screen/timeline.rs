//! The screen that shows the home timeline.

use crate::error::ClientError;
use crate::types::Status;
use crate::ui::layout::Scale;
use crate::ui::mailbox::{Mailbox, UiMsg};
use crate::ui::screen::markup::{
    end_name, markup_pieces, pending, piece_of, read_event, reader_for, tag_name, unescape_text,
    unescaped, Markup, Piece,
};
use crate::ui::text::TextLines;
use crate::ui::web_image::CachedImage;
use vstd::prelude::*;
use vstd::string::StringExecFns;

verus! {

/// The width at which the text of a status is wrapped, in pixels.
pub const CONTENT_WIDTH: u32 = 360;

/// Whether the end of the element with the given name ends a line: the end
/// of a paragraph does, and that of a line break.
pub open spec fn breaks_line(name: Seq<u8>) -> bool {
    name == seq![0x70u8] || name == seq![0x62u8, 0x72u8]
}

/// Whether the end of the element with the given name ends a line.
pub fn ends_line(name: &Vec<u8>) -> (ends: bool)
    ensures
        ends == breaks_line(name@),
{
    if name.len() == 1 {
        let ends = name[0] == 0x70;
        assert(ends ==> name@ =~= seq![0x70u8]);
        assert(!ends ==> name@ != seq![0x70u8]) by {
            if name@ == seq![0x70u8] {
                assert(name@[0] == seq![0x70u8][0]);
            }
        }
        ends
    } else if name.len() == 2 {
        let ends = name[0] == 0x62 && name[1] == 0x72;
        assert(ends ==> name@ =~= seq![0x62u8, 0x72u8]);
        assert(!ends ==> name@ != seq![0x62u8, 0x72u8]) by {
            if name@ == seq![0x62u8, 0x72u8] {
                assert(name@[0] == seq![0x62u8, 0x72u8][0]);
                assert(name@[1] == seq![0x62u8, 0x72u8][1]);
            }
        }
        ends
    } else {
        false
    }
}

/// The text of a piece of markup: a line feed for the end of a paragraph
/// or of a line break, the text between tags with its escapes resolved,
/// and nothing for anything else. There is none where the markup cannot
/// be read, or for a text with an escape that is not known.
pub open spec fn piece_text(piece: Piece) -> Option<Seq<char>> {
    match piece {
        Piece::End(name) => if breaks_line(name) {
            Some(seq!['\n'])
        } else {
            Some(Seq::empty())
        },
        Piece::Text(text) => text,
        Piece::Other => Some(Seq::empty()),
        Piece::Broken => None,
    }
}

/// The text of pieces of markup, one after the other. There is none if
/// one of the pieces has none.
pub open spec fn pieces_text(pieces: Seq<Piece>) -> Option<Seq<char>>
    decreases pieces.len(),
{
    if pieces.len() == 0 {
        Some(Seq::empty())
    } else {
        match (piece_text(pieces[0]), pieces_text(pieces.skip(1))) {
            (Some(first), Some(rest)) => Some(first + rest),
            _ => None,
        }
    }
}

/// The text of markup: the text between the tags, with a line feed after
/// each paragraph and each line break. End tags need not match their
/// start tags.
pub open spec fn html_text(html: Seq<char>) -> Option<Seq<char>> {
    pieces_text(markup_pieces(html, false))
}

/// The text of a piece of markup.
pub fn markup_text(piece: &Markup<'_>) -> (text: Result<String, ClientError>)
    ensures
        match piece_text(piece_of(*piece)) {
            Some(plain) => text matches Ok(t) && t@ == plain,
            None => text matches Err(ClientError::Markup(_)),
        },
{
    match piece {
        Markup::End(end) => {
            let name = end_name(end);
            if ends_line(&name) {
                proof {
                    reveal_strlit("\n");
                }
                let t = "\n".to_owned();
                assert(t@ =~= seq!['\n']);
                Ok(t)
            } else {
                Ok(String::new())
            }
        },
        Markup::Text(escaped) => match unescape_text(escaped) {
            Ok(plain) => Ok(plain),
            Err(e) => Err(ClientError::Markup(e)),
        },
        _ => Ok(String::new()),
    }
}

/// `done`, and behind it the text of what is left, if that has a text.
pub open spec fn with_rest(done: Seq<char>, rest: Option<Seq<char>>) -> Option<Seq<char>> {
    match rest {
        Some(text) => Some(done + text),
        None => None,
    }
}

/// The text of a status, without its markup. It fails if the markup
/// cannot be read.
pub fn parse_html(html: &str) -> (text: Result<String, ClientError>)
    ensures
        match html_text(html@) {
            Some(plain) => text matches Ok(t) && t@ == plain,
            None => text matches Err(ClientError::Markup(_)),
        },
{
    let mut reader = reader_for(html, false);
    let mut result = String::new();
    let ghost all = html_text(html@);
    assert(with_rest(result@, pieces_text(pending(reader))) == all) by {
        if let Some(text) = pieces_text(pending(reader)) {
            assert(result@ + text =~= text);
        }
    }
    loop
        invariant
            all == html_text(html@),
            with_rest(result@, pieces_text(pending(reader))) == all,
        decreases pending(reader).len(),
    {
        let ghost left = pending(reader);
        let ghost done = result@;
        let piece = match read_event(&mut reader) {
            Ok(piece) => piece,
            Err(e) => {
                return Err(ClientError::Markup(e));
            },
        };
        if let Markup::Eof = piece {
            assert(done + Seq::<char>::empty() =~= done);
            return Ok(result);
        }
        match markup_text(&piece) {
            Ok(t) => {
                result.append(t.as_str());
                proof {
                    if let Some(rest) = pieces_text(left.skip(1)) {
                        assert(done + (t@ + rest) =~= (done + t@) + rest);
                    }
                }
            },
            Err(e) => {
                return Err(e);
            },
        }
    }
}

/// What is shown of a status: who it is from, and its text without
/// markup.
pub open spec fn status_content(display_name: Seq<char>, text: Seq<char>) -> Seq<char> {
    "from "@ + display_name + seq!['\n'] + text + seq!['\n']
}

/// What is shown of a status.
pub fn status_text(display_name: &str, text: &str) -> (content: String)
    ensures
        content@ == status_content(display_name@, text@),
{
    proof {
        reveal_strlit("\n");
    }
    assert("\n"@ =~= seq!['\n']);
    let mut content = "from ".to_owned();
    content.append(display_name);
    content.append("\n");
    content.append(text);
    content.append("\n");
    content
}

/// The avatars of the authors of `statuses`, as wishes for the cache:
/// each at no more than `AVATAR_SIZE` pixels a side.
pub open spec fn avatar_wishes(statuses: Seq<Status>) -> Seq<(Seq<char>, Option<u16>)> {
    statuses.map_values(|status: Status| (status.account.avatar_static@, Some(AVATAR_SIZE)))
}

/// What a wish for the cache holds.
pub open spec fn wish_view(wish: (String, Option<u16>)) -> (Seq<char>, Option<u16>) {
    (wish.0@, wish.1)
}

/// The avatars of the authors of `statuses`, as wishes for the cache.
pub fn avatars(statuses: &Vec<Status>) -> (wishes: Vec<(String, Option<u16>)>)
    ensures
        wishes@.map_values(|wish: (String, Option<u16>)| wish_view(wish)) == avatar_wishes(
            statuses@,
        ),
{
    let mut wishes: Vec<(String, Option<u16>)> = Vec::new();
    let mut i: usize = 0;
    while i < statuses.len()
        invariant
            i <= statuses@.len(),
            wishes@.len() == i,
            forall|k: int|
                0 <= k < i ==> wish_view(#[trigger] wishes@[k]) == avatar_wishes(statuses@)[k],
        decreases statuses@.len() - i,
    {
        wishes.push((statuses[i].account.avatar_static.clone(), Some(AVATAR_SIZE)));
        i = i + 1;
    }
    assert(wishes@.map_values(|wish: (String, Option<u16>)| wish_view(wish)) =~= avatar_wishes(
        statuses@,
    ));
    wishes
}

/// Asks the render thread to wrap the text of a status, at half size. The
/// lines come by way of `tx`. It fails, and sends nothing, if the markup
/// of the status cannot be read.
pub fn wrap_status<S, K, W>(
    display_name: &str,
    content: &str,
    mailbox: &mut Mailbox<S, K, W>,
    tx: W,
) -> (result: Result<(), ClientError>)
    ensures
        match html_text(content@) {
            Some(plain) => {
                &&& result is Ok
                &&& final(mailbox)@.len() == old(mailbox)@.len() + 1
                &&& final(mailbox)@.drop_last() == old(mailbox)@
                &&& final(mailbox)@.last() matches UiMsg::WordWrap { text, width, scale, tx: way }
                    && text@ == status_content(display_name@, plain) && width == CONTENT_WIDTH
                    && scale == (Scale { num: 1, den: 2 }) && way == tx
            },
            None => {
                &&& result matches Err(ClientError::Markup(_))
                &&& final(mailbox)@ == old(mailbox)@
            },
        },
{
    let text = match parse_html(content) {
        Ok(text) => text,
        Err(e) => {
            return Err(e);
        },
    };
    let shown = status_text(display_name, text.as_str());
    mailbox.send(
        UiMsg::WordWrap { text: shown, width: CONTENT_WIDTH, scale: Scale { num: 1, den: 2 }, tx },
    );
    assert(final(mailbox)@.drop_last() =~= old(mailbox)@);
    Ok(())
}

/// The side of an avatar on the screen, in pixels.
pub const AVATAR_SIZE: u16 = 32;

/// How far a key scrolls in one frame, in pixels.
pub const SCROLL_STEP: u32 = 4;

/// A status as it is shown: the picture of its author, and its text.
pub struct TimelineStatus {
    pub avatar: CachedImage,
    pub content: TextLines,
}

/// Shows the statuses one below the other, and scrolls.
pub struct TimelineScreen {
    statuses: Vec<TimelineStatus>,
    scroll: u32,
}

/// How far the screen is scrolled after a frame in which the keys up and
/// down were held as given: up wins, and the screen never scrolls above
/// its top.
pub open spec fn scrolled(scroll: u32, up: bool, down: bool) -> u32 {
    if up {
        if scroll < SCROLL_STEP {
            0
        } else {
            (scroll - SCROLL_STEP) as u32
        }
    } else if down {
        if scroll > u32::MAX - SCROLL_STEP {
            u32::MAX
        } else {
            (scroll + SCROLL_STEP) as u32
        }
    } else {
        scroll
    }
}

impl TimelineScreen {
    /// The statuses, from the top down.
    pub closed spec fn statuses(&self) -> Seq<TimelineStatus> {
        self.statuses@
    }

    /// How far the screen is scrolled down, in pixels.
    pub closed spec fn scroll(&self) -> u32 {
        self.scroll
    }

    /// A screen that shows `statuses`, scrolled to the top.
    pub fn new(statuses: Vec<TimelineStatus>) -> (screen: Self)
        ensures
            screen.statuses() == statuses@,
            screen.scroll() == 0,
    {
        TimelineScreen { statuses, scroll: 0 }
    }

    /// Scrolls by the keys that are held.
    pub fn update(&mut self, up_held: bool, down_held: bool)
        ensures
            final(self).scroll() == scrolled(old(self).scroll(), up_held, down_held),
            final(self).statuses() == old(self).statuses(),
    {
        if up_held {
            self.scroll = self.scroll.saturating_sub(SCROLL_STEP);
        } else if down_held {
            self.scroll = self.scroll.saturating_add(SCROLL_STEP);
        }
    }

    /// The statuses, to draw them.
    pub fn get_statuses(&self) -> (statuses: &Vec<TimelineStatus>)
        ensures
            statuses@ == self.statuses(),
    {
        &self.statuses
    }

    /// How far the screen is scrolled down, in pixels.
    pub fn get_scroll(&self) -> (scroll: u32)
        ensures
            scroll == self.scroll(),
    {
        self.scroll
    }

    /// Gives up the screen and hands out the statuses, whose avatars go
    /// back to the cache.
    pub fn into_statuses(self) -> (statuses: Vec<TimelineStatus>)
        ensures
            statuses@ == self.statuses(),
    {
        self.statuses
    }
}

} // verus!
