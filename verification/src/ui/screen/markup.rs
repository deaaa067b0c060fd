//! Reading the markup of a status.
//!
//! The markup is read by the `quick_xml` crate. Nothing in this file is
//! proved: each function states which function of that crate it calls.

use quick_xml::events::{BytesEnd, BytesText, Event};
use quick_xml::reader::Reader;
use vstd::prelude::*;

verus! {

/// `quick_xml::reader::Reader`: a reader of markup, of which the
/// functions below say what it has left to read.
#[verifier::external_type_specification]
#[verifier::external_body]
#[verifier::reject_recursive_types(R)]
pub struct ExReader<R>(Reader<R>);

/// `quick_xml::events::BytesEnd`: an end tag. It is handed on as it is.
#[verifier::external_type_specification]
#[verifier::external_body]
pub struct ExBytesEnd<'a>(BytesEnd<'a>);

/// `quick_xml::events::BytesText`: text between tags, with its escapes.
/// It is handed on as it is.
#[verifier::external_type_specification]
#[verifier::external_body]
pub struct ExBytesText<'a>(BytesText<'a>);

/// `quick_xml::Error`: why markup cannot be read. It is handed on as it
/// is.
#[verifier::external_type_specification]
#[verifier::external_body]
pub struct ExXmlError(quick_xml::Error);

/// What the reader found next in the markup.
pub enum Markup<'a> {
    /// The end of the markup.
    Eof,
    /// The end of an element.
    End(BytesEnd<'a>),
    /// Text between tags, with its escapes.
    Text(BytesText<'a>),
    /// Anything else.
    Other,
}

/// The name in an end tag, as bytes.
pub uninterp spec fn tag_name(end: BytesEnd<'_>) -> Seq<u8>;

/// The text of a piece of markup with its escapes resolved, or `None` if
/// an escape in it is not known.
pub uninterp spec fn unescaped(text: BytesText<'_>) -> Option<Seq<char>>;

/// A piece of markup, by what matters of it.
pub enum Piece {
    /// The end of the element with the given name.
    End(Seq<u8>),
    /// Text between tags, with its escapes resolved where they are known.
    Text(Option<Seq<char>>),
    /// Anything else.
    Other,
    /// The place where the markup cannot be read.
    Broken,
}

/// What a piece of markup stands for.
pub open spec fn piece_of(markup: Markup<'_>) -> Piece {
    match markup {
        Markup::End(end) => Piece::End(tag_name(end)),
        Markup::Text(text) => Piece::Text(unescaped(text)),
        _ => Piece::Other,
    }
}

/// The pieces of `html`, in their order, up to its end or to the first
/// place where it cannot be read. With `check_end_names` an end tag that
/// does not have the name of its start tag cannot be read.
pub uninterp spec fn markup_pieces(html: Seq<char>, check_end_names: bool) -> Seq<Piece>;

/// The pieces that a reader has not yet read.
pub uninterp spec fn pending(reader: Reader<&[u8]>) -> Seq<Piece>;

/// `Reader::from_str` and then `Reader::check_end_names`: a reader at the
/// start of `html`.
#[verifier::external_body]
pub(crate) fn reader_for<'a>(html: &'a str, check_end_names: bool) -> (reader: Reader<&'a [u8]>)
    ensures
        pending(reader) == markup_pieces(html@, check_end_names),
{
    let mut reader = Reader::from_str(html);
    reader.check_end_names(check_end_names);
    reader
}

/// `Reader::read_event`: the next piece of the markup, `Eof` once nothing
/// is left, or the error with which the markup cannot be read.
#[verifier::external_body]
pub(crate) fn read_event<'a>(reader: &mut Reader<&'a [u8]>) -> (event: Result<
    Markup<'a>,
    quick_xml::Error,
>)
    ensures
        match event {
            Ok(Markup::Eof) => pending(*old(reader)).len() == 0 && pending(*final(reader))
                == pending(*old(reader)),
            Ok(piece) => pending(*old(reader)).len() > 0 && pending(*old(reader))[0] == piece_of(
                piece,
            ) && !(piece_of(piece) is Broken) && pending(*final(reader)) == pending(
                *old(reader),
            ).skip(1),
            Err(_) => pending(*old(reader)).len() > 0 && pending(*old(reader))[0] is Broken
                && pending(*final(reader)) == pending(*old(reader)).skip(1),
        },
{
    Ok(
        match reader.read_event()? {
            Event::Eof => Markup::Eof,
            Event::End(end) => Markup::End(end),
            Event::Text(text) => Markup::Text(text),
            _ => Markup::Other,
        },
    )
}

/// `BytesEnd::name`: the name in an end tag.
#[verifier::external_body]
pub(crate) fn end_name(end: &BytesEnd<'_>) -> (name: Vec<u8>)
    ensures
        name@ == tag_name(*end),
{
    end.name().as_ref().to_vec()
}

/// `BytesText::unescape`: the text with its escapes resolved.
#[verifier::external_body]
pub(crate) fn unescape_text(text: &BytesText<'_>) -> (plain: Result<String, quick_xml::Error>)
    ensures
        match plain {
            Ok(resolved) => unescaped(*text) == Some(resolved@),
            Err(_) => unescaped(*text) is None,
        },
{
    Ok(text.unescape()?.into_owned())
}

} // verus!
