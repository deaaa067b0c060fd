//! The settings of a transfer session, and what came back from it.
//!
//! A session holds what the transport is told before a request is
//! performed: the URL, whether the peer is verified, the bearer token, and
//! the parts of a form. The thread that owns the transport applies the
//! settings, performs the transfer, and writes the body that it receives
//! into the session.

use vstd::prelude::*;

verus! {

/// The transport failed, with the given code.
#[derive(Clone, Copy, Debug, PartialEq, Eq, Structural)]
pub struct CurlError(pub u32);

/// A text has a NUL character in it and cannot be handed to the transport.
#[derive(Clone, Copy, Debug, PartialEq, Eq, Structural)]
pub struct NulError;

/// Whether `text` can be handed to the transport: it has no NUL character.
pub open spec fn is_c_string(text: Seq<char>) -> bool {
    forall|i: int| 0 <= i < text.len() ==> text[i] != '\0'
}

/// Checks that `text` has no NUL character.
pub fn check_c_string(text: &str) -> (result: Result<(), NulError>)
    ensures
        result is Ok <==> is_c_string(text@),
{
    for c in it: text.chars()
        invariant
            it.seq() == text@,
            forall|i: int| 0 <= i < it.index() ==> text@[i] != '\0',
    {
        if c == '\0' {
            return Err(NulError);
        }
    }
    Ok(())
}

/// The parts of a form, in the order in which they were added.
pub struct Mime {
    parts: Vec<(String, Vec<u8>)>,
}

/// What a part of a form holds: its name and its bytes.
pub open spec fn part_view(part: (String, Vec<u8>)) -> (Seq<char>, Seq<u8>) {
    (part.0@, part.1@)
}

impl Mime {
    /// The parts, as names and bytes.
    pub closed spec fn view(&self) -> Seq<(Seq<char>, Seq<u8>)> {
        self.parts@.map_values(|part: (String, Vec<u8>)| part_view(part))
    }

    /// A form without parts.
    pub fn new() -> (mime: Self)
        ensures
            mime@ == Seq::<(Seq<char>, Seq<u8>)>::empty(),
    {
        let mime = Mime { parts: Vec::new() };
        assert(mime@ =~= Seq::<(Seq<char>, Seq<u8>)>::empty());
        mime
    }

    /// Adds a part. It fails, and adds nothing, if the name has a NUL
    /// character.
    pub fn add_part(&mut self, name: &str, data: &[u8]) -> (result: Result<(), NulError>)
        ensures
            result is Ok <==> is_c_string(name@),
            final(self)@ == if is_c_string(name@) {
                old(self)@.push((name@, data@))
            } else {
                old(self)@
            },
    {
        match check_c_string(name) {
            Err(e) => Err(e),
            Ok(()) => {
                self.parts.push((name.to_owned(), vstd::slice::slice_to_vec(data)));
                assert(self@ =~= old(self)@.push((name@, data@)));
                Ok(())
            },
        }
    }

    /// The parts, for the transport.
    pub fn parts(&self) -> (parts: &Vec<(String, Vec<u8>)>)
        ensures
            parts@.map_values(|part: (String, Vec<u8>)| part_view(part)) == self@,
    {
        &self.parts
    }
}

/// What a session is set to.
pub struct EasyView {
    /// The URL of the next transfer.
    pub url: Seq<char>,
    /// Whether the peer's certificate and host name are verified.
    pub verify: bool,
    /// The bearer token that is sent, if any.
    pub bearer: Option<Seq<char>>,
    /// The form that is posted, if any. Without one the transfer is a GET.
    pub mime: Option<Seq<(Seq<char>, Seq<u8>)>>,
    /// The body received so far.
    pub buffer: Seq<u8>,
}

/// A transfer session.
pub struct Easy {
    url: String,
    verify: bool,
    bearer: Option<String>,
    mime: Option<Mime>,
    write_buffer: Vec<u8>,
}

impl Easy {
    /// What the session is set to.
    pub closed spec fn view(&self) -> EasyView {
        EasyView {
            url: self.url@,
            verify: self.verify,
            bearer: match self.bearer {
                Some(token) => Some(token@),
                None => None,
            },
            mime: match self.mime {
                Some(mime) => Some(mime@),
                None => None,
            },
            buffer: self.write_buffer@,
        }
    }

    /// A session with no URL, which verifies its peer, sends no token and
    /// no form, and has received nothing.
    pub fn new() -> (easy: Self)
        ensures
            easy@ == (EasyView {
                url: Seq::empty(),
                verify: true,
                bearer: None,
                mime: None,
                buffer: Seq::empty(),
            }),
    {
        Easy {
            url: String::new(),
            verify: true,
            bearer: None,
            mime: None,
            write_buffer: Vec::new(),
        }
    }

    /// Turns off the verification of the peer.
    pub fn disable_verification(&mut self)
        ensures
            final(self)@ == (EasyView { verify: false, ..old(self)@ }),
    {
        self.verify = false;
    }

    /// Sets the URL. It fails, and changes nothing, if the URL has a NUL
    /// character.
    pub fn url(&mut self, url: &str) -> (result: Result<(), NulError>)
        ensures
            result is Ok <==> is_c_string(url@),
            final(self)@ == if is_c_string(url@) {
                EasyView { url: url@, ..old(self)@ }
            } else {
                old(self)@
            },
    {
        match check_c_string(url) {
            Err(e) => Err(e),
            Ok(()) => {
                self.url = url.to_owned();
                Ok(())
            },
        }
    }

    /// Sets the bearer token, or clears it. It fails, and changes nothing,
    /// if the token has a NUL character.
    pub fn bearer(&mut self, bearer: Option<&str>) -> (result: Result<(), NulError>)
        ensures
            result is Ok <==> (bearer matches Some(token) ==> is_c_string(token@)),
            final(self)@ == match bearer {
                Some(token) => if is_c_string(token@) {
                    EasyView { bearer: Some(token@), ..old(self)@ }
                } else {
                    old(self)@
                },
                None => EasyView { bearer: None, ..old(self)@ },
            },
    {
        match bearer {
            Some(token) => match check_c_string(token) {
                Err(e) => Err(e),
                Ok(()) => {
                    self.bearer = Some(token.to_owned());
                    Ok(())
                },
            },
            None => {
                self.bearer = None;
                Ok(())
            },
        }
    }

    /// A form without parts, to be filled and handed to
    /// `perform_with_mime`.
    pub fn mime(&self) -> (mime: Mime)
        ensures
            mime@ == Seq::<(Seq<char>, Seq<u8>)>::empty(),
    {
        Mime::new()
    }

    /// Gets the session ready for a transfer without a form: what was
    /// received before is dropped.
    pub fn perform(&mut self)
        ensures
            final(self)@ == (EasyView { mime: None, buffer: Seq::empty(), ..old(self)@ }),
    {
        self.write_buffer.clear();
        self.mime = None;
    }

    /// Gets the session ready for a transfer that posts `mime`: what was
    /// received before is dropped.
    pub fn perform_with_mime(&mut self, mime: Mime)
        ensures
            final(self)@ == (EasyView { mime: Some(mime@), buffer: Seq::empty(), ..old(self)@ }),
    {
        self.write_buffer.clear();
        self.mime = Some(mime);
    }

    /// Takes in a piece of the body, as the transport hands it over.
    pub fn write(&mut self, data: &[u8])
        ensures
            final(self)@ == (EasyView { buffer: old(self)@.buffer + data@, ..old(self)@ }),
    {
        self.write_buffer.extend_from_slice(data);
        assert(self.write_buffer@ =~= old(self)@.buffer + data@);
    }

    /// Hands out the body that was received and leaves the session with an
    /// empty one.
    pub fn buffer(&mut self) -> (body: Vec<u8>)
        ensures
            body@ == old(self)@.buffer,
            final(self)@ == (EasyView { buffer: Seq::empty(), ..old(self)@ }),
    {
        let mut result: Vec<u8> = Vec::new();
        std::mem::swap(&mut result, &mut self.write_buffer);
        result
    }

    /// The URL of the next transfer.
    pub fn get_url(&self) -> (url: &String)
        ensures
            url@ == self@.url,
    {
        &self.url
    }

    /// Whether the peer is verified.
    pub fn get_verify(&self) -> (verify: bool)
        ensures
            verify == self@.verify,
    {
        self.verify
    }

    /// The bearer token that is sent, if any.
    pub fn get_bearer(&self) -> (bearer: &Option<String>)
        ensures
            bearer matches Some(token) ==> self@.bearer == Some(token@),
            bearer is None ==> self@.bearer is None,
    {
        &self.bearer
    }

    /// The form that is posted, if any.
    pub fn get_mime(&self) -> (mime: &Option<Mime>)
        ensures
            mime matches Some(form) ==> self@.mime == Some(form@),
            mime is None ==> self@.mime is None,
    {
        &self.mime
    }
}

} // verus!
