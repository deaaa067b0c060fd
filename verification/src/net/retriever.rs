//! The retriever: a queue of requests that one worker serves in order, and
//! the replies that wait for whoever asked.

use crate::error::ClientError;
use crate::net::curl::{is_c_string, Easy, EasyView, Mime};
use crate::net::url_parse::{parse_domain, url_domain};
use crate::ui::line_break::push_char;
use std::collections::VecDeque;
use vstd::prelude::*;

verus! {

/// How a request is made.
pub enum Method {
    /// Fetch the URL.
    Get,
    /// Post a form with the given parts to the URL.
    Post(Vec<(&'static str, Vec<u8>)>),
}

/// A request to a server.
pub struct Request {
    pub method: Method,
    pub url: String,
}

/// The server answered with a status that is no success.
#[derive(Clone, Copy, Debug, PartialEq, Eq, Structural)]
pub struct HttpError(pub u16);

/// The character for a digit.
pub open spec fn digit(d: int) -> char {
    (0x30 + d) as char
}

/// A number as it is written, in base ten.
pub open spec fn decimal(n: nat) -> Seq<char>
    decreases n,
{
    if n < 10 {
        seq![digit(n as int)]
    } else {
        decimal(n / 10).push(digit((n % 10) as int))
    }
}

/// Writes a number behind a text, in base ten.
fn push_decimal(text: &mut String, n: u16)
    ensures
        final(text)@ == old(text)@ + decimal(n as nat),
    decreases n,
{
    if n >= 10 {
        push_decimal(text, n / 10);
    }
    let d = (n % 10) as u8;
    push_char(text, (0x30 + d) as char);
    assert(text@ =~= old(text)@ + decimal(n as nat));
}

impl HttpError {
    /// The text shown for this error: the status behind `HTTP error`.
    pub fn to_string(&self) -> (text: String)
        ensures
            text@ == "HTTP error "@ + decimal(self.0 as nat),
    {
        let mut text = "HTTP error ".to_owned();
        push_decimal(&mut text, self.0);
        text
    }
}

/// The body of the answer, or why there is none.
pub type Response = Result<Vec<u8>, ClientError>;

/// Whether a request is sent with the bearer token: only if there is a
/// token, and the URL's host is a domain name that is spelled exactly as
/// the instance is. This keeps the token from other hosts.
pub open spec fn sends_token(token: Seq<char>, instance: Seq<char>, domain: Option<Seq<char>>) -> bool {
    token.len() > 0 && domain == Some(instance)
}

/// Whether a request to a URL with the given domain name is sent with the
/// bearer token.
pub fn authorized(token: &str, instance: &str, domain: &Option<String>) -> (sends: bool)
    ensures
        sends == sends_token(
            token@,
            instance@,
            match domain {
                Some(name) => Some(name@),
                None => None,
            },
        ),
{
    if token.is_empty() {
        return false;
    }
    match domain {
        Some(name) => {
            let instance = instance.to_owned();
            *name == instance
        },
        None => false,
    }
}

/// Whether a status of HTTP is a success: from 200 to 299.
pub open spec fn is_success(status: u16) -> bool {
    200 <= status <= 299
}

/// The parts of a form, as names and bytes.
pub open spec fn form_parts(fields: Seq<(&'static str, Vec<u8>)>) -> Seq<(Seq<char>, Seq<u8>)> {
    fields.map_values(|field: (&'static str, Vec<u8>)| (field.0@, field.1@))
}

/// The form that a request posts, if it posts one.
pub open spec fn form_of(method: Method) -> Option<Seq<(Seq<char>, Seq<u8>)>> {
    match method {
        Method::Get => None,
        Method::Post(fields) => Some(form_parts(fields@)),
    }
}

/// Whether each part of the form of a request can be handed to the
/// transport.
pub open spec fn form_ok(method: Method) -> bool {
    match method {
        Method::Get => true,
        Method::Post(fields) => forall|i: int|
            0 <= i < fields@.len() ==> is_c_string((#[trigger] fields@[i]).0@),
    }
}

/// Why a request is not made.
pub enum Refusal {
    /// It is made.
    Accepted,
    /// The URL, the token or the name of a part has a NUL character.
    Nul,
    /// There is a token, and the URL is no absolute URL.
    Url,
}

/// Whether a request is made, given what the URL was parsed to. The URL is
/// only parsed where there is a token to send.
pub open spec fn refusal(
    request: Request,
    instance: Seq<char>,
    token: Seq<char>,
    parsed: Option<Option<Seq<char>>>,
) -> Refusal {
    if !is_c_string(request.url@) {
        Refusal::Nul
    } else if token.len() > 0 && parsed is None {
        Refusal::Url
    } else if token.len() > 0 && sends_token(token, instance, parsed->0) && !is_c_string(token) {
        Refusal::Nul
    } else if !form_ok(request.method) {
        Refusal::Nul
    } else {
        Refusal::Accepted
    }
}

/// What the session is set to for a request: the peer is not verified, the
/// token is sent only to the instance, and nothing has been received.
pub open spec fn prepared(
    request: Request,
    instance: Seq<char>,
    token: Seq<char>,
    parsed: Option<Option<Seq<char>>>,
) -> EasyView {
    EasyView {
        url: request.url@,
        verify: false,
        bearer: if token.len() > 0 && parsed is Some && sends_token(token, instance, parsed->0) {
            Some(token)
        } else {
            None
        },
        mime: form_of(request.method),
        buffer: Seq::empty(),
    }
}

/// What a session is set to after it was set up for a request, or after
/// the request was refused. A URL with a NUL character changes nothing.
/// After that the URL is set and the token cleared, and the token is set
/// again if it is sent; the form is set, and what was received is
/// dropped, only for a request that is made.
pub open spec fn session_after(
    before: EasyView,
    request: Request,
    instance: Seq<char>,
    token: Seq<char>,
    parsed: Option<Option<Seq<char>>>,
) -> EasyView {
    let made = prepared(request, instance, token, parsed);
    if refusal(request, instance, token, parsed) is Accepted {
        made
    } else if !is_c_string(request.url@) {
        before
    } else if !form_ok(request.method) && !(token.len() > 0 && (parsed is None || (sends_token(
        token,
        instance,
        parsed->0,
    ) && !is_c_string(token)))) {
        EasyView { mime: before.mime, buffer: before.buffer, ..made }
    } else {
        EasyView { bearer: None, mime: before.mime, buffer: before.buffer, ..made }
    }
}

/// Sets a session up for `request`, so that the transfer can be performed.
#[verifier::loop_isolation(false)]
pub fn make_request(easy: &mut Easy, request: Request, instance: &str, token: &str) -> (result:
    Result<(), ClientError>)
    ensures
        match result {
            Ok(()) => refusal(request, instance@, token@, url_domain(request.url@))
                == Refusal::Accepted,
            Err(ClientError::Nul(_)) => refusal(request, instance@, token@, url_domain(request.url@))
                == Refusal::Nul,
            Err(ClientError::Url(_)) => refusal(request, instance@, token@, url_domain(request.url@))
                == Refusal::Url,
            Err(_) => false,
        },
        final(easy)@ == session_after(
            old(easy)@,
            request,
            instance@,
            token@,
            url_domain(request.url@),
        ),
{
    let Request { method, url } = request;
    match easy.url(url.as_str()) {
        Err(e) => {
            return Err(ClientError::Nul(e));
        },
        Ok(()) => {},
    }
    easy.disable_verification();
    let _ = easy.bearer(None);
    if !token.is_empty() {
        let domain = match parse_domain(url.as_str()) {
            Err(e) => {
                return Err(ClientError::Url(e));
            },
            Ok(domain) => domain,
        };
        if authorized(token, instance, &domain) {
            match easy.bearer(Some(token)) {
                Err(e) => {
                    return Err(ClientError::Nul(e));
                },
                Ok(()) => {},
            }
        }
    }
    match method {
        Method::Post(fields) => {
            let mut mime = easy.mime();
            let mut i: usize = 0;
            while i < fields.len()
                invariant
                    i <= fields@.len(),
                    mime@ == form_parts(fields@).take(i as int),
                    forall|k: int| 0 <= k < i ==> is_c_string((#[trigger] fields@[k]).0@),
                decreases fields@.len() - i,
            {
                match mime.add_part(fields[i].0, fields[i].1.as_slice()) {
                    Err(e) => {
                        assert(!is_c_string(fields@[i as int].0@));
                        return Err(ClientError::Nul(e));
                    },
                    Ok(()) => {},
                }
                assert(mime@ =~= form_parts(fields@).take(i + 1));
                i = i + 1;
            }
            assert(form_parts(fields@).take(i as int) =~= form_parts(fields@));
            easy.perform_with_mime(mime);
        },
        Method::Get => {
            easy.perform();
        },
    }
    Ok(())
}

/// What a transfer comes to: the body if the status is a success, the
/// status if it is not, and the failure of the transport if the transfer
/// was not made. The body leaves the session unless the transport failed.
pub fn finish_request(easy: &mut Easy, outcome: Result<u16, crate::net::curl::CurlError>) -> (response:
    Response)
    ensures
        match outcome {
            Ok(status) => {
                &&& final(easy)@ == (EasyView { buffer: Seq::empty(), ..old(easy)@ })
                &&& if is_success(status) {
                    response matches Ok(body) && body@ == old(easy)@.buffer
                } else {
                    response matches Err(ClientError::Http(e)) && e == HttpError(status)
                }
            },
            Err(failure) => {
                &&& final(easy)@ == old(easy)@
                &&& response matches Err(ClientError::Curl(e)) && e == failure
            },
        },
{
    match outcome {
        Ok(status) => {
            let body = easy.buffer();
            if 200 <= status && status <= 299 {
                Ok(body)
            } else {
                Err(ClientError::Http(HttpError(status)))
            }
        },
        Err(failure) => Err(ClientError::Curl(failure)),
    }
}

} // verus!

verus! {

/// A reply that waits to be received: the response to `request`, for the
/// batch that has the number `channel`.
pub struct Served {
    pub channel: u64,
    pub request: Request,
    pub response: Response,
}

/// What a retriever holds.
pub struct RetrieverView {
    /// The requests that wait, the oldest first, each with the number of
    /// its batch.
    pub queue: Seq<(Request, u64)>,
    /// The request that the worker is serving.
    pub in_flight: Option<(Request, u64)>,
    /// The replies that wait, in the order in which the requests were
    /// served.
    pub replies: Seq<Served>,
    /// The number that the next batch gets.
    pub next_channel: u64,
    /// The host on which the account lives.
    pub instance: Seq<char>,
    /// The bearer token of the account, empty if there is none.
    pub token: Seq<char>,
    /// Whether requests are still taken.
    pub open: bool,
}

/// Every batch that the retriever knows of has a number below the next
/// one.
pub open spec fn channels_known(v: RetrieverView) -> bool {
    &&& forall|i: int| 0 <= i < v.queue.len() ==> (#[trigger] v.queue[i]).1 < v.next_channel
    &&& v.in_flight matches Some(job) ==> job.1 < v.next_channel
    &&& forall|i: int| 0 <= i < v.replies.len() ==> (#[trigger] v.replies[i]).channel < v.next_channel
}

/// The requests of a batch, each with the number of the batch.
pub open spec fn tag(batch: Seq<Request>, channel: u64) -> Seq<(Request, u64)> {
    batch.map_values(|request: Request| (request, channel))
}

/// Whether a batch can be taken.
pub open spec fn takes_requests(v: RetrieverView) -> bool {
    v.open && v.next_channel < u64::MAX
}

/// A batch has been put in the queue, behind the requests that wait.
pub open spec fn requested(v: RetrieverView, batch: Seq<Request>) -> RetrieverView {
    if takes_requests(v) {
        RetrieverView {
            queue: v.queue + tag(batch, v.next_channel),
            next_channel: (v.next_channel + 1) as u64,
            ..v
        }
    } else {
        v
    }
}

/// The worker has taken the oldest request, if it was idle and a request
/// waited.
pub open spec fn started(v: RetrieverView) -> RetrieverView {
    if v.in_flight is None && v.queue.len() > 0 {
        RetrieverView { queue: v.queue.drop_first(), in_flight: Some(v.queue[0]), ..v }
    } else {
        v
    }
}

/// The worker has served its request, and the response waits behind the
/// replies that wait.
pub open spec fn completed(v: RetrieverView, response: Response) -> RetrieverView {
    match v.in_flight {
        Some((request, channel)) => RetrieverView {
            in_flight: None,
            replies: v.replies.push(Served { channel, request, response }),
            ..v
        },
        None => v,
    }
}

/// The index of the first reply for the batch `channel`, or the number of
/// replies if there is none.
pub open spec fn first_reply(replies: Seq<Served>, channel: u64) -> int
    decreases replies.len(),
{
    if replies.len() == 0 {
        0
    } else if replies[0].channel == channel {
        0
    } else {
        1 + first_reply(replies.drop_first(), channel)
    }
}

/// The oldest reply for the batch `channel` has been received.
pub open spec fn received(v: RetrieverView, channel: u64) -> RetrieverView {
    let i = first_reply(v.replies, channel);
    if i < v.replies.len() {
        RetrieverView { replies: v.replies.remove(i), ..v }
    } else {
        v
    }
}

/// Whether a request of the batch `channel` waits or is being served.
pub open spec fn outstanding(v: RetrieverView, channel: u64) -> bool {
    ||| (v.in_flight matches Some(job) && job.1 == channel)
    ||| exists|i: int| 0 <= i < v.queue.len() && (#[trigger] v.queue[i]).1 == channel
}

/// The first reply for a batch is the first one with its number.
pub proof fn lemma_first_reply(replies: Seq<Served>, channel: u64)
    ensures
        0 <= first_reply(replies, channel) <= replies.len(),
        first_reply(replies, channel) < replies.len() ==> replies[first_reply(
            replies,
            channel,
        )].channel == channel,
        forall|i: int| 0 <= i < first_reply(replies, channel) ==> replies[i].channel != channel,
    decreases replies.len(),
{
    if replies.len() > 0 && replies[0].channel != channel {
        let rest = replies.drop_first();
        lemma_first_reply(rest, channel);
        assert forall|i: int| 0 <= i < first_reply(replies, channel) implies replies[i].channel
            != channel by {
            if i > 0 {
                assert(replies[i] == rest[i - 1]);
            }
        }
    }
}

/// A request on its way to be served, with the instance and the token as
/// they were when the worker took it.
pub struct Job {
    pub request: Request,
    pub instance: String,
    pub token: String,
}

/// A reply as it is kept: the request that it answers is known to the
/// proof only.
struct Reply {
    channel: u64,
    response: Response,
    request: Ghost<Request>,
}

/// The receiving end of a batch: with it the responses to the requests of
/// the batch are received, one at a time.
pub struct Receiver {
    channel: u64,
}

impl Receiver {
    /// The number of the batch.
    pub closed spec fn channel(&self) -> u64 {
        self.channel
    }
}

/// Queues requests and keeps the replies.
pub struct Retriever {
    requests: VecDeque<(Request, u64)>,
    working: Option<(u64, Ghost<Request>)>,
    replies: Vec<Reply>,
    next_channel: u64,
    instance: String,
    token: String,
    open: bool,
}

impl Retriever {
    /// What the retriever holds.
    pub closed spec fn view(&self) -> RetrieverView {
        RetrieverView {
            queue: self.requests@,
            in_flight: match self.working {
                Some((channel, request)) => Some((request@, channel)),
                None => None,
            },
            replies: self.replies@.map_values(
                |reply: Reply|
                    Served {
                        channel: reply.channel,
                        request: reply.request@,
                        response: reply.response,
                    },
            ),
            next_channel: self.next_channel,
            instance: self.instance@,
            token: self.token@,
            open: self.open,
        }
    }

    /// No batch has a number that is still to be given.
    pub open spec fn wf(&self) -> bool {
        channels_known(self@)
    }

    /// A retriever with nothing to do, for no instance and without a
    /// token.
    pub fn new() -> (retriever: Self)
        ensures
            retriever.wf(),
            retriever@ == (RetrieverView {
                queue: Seq::empty(),
                in_flight: None,
                replies: Seq::empty(),
                next_channel: 0,
                instance: Seq::empty(),
                token: Seq::empty(),
                open: true,
            }),
    {
        let retriever = Retriever {
            requests: VecDeque::new(),
            working: None,
            replies: Vec::new(),
            next_channel: 0,
            instance: String::new(),
            token: String::new(),
            open: true,
        };
        assert(retriever@.replies =~= Seq::empty());
        retriever
    }

    /// Puts a batch of requests in the queue, in their order, and hands
    /// out the end on which their responses are received, in the same
    /// order. No batch is taken once the retriever is closed, or once it
    /// has taken `u64::MAX` batches.
    pub fn request(&mut self, requests: Vec<Request>) -> (receiver: Option<Receiver>)
        requires
            old(self).wf(),
        ensures
            final(self).wf(),
            final(self)@ == requested(old(self)@, requests@),
            match receiver {
                Some(rx) => takes_requests(old(self)@) && rx.channel() == old(self)@.next_channel,
                None => !takes_requests(old(self)@),
            },
    {
        if !self.open || self.next_channel == u64::MAX {
            return None;
        }
        let channel = self.next_channel;
        let ghost before = self.requests@;
        let ghost batch = requests@;
        let mut requests = requests;
        while requests.len() > 0
            invariant
                requests@.len() <= batch.len(),
                requests@ == batch.skip(batch.len() - requests@.len()),
                self.requests@ == before + tag(batch.take(batch.len() - requests@.len()), channel),
                self@ == (RetrieverView { queue: self.requests@, ..old(self)@ }),
                before == old(self)@.queue,
                channels_known(old(self)@),
                channel == old(self)@.next_channel,
                channel < u64::MAX,
            decreases requests@.len(),
        {
            let ghost done = batch.len() - requests@.len();
            let request = requests.remove(0);
            assert(request == batch[done]);
            self.requests.push_back((request, channel));
            assert(requests@ =~= batch.skip(done + 1));
            assert(tag(batch.take(done + 1), channel) =~= tag(batch.take(done), channel).push(
                (request, channel),
            ));
            assert(self.requests@ =~= before + tag(batch.take(done + 1), channel));
        }
        assert(batch.take(batch.len() as int) =~= batch);
        self.next_channel = channel + 1;
        Some(Receiver { channel })
    }

    /// Hands the oldest request that waits to the worker, with the
    /// instance and the token as they are now: what is set later holds for
    /// later requests. There is no request for a worker that has not yet
    /// reported on its last one.
    pub fn next_job(&mut self) -> (job: Option<Job>)
        requires
            old(self).wf(),
        ensures
            final(self).wf(),
            final(self)@ == started(old(self)@),
            job is Some <==> old(self)@.in_flight is None && old(self)@.queue.len() > 0,
            job matches Some(taken) ==> {
                &&& taken.request == old(self)@.queue[0].0
                &&& taken.instance@ == old(self)@.instance
                &&& taken.token@ == old(self)@.token
            },
    {
        if self.working.is_some() {
            return None;
        }
        match self.requests.pop_front() {
            Some((request, channel)) => {
                self.working = Some((channel, Ghost(request)));
                Some(Job { request, instance: self.instance.clone(), token: self.token.clone() })
            },
            None => None,
        }
    }

    /// Takes the response to the request that the worker was given, and
    /// keeps it for the receiver of the batch.
    pub fn complete(&mut self, response: Response)
        requires
            old(self).wf(),
        ensures
            final(self).wf(),
            final(self)@ == completed(old(self)@, response),
    {
        match self.working {
            Some((channel, request)) => {
                self.replies.push(Reply { channel, response, request });
                self.working = None;
                assert(self@.replies =~= old(self)@.replies.push(
                    Served { channel, request: request@, response },
                ));
            },
            None => {},
        }
    }

    /// Receives the oldest reply for the batch of `receiver`, if one
    /// waits.
    pub fn recv(&mut self, receiver: &Receiver) -> (response: Option<Response>)
        requires
            old(self).wf(),
        ensures
            final(self).wf(),
            final(self)@ == received(old(self)@, receiver.channel()),
            ({
                let replies = old(self)@.replies;
                let i = first_reply(replies, receiver.channel());
                response == if i < replies.len() {
                    Some(replies[i].response)
                } else {
                    None
                }
            }),
    {
        let mut i: usize = 0;
        let ghost replies = self@.replies;
        proof {
            lemma_first_reply(replies, receiver.channel());
        }
        while i < self.replies.len() && self.replies[i].channel != receiver.channel
            invariant
                i <= self.replies@.len(),
                self@ == old(self)@,
                replies == self@.replies,
                replies.len() == self.replies@.len(),
                forall|k: int| 0 <= k < i ==> replies[k].channel != receiver.channel(),
            decreases self.replies@.len() - i,
        {
            assert(replies[i as int].channel == self.replies@[i as int].channel);
            i = i + 1;
        }
        if i < self.replies.len() {
            assert(replies[i as int].channel == self.replies@[i as int].channel);
            let reply = self.replies.remove(i);
            assert(self@.replies =~= replies.remove(i as int));
            assert(replies[i as int].response == reply.response);
            Some(reply.response)
        } else {
            None
        }
    }

    /// Whether a request of the batch of `receiver` still waits or is
    /// being served: if none is, no more replies will come.
    pub fn pending(&self, receiver: &Receiver) -> (pending: bool)
        ensures
            pending == outstanding(self@, receiver.channel()),
    {
        match &self.working {
            Some(job) => {
                if job.0 == receiver.channel {
                    return true;
                }
            },
            None => {},
        }
        let mut i: usize = 0;
        while i < self.requests.len()
            invariant
                i <= self.requests@.len(),
                forall|k: int| 0 <= k < i ==> (#[trigger] self.requests@[k]).1 != receiver.channel,
                !(self@.in_flight matches Some(job) && job.1 == receiver.channel()),
            decreases self.requests@.len() - i,
        {
            if self.requests[i].1 == receiver.channel {
                assert(self@.queue[i as int].1 == receiver.channel());
                return true;
            }
            i = i + 1;
        }
        false
    }

    /// Stops taking requests. The requests that wait are still served.
    pub fn close(&mut self)
        requires
            old(self).wf(),
        ensures
            final(self).wf(),
            final(self)@ == (RetrieverView { open: false, ..old(self)@ }),
    {
        self.open = false;
    }

    /// Whether the worker has anything left to wait for: the retriever is
    /// open, or a request waits.
    pub fn is_open(&self) -> (open: bool)
        ensures
            open == (self@.open || self@.queue.len() > 0),
    {
        self.open || self.requests.len() > 0
    }

    /// Sets the bearer token, for the requests that the worker begins from
    /// now on.
    pub fn set_token(&mut self, token: String)
        requires
            old(self).wf(),
        ensures
            final(self).wf(),
            final(self)@ == (RetrieverView { token: token@, ..old(self)@ }),
    {
        self.token = token;
    }

    /// Sets the instance, for the requests that the worker begins from now
    /// on.
    pub fn set_instance(&mut self, instance: String)
        requires
            old(self).wf(),
        ensures
            final(self).wf(),
            final(self)@ == (RetrieverView { instance: instance@, ..old(self)@ }),
    {
        self.instance = instance;
    }

    /// The instance.
    pub fn instance(&self) -> (instance: &String)
        ensures
            instance@ == self@.instance,
    {
        &self.instance
    }

    /// The bearer token.
    pub fn token(&self) -> (token: &String)
        ensures
            token@ == self@.token,
    {
        &self.token
    }
}

} // verus!

verus! {

/// What is done to a retriever.
pub enum NetOp {
    /// A batch is put in the queue.
    Request(Seq<Request>),
    /// The worker takes the oldest request.
    Start,
    /// The worker reports the response to its request.
    Complete(Response),
    /// A reply for the batch with the given number is received.
    Recv(u64),
    /// The retriever is closed.
    Close,
}

/// The retriever after `op`.
pub open spec fn net_step(v: RetrieverView, op: NetOp) -> RetrieverView {
    match op {
        NetOp::Request(batch) => requested(v, batch),
        NetOp::Start => started(v),
        NetOp::Complete(response) => completed(v, response),
        NetOp::Recv(channel) => received(v, channel),
        NetOp::Close => RetrieverView { open: false, ..v },
    }
}

/// The retriever after `ops`, one after the other.
pub open spec fn net_run(v: RetrieverView, ops: Seq<NetOp>) -> RetrieverView
    decreases ops.len(),
{
    if ops.len() == 0 {
        v
    } else {
        net_step(net_run(v, ops.drop_last()), ops.last())
    }
}

/// The replies that were received for the batch `channel` while `ops` were
/// done, in the order in which they were received.
pub open spec fn received_on(v: RetrieverView, ops: Seq<NetOp>, channel: u64) -> Seq<Served>
    decreases ops.len(),
{
    if ops.len() == 0 {
        Seq::empty()
    } else {
        let before = net_run(v, ops.drop_last());
        let log = received_on(v, ops.drop_last(), channel);
        let i = first_reply(before.replies, channel);
        if ops.last() == NetOp::Recv(channel) && i < before.replies.len() {
            log.push(before.replies[i])
        } else {
            log
        }
    }
}

/// The requests among `items` that belong to the batch `channel`, in their
/// order.
pub open spec fn tagged(items: Seq<(Request, u64)>, channel: u64) -> Seq<Request>
    decreases items.len(),
{
    if items.len() == 0 {
        Seq::empty()
    } else {
        let rest = tagged(items.drop_last(), channel);
        if items.last().1 == channel {
            rest.push(items.last().0)
        } else {
            rest
        }
    }
}

/// Every request that the retriever holds, in the order in which they
/// were put in: those that are served, the one that is being served, and
/// those that wait.
pub open spec fn pipeline(v: RetrieverView) -> Seq<(Request, u64)> {
    v.replies.map_values(|reply: Served| (reply.request, reply.channel)) + match v.in_flight {
        Some(job) => seq![job],
        None => Seq::empty(),
    } + v.queue
}

/// The requests that `replies` answer.
pub open spec fn requests_of(replies: Seq<Served>) -> Seq<Request> {
    replies.map_values(|reply: Served| reply.request)
}

proof fn lemma_tagged_add(a: Seq<(Request, u64)>, b: Seq<(Request, u64)>, channel: u64)
    ensures
        tagged(a + b, channel) == tagged(a, channel) + tagged(b, channel),
    decreases b.len(),
{
    if b.len() == 0 {
        assert(a + b =~= a);
        assert(tagged(a, channel) + tagged(b, channel) =~= tagged(a, channel));
    } else {
        assert((a + b).drop_last() =~= a + b.drop_last());
        lemma_tagged_add(a, b.drop_last(), channel);
        let rest = tagged(a, channel) + tagged(b.drop_last(), channel);
        if b.last().1 == channel {
            assert(rest.push(b.last().0) =~= tagged(a, channel) + tagged(b, channel));
        }
    }
}

proof fn lemma_tagged_none(items: Seq<(Request, u64)>, channel: u64)
    requires
        forall|i: int| 0 <= i < items.len() ==> (#[trigger] items[i]).1 != channel,
    ensures
        tagged(items, channel) == Seq::<Request>::empty(),
    decreases items.len(),
{
    if items.len() > 0 {
        lemma_tagged_none(items.drop_last(), channel);
    }
}

proof fn lemma_tagged_batch(batch: Seq<Request>, channel: u64)
    ensures
        tagged(tag(batch, channel), channel) == batch,
    decreases batch.len(),
{
    if batch.len() == 0 {
        assert(tagged(tag(batch, channel), channel) =~= batch);
    } else {
        assert(tag(batch, channel).drop_last() =~= tag(batch.drop_last(), channel));
        lemma_tagged_batch(batch.drop_last(), channel);
        assert(batch.drop_last().push(batch.last()) =~= batch);
    }
}

/// Taking out a request of another batch changes nothing for this batch;
/// taking out the first request of this batch takes the first one off.
proof fn lemma_tagged_remove(items: Seq<(Request, u64)>, i: int, channel: u64)
    requires
        0 <= i < items.len(),
        forall|k: int| 0 <= k < i ==> (#[trigger] items[k]).1 != channel,
    ensures
        items[i].1 != channel ==> tagged(items.remove(i), channel) == tagged(items, channel),
        items[i].1 == channel ==> {
            &&& tagged(items, channel).len() > 0
            &&& tagged(items, channel)[0] == items[i].0
            &&& tagged(items.remove(i), channel) == tagged(items, channel).drop_first()
        },
{
    let front = items.take(i);
    let one = seq![items[i]];
    let back = items.skip(i + 1);
    assert(items =~= front + one + back);
    assert(items.remove(i) =~= front + back);
    lemma_tagged_none(front, channel);
    lemma_tagged_add(front + one, back, channel);
    lemma_tagged_add(front, one, channel);
    lemma_tagged_add(front, back, channel);
    assert(one.drop_last() =~= Seq::<(Request, u64)>::empty());
    assert(tagged(one.drop_last(), channel) =~= Seq::<Request>::empty());
    if items[i].1 == channel {
        assert(tagged(one, channel) =~= seq![items[i].0]);
        assert(tagged(items, channel) =~= seq![items[i].0] + tagged(back, channel));
        assert(tagged(items, channel).drop_first() =~= tagged(back, channel));
        assert(tagged(items.remove(i), channel) =~= tagged(back, channel));
    } else {
        assert(tagged(one, channel) =~= Seq::<Request>::empty());
        assert(tagged(items, channel) =~= tagged(back, channel));
        assert(tagged(items.remove(i), channel) =~= tagged(back, channel));
    }
}

/// The requests of a batch that have been answered and received, followed
/// by those that the retriever still holds, are always the batch.
proof fn lemma_batch_kept(v: RetrieverView, batch: Seq<Request>, ops: Seq<NetOp>)
    requires
        channels_known(v),
        takes_requests(v),
    ensures
        ({
            let channel = v.next_channel;
            let start = requested(v, batch);
            let end = net_run(start, ops);
            &&& channels_known(end)
            &&& channel < end.next_channel
            &&& requests_of(received_on(start, ops, channel)) + tagged(pipeline(end), channel)
                == batch
        }),
    decreases ops.len(),
{
    let channel = v.next_channel;
    let start = requested(v, batch);
    if ops.len() == 0 {
        let old_items = pipeline(v);
        assert(pipeline(start) =~= old_items + tag(batch, channel));
        lemma_tagged_add(old_items, tag(batch, channel), channel);
        lemma_tagged_none(old_items, channel);
        lemma_tagged_batch(batch, channel);
        assert(requests_of(Seq::<Served>::empty()) =~= Seq::<Request>::empty());
        assert(Seq::<Request>::empty() + batch =~= batch);
        assert(Seq::<Request>::empty() + (Seq::<Request>::empty() + batch) =~= batch);
    } else {
        lemma_batch_kept(v, batch, ops.drop_last());
        let s = net_run(start, ops.drop_last());
        let t = net_run(start, ops);
        let log = received_on(start, ops.drop_last(), channel);
        let items = pipeline(s);
        match ops.last() {
            NetOp::Request(more) => {
                if takes_requests(s) {
                    assert(pipeline(t) =~= items + tag(more, s.next_channel));
                    lemma_tagged_add(items, tag(more, s.next_channel), channel);
                    lemma_tagged_none(tag(more, s.next_channel), channel);
                    assert(tagged(items, channel) + Seq::<Request>::empty() =~= tagged(
                        items,
                        channel,
                    ));
                }
            },
            NetOp::Start => {
                assert(pipeline(t) =~= items);
            },
            NetOp::Complete(response) => {
                assert(pipeline(t) =~= items);
            },
            NetOp::Recv(c) => {
                let i = first_reply(s.replies, c);
                lemma_first_reply(s.replies, c);
                if i < s.replies.len() {
                    assert(pipeline(t) =~= items.remove(i));
                    assert(items[i] == (s.replies[i].request, s.replies[i].channel));
                    if c == channel {
                        assert forall|k: int| 0 <= k < i implies (#[trigger] items[k]).1
                            != channel by {
                            assert(items[k].1 == s.replies[k].channel);
                        }
                        lemma_tagged_remove(items, i, channel);
                        let line = tagged(items, channel);
                        assert(requests_of(log.push(s.replies[i])) =~= requests_of(log).push(
                            line[0],
                        ));
                        assert(requests_of(log).push(line[0]) + line.drop_first() =~= requests_of(
                            log,
                        ) + line);
                    } else {
                        assert forall|k: int| 0 <= k < i implies (#[trigger] items[k]).1 != c by {
                            assert(items[k].1 == s.replies[k].channel);
                        }
                        lemma_tagged_remove_other(items, i, channel);
                    }
                }
            },
            NetOp::Close => {
                assert(pipeline(t) =~= items);
            },
        }
    }
}

proof fn lemma_tagged_remove_other(items: Seq<(Request, u64)>, i: int, channel: u64)
    requires
        0 <= i < items.len(),
        items[i].1 != channel,
    ensures
        tagged(items.remove(i), channel) == tagged(items, channel),
{
    let front = items.take(i);
    let one = seq![items[i]];
    let back = items.skip(i + 1);
    assert(items =~= front + one + back);
    assert(items.remove(i) =~= front + back);
    lemma_tagged_add(front + one, back, channel);
    lemma_tagged_add(front, one, channel);
    lemma_tagged_add(front, back, channel);
    lemma_tagged_none(one, channel);
    assert(tagged(front, channel) + Seq::<Request>::empty() =~= tagged(front, channel));
}

/// The responses to the requests of one batch are received in the order in
/// which the requests were handed in, whatever else is done to the
/// retriever meanwhile: the reply that is received as number `k` for the
/// batch answers request `k` of the batch.
pub proof fn lemma_responses_in_order(v: RetrieverView, batch: Seq<Request>, ops: Seq<NetOp>)
    requires
        channels_known(v),
        takes_requests(v),
    ensures
        ({
            let log = received_on(requested(v, batch), ops, v.next_channel);
            &&& log.len() <= batch.len()
            &&& forall|k: int| 0 <= k < log.len() ==> (#[trigger] log[k]).request == batch[k]
        }),
{
    lemma_batch_kept(v, batch, ops);
    let channel = v.next_channel;
    let start = requested(v, batch);
    let log = received_on(start, ops, channel);
    let rest = tagged(pipeline(net_run(start, ops)), channel);
    assert((requests_of(log) + rest).len() == batch.len());
    assert forall|k: int| 0 <= k < log.len() implies (#[trigger] log[k]).request == batch[k] by {
        assert((requests_of(log) + rest)[k] == requests_of(log)[k]);
    }
}

} // verus!

verus! {

/// The requests of the batch `channel` that the retriever still holds, in
/// their order: those that are answered and whose replies wait to be
/// received, the one that is being served, and those that wait.
pub open spec fn held(v: RetrieverView, channel: u64) -> Seq<Request> {
    tagged(pipeline(v), channel)
}

/// Whether anything of the batch `channel` is left in the retriever: a
/// reply to receive, or a request that waits or is being served.
pub open spec fn unfinished(v: RetrieverView, channel: u64) -> bool {
    first_reply(v.replies, channel) < v.replies.len() || outstanding(v, channel)
}

proof fn lemma_tagged_some(items: Seq<(Request, u64)>, channel: u64, i: int)
    requires
        0 <= i < items.len(),
        items[i].1 == channel,
    ensures
        tagged(items, channel).len() > 0,
    decreases items.len(),
{
    if i < items.len() - 1 {
        lemma_tagged_some(items.drop_last(), channel, i);
    }
}

/// The retriever holds a request of a batch exactly while something of the
/// batch is left in it.
proof fn lemma_held(v: RetrieverView, channel: u64)
    ensures
        held(v, channel).len() > 0 <==> unfinished(v, channel),
{
    let items = pipeline(v);
    let served = v.replies.map_values(|reply: Served| (reply.request, reply.channel));
    let working = match v.in_flight {
        Some(job) => seq![job],
        None => Seq::empty(),
    };
    lemma_first_reply(v.replies, channel);
    if unfinished(v, channel) {
        if first_reply(v.replies, channel) < v.replies.len() {
            let i = first_reply(v.replies, channel);
            assert(items[i] == served[i]);
            lemma_tagged_some(items, channel, i);
        } else if v.in_flight matches Some(job) && job.1 == channel {
            assert(items[served.len() as int] == working[0]);
            lemma_tagged_some(items, channel, served.len() as int);
        } else {
            let i = choose|i: int| 0 <= i < v.queue.len() && (#[trigger] v.queue[i]).1 == channel;
            assert(items[served.len() + working.len() + i] == v.queue[i]);
            lemma_tagged_some(items, channel, served.len() + working.len() + i);
        }
    } else {
        assert forall|i: int| 0 <= i < items.len() implies (#[trigger] items[i]).1 != channel by {
            if i < served.len() {
                assert(items[i] == served[i]);
                assert(v.replies[i].channel != channel);
            } else if i < served.len() + working.len() {
                assert(items[i] == working[i - served.len()]);
            } else {
                assert(items[i] == v.queue[i - served.len() - working.len()]);
            }
        }
        lemma_tagged_none(items, channel);
    }
}

/// Of a batch no response is lost and none comes twice, whatever else is
/// done to the retriever meanwhile: the requests whose responses were
/// received, followed by those that the retriever still holds, are the
/// batch. So exactly as many responses are received as there are requests
/// in the batch, one for each; and once that many are received nothing of
/// the batch is left: no reply waits, and no request waits or is served.
pub proof fn lemma_responses_complete(v: RetrieverView, batch: Seq<Request>, ops: Seq<NetOp>)
    requires
        channels_known(v),
        takes_requests(v),
    ensures
        ({
            let channel = v.next_channel;
            let start = requested(v, batch);
            let end = net_run(start, ops);
            let log = received_on(start, ops, channel);
            &&& requests_of(log) + held(end, channel) == batch
            &&& log.len() + held(end, channel).len() == batch.len()
            &&& log.len() == batch.len() <==> !unfinished(end, channel)
        }),
{
    let channel = v.next_channel;
    let start = requested(v, batch);
    let end = net_run(start, ops);
    let log = received_on(start, ops, channel);
    lemma_batch_kept(v, batch, ops);
    lemma_held(end, channel);
    assert((requests_of(log) + held(end, channel)).len() == log.len() + held(end, channel).len());
}

} // verus!
