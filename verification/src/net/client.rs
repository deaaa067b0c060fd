//! The client of an instance: what it asks the instance, and what it makes
//! of the answers.

use crate::error::ClientError;
use crate::net::encode::{encode, percent_encoded};
use crate::net::retriever::{HttpError, Method, Receiver, Request, Retriever, RetrieverView};
use crate::types::{Application, Token};
use vstd::prelude::*;
use vstd::string::{StrSliceExecFns, StringExecFns, StringSliceAdditionalSpecFns};

verus! {

/// Where the user is sent back to after the authorization: nowhere, the
/// code is shown instead.
pub const REDIRECT_URI: &'static str = "urn:ietf:wg:oauth:2.0:oob";

/// What the application asks to be allowed.
pub const SCOPES: &'static str = "read write push";

/// The home of the application.
pub const WEBSITE: &'static str = "https://github.com/spazzylemons/toot-3d";

/// The name of the application.
pub const CLIENT_NAME: &'static str = "Toot 3D";

/// What the client remembers from one run to the next.
pub struct ClientData {
    pub instance: String,
    pub id: String,
    pub secret: String,
    pub token: String,
}

impl ClientData {
    /// The data of a client that has not been set up.
    pub fn new() -> (data: Self)
        ensures
            data.instance@ == Seq::<char>::empty(),
            data.id@ == Seq::<char>::empty(),
            data.secret@ == Seq::<char>::empty(),
            data.token@ == Seq::<char>::empty(),
    {
        ClientData {
            instance: String::new(),
            id: String::new(),
            secret: String::new(),
            token: String::new(),
        }
    }
}

/// The URL of an endpoint of the API of an instance.
pub open spec fn spec_api_url(instance: Seq<char>, path: Seq<char>) -> Seq<char> {
    "https://"@ + instance + "/api/v1/"@ + path
}

/// The URL of an endpoint of the API of an instance.
pub fn api_url(instance: &str, path: &str) -> (url: String)
    ensures
        url@ == spec_api_url(instance@, path@),
{
    let mut url = "https://".to_owned();
    url.append(instance);
    url.append("/api/v1/");
    url.append(path);
    url
}

/// The encoded text of a parameter.
pub open spec fn param_text(param: String) -> Seq<char> {
    percent_encoded(vstd::utf8::encode_utf8(param@))
}

/// `url` with the first `k` of `params` behind it, each percent-encoded:
/// the first after a question mark, the others after an ampersand each.
pub open spec fn spec_with_params(url: Seq<char>, params: Seq<String>, k: int) -> Seq<char>
    decreases k,
{
    if k <= 0 {
        url
    } else {
        spec_with_params(url, params, k - 1) + seq![
            if k == 1 {
                '?'
            } else {
                '&'
            },
        ] + param_text(params[k - 1])
    }
}

/// `url` with `params` behind it, each percent-encoded.
pub fn with_params(url: String, params: &Vec<String>) -> (full: String)
    ensures
        full@ == spec_with_params(url@, params@, params@.len() as int),
{
    proof {
        reveal_strlit("?");
        reveal_strlit("&");
    }
    assert("?"@ =~= seq!['?']);
    assert("&"@ =~= seq!['&']);
    let mut full = url;
    let mut i: usize = 0;
    while i < params.len()
        invariant
            i <= params@.len(),
            full@ == spec_with_params(url@, params@, i as int),
            "?"@ == seq!['?'],
            "&"@ == seq!['&'],
        decreases params@.len() - i,
    {
        if i == 0 {
            full.append("?");
        } else {
            full.append("&");
        }
        let encoded = encode(params[i].as_str());
        full.append(encoded.as_str());
        i = i + 1;
    }
    full
}

/// The parameters that an optional value gives: itself, or none.
pub fn as_query_params(value: &Option<String>, params: &mut Vec<String>)
    ensures
        final(params)@ == match value {
            Some(text) => old(params)@.push(*text),
            None => old(params)@,
        },
{
    match value {
        Some(text) => {
            params.push(text.clone());
        },
        None => {},
    }
}

/// The request for the home timeline. The values that are given follow
/// the URL in the order `max_id`, `since_id`, `min_id`, `limit`.
pub fn home_timeline(
    instance: &str,
    max_id: &Option<String>,
    since_id: &Option<String>,
    min_id: &Option<String>,
    limit: &Option<String>,
) -> (request: Request)
    ensures
        request.method is Get,
        ({
            let with_max = match max_id {
                Some(text) => seq![*text],
                None => Seq::<String>::empty(),
            };
            let with_since = match since_id {
                Some(text) => with_max.push(*text),
                None => with_max,
            };
            let with_min = match min_id {
                Some(text) => with_since.push(*text),
                None => with_since,
            };
            let params = match limit {
                Some(text) => with_min.push(*text),
                None => with_min,
            };
            request.url@ == spec_with_params(
                spec_api_url(instance@, "timelines/home"@),
                params,
                params.len() as int,
            )
        }),
{
    let mut params: Vec<String> = Vec::new();
    as_query_params(max_id, &mut params);
    as_query_params(since_id, &mut params);
    as_query_params(min_id, &mut params);
    as_query_params(limit, &mut params);
    let url = with_params(api_url(instance, "timelines/home"), &params);
    Request { method: Method::Get, url }
}

/// The request that asks whether the token is taken.
pub fn verify_credentials(instance: &str) -> (request: Request)
    ensures
        request.method is Get,
        request.url@ == spec_api_url(instance@, "accounts/verify_credentials"@),
{
    Request { method: Method::Get, url: api_url(instance, "accounts/verify_credentials") }
}

/// A part of a form: its name, and its text as bytes.
pub open spec fn field(name: &'static str, text: Seq<char>) -> (Seq<char>, Seq<u8>) {
    (name@, vstd::utf8::encode_utf8(text))
}

/// The parts of `fields`, as names and bytes.
pub open spec fn fields_view(fields: Seq<(&'static str, Vec<u8>)>) -> Seq<(Seq<char>, Seq<u8>)> {
    fields.map_values(|part: (&'static str, Vec<u8>)| (part.0@, part.1@))
}

/// Adds a part with the given name and text to a form.
pub fn as_form_parts(text: &str, name: &'static str, fields: &mut Vec<(&'static str, Vec<u8>)>)
    ensures
        fields_view(final(fields)@) == fields_view(old(fields)@).push(field(name, text@)),
{
    fields.push((name, text.as_bytes_vec()));
    assert(fields_view(fields@) =~= fields_view(old(fields)@).push(field(name, text@)));
}

/// The form of a request that posts one, as names and bytes.
pub open spec fn posted(request: Request) -> Option<Seq<(Seq<char>, Seq<u8>)>> {
    match request.method {
        Method::Get => None,
        Method::Post(fields) => Some(fields_view(fields@)),
    }
}

/// The request that registers the application with an instance.
pub fn create_app(
    instance: &str,
    client_name: &str,
    redirect_uris: &str,
    scopes: &str,
    website: &str,
) -> (request: Request)
    ensures
        request.url@ == spec_api_url(instance@, "apps"@),
        posted(request) == Some(
            seq![
                field("client_name", client_name@),
                field("redirect_uris", redirect_uris@),
                field("scopes", scopes@),
                field("website", website@),
            ],
        ),
{
    let mut fields: Vec<(&'static str, Vec<u8>)> = Vec::new();
    assert(fields_view(fields@) =~= Seq::empty());
    as_form_parts(client_name, "client_name", &mut fields);
    as_form_parts(redirect_uris, "redirect_uris", &mut fields);
    as_form_parts(scopes, "scopes", &mut fields);
    as_form_parts(website, "website", &mut fields);
    assert(fields_view(fields@) =~= seq![
        field("client_name", client_name@),
        field("redirect_uris", redirect_uris@),
        field("scopes", scopes@),
        field("website", website@),
    ]);
    Request { method: Method::Post(fields), url: api_url(instance, "apps") }
}

/// The request that posts a status.
pub fn post_status(instance: &str, status: &str) -> (request: Request)
    ensures
        request.url@ == spec_api_url(instance@, "statuses"@),
        posted(request) == Some(seq![field("status", status@)]),
{
    let mut fields: Vec<(&'static str, Vec<u8>)> = Vec::new();
    assert(fields_view(fields@) =~= Seq::empty());
    as_form_parts(status, "status", &mut fields);
    assert(fields_view(fields@) =~= seq![field("status", status@)]);
    Request { method: Method::Post(fields), url: api_url(instance, "statuses") }
}

/// The page on which the user allows the application to use the account.
pub open spec fn spec_authorize_url(instance: Seq<char>, id: Seq<char>) -> Seq<char> {
    "https://"@ + instance + "/oauth/authorize?client_id="@ + id + "&scope=read+write+push"@
        + "&redirect_uri=urn:ietf:wg:oauth:2.0:oob"@ + "&response_type=code"@
}

/// The page on which the user allows the application to use the account.
pub fn authorize_url(instance: &str, id: &str) -> (url: String)
    ensures
        url@ == spec_authorize_url(instance@, id@),
{
    let mut url = "https://".to_owned();
    url.append(instance);
    url.append("/oauth/authorize?client_id=");
    url.append(id);
    url.append("&scope=read+write+push");
    url.append("&redirect_uri=urn:ietf:wg:oauth:2.0:oob");
    url.append("&response_type=code");
    url
}

/// The request that turns the code of an authorization into a token.
pub fn token_request(data: &ClientData, auth_code: &str) -> (request: Request)
    ensures
        request.url@ == "https://"@ + data.instance@ + "/oauth/token"@,
        posted(request) == Some(
            seq![
                field("client_id", data.id@),
                field("client_secret", data.secret@),
                field("redirect_uri", REDIRECT_URI@),
                field("grant_type", "authorization_code"@),
                field("code", auth_code@),
                field("scope", SCOPES@),
            ],
        ),
{
    let mut fields: Vec<(&'static str, Vec<u8>)> = Vec::new();
    assert(fields_view(fields@) =~= Seq::empty());
    as_form_parts(data.id.as_str(), "client_id", &mut fields);
    as_form_parts(data.secret.as_str(), "client_secret", &mut fields);
    as_form_parts(REDIRECT_URI, "redirect_uri", &mut fields);
    as_form_parts("authorization_code", "grant_type", &mut fields);
    as_form_parts(auth_code, "code", &mut fields);
    as_form_parts(SCOPES, "scope", &mut fields);
    assert(fields_view(fields@) =~= seq![
        field("client_id", data.id@),
        field("client_secret", data.secret@),
        field("redirect_uri", REDIRECT_URI@),
        field("grant_type", "authorization_code"@),
        field("code", auth_code@),
        field("scope", SCOPES@),
    ]);
    let mut url = "https://".to_owned();
    url.append(data.instance.as_str());
    url.append("/oauth/token");
    Request { method: Method::Post(fields), url }
}

/// What the answer to `verify_credentials` says of the token: it is taken
/// if the request succeeded, and not if the instance answered with status
/// 401. Any other failure is passed on.
pub fn verify(outcome: Result<(), ClientError>) -> (valid: Result<bool, ClientError>)
    ensures
        match outcome {
            Ok(()) => valid matches Ok(true),
            Err(ClientError::Http(HttpError(401))) => valid matches Ok(false),
            Err(e) => valid == Err::<bool, ClientError>(e),
        },
{
    match outcome {
        Ok(()) => Ok(true),
        Err(ClientError::Http(HttpError(code))) => {
            if code == 401 {
                Ok(false)
            } else {
                Err(ClientError::Http(HttpError(code)))
            }
        },
        Err(e) => Err(e),
    }
}

/// Whether the client that has started may go on: only with a token that
/// is taken.
pub fn confirm(valid: bool) -> (result: Result<(), ClientError>)
    ensures
        match result {
            Ok(()) => valid,
            Err(ClientError::Unauthorized) => !valid,
            Err(_) => false,
        },
{
    if valid {
        Ok(())
    } else {
        Err(ClientError::Unauthorized)
    }
}

/// The client of an instance.
pub struct Client {
    retriever: Retriever,
    data: ClientData,
}

impl Client {
    /// What the retriever of the client holds.
    pub closed spec fn queue(&self) -> RetrieverView {
        self.retriever@
    }

    /// What the client remembers.
    pub closed spec fn stored(&self) -> ClientData {
        self.data
    }

    /// The retriever sends the token of the client to the instance of the
    /// client, and knows its batches.
    pub open spec fn wf(&self) -> bool {
        &&& crate::net::retriever::channels_known(self.queue())
        &&& self.queue().instance == self.stored().instance@
        &&& self.queue().token == self.stored().token@
    }

    /// A client with what it remembers of its last run, and with nothing
    /// to do yet.
    pub fn new(data: ClientData) -> (client: Self)
        ensures
            client.wf(),
            client.stored() == data,
            client.queue() == (RetrieverView {
                queue: Seq::empty(),
                in_flight: None,
                replies: Seq::empty(),
                next_channel: 0,
                instance: data.instance@,
                token: data.token@,
                open: true,
            }),
    {
        let mut retriever = Retriever::new();
        retriever.set_token(data.token.clone());
        retriever.set_instance(data.instance.clone());
        Client { retriever, data }
    }

    /// Asks for `url`. The response comes on the receiver; there is none
    /// if the retriever takes no requests.
    pub fn get(&mut self, url: &str) -> (receiver: Option<Receiver>)
        requires
            old(self).wf(),
        ensures
            final(self).wf(),
            final(self).stored() == old(self).stored(),
            receiver is Some <==> crate::net::retriever::takes_requests(old(self).queue()),
            receiver matches Some(rx) ==> rx.channel() == old(self).queue().next_channel,
            ({
                let after = final(self).queue();
                let before = old(self).queue();
                if receiver is Some {
                    &&& after.queue.len() == before.queue.len() + 1
                    &&& after.queue.drop_last() == before.queue
                    &&& after.queue.last().1 == before.next_channel
                    &&& after.queue.last().0.method is Get
                    &&& after.queue.last().0.url@ == url@
                    &&& after == (RetrieverView {
                        queue: after.queue,
                        next_channel: (before.next_channel + 1) as u64,
                        ..before
                    })
                } else {
                    after == before
                }
            }),
    {
        let request = Request { method: Method::Get, url: url.to_owned() };
        self.send(request)
    }

    /// Posts a form with `fields` to `url`. The response comes on the
    /// receiver; there is none if the retriever takes no requests.
    pub fn post(&mut self, url: &str, fields: Vec<(&'static str, Vec<u8>)>) -> (receiver: Option<
        Receiver,
    >)
        requires
            old(self).wf(),
        ensures
            final(self).wf(),
            final(self).stored() == old(self).stored(),
            receiver is Some <==> crate::net::retriever::takes_requests(old(self).queue()),
            receiver matches Some(rx) ==> rx.channel() == old(self).queue().next_channel,
            ({
                let after = final(self).queue();
                let before = old(self).queue();
                if receiver is Some {
                    &&& after.queue.len() == before.queue.len() + 1
                    &&& after.queue.drop_last() == before.queue
                    &&& after.queue.last().1 == before.next_channel
                    &&& after.queue.last().0.method == Method::Post(fields)
                    &&& after.queue.last().0.url@ == url@
                    &&& after == (RetrieverView {
                        queue: after.queue,
                        next_channel: (before.next_channel + 1) as u64,
                        ..before
                    })
                } else {
                    after == before
                }
            }),
    {
        let request = Request { method: Method::Post(fields), url: url.to_owned() };
        self.send(request)
    }

    /// Hands one request to the retriever.
    pub fn send(&mut self, request: Request) -> (receiver: Option<Receiver>)
        requires
            old(self).wf(),
        ensures
            final(self).wf(),
            final(self).stored() == old(self).stored(),
            receiver is Some <==> crate::net::retriever::takes_requests(old(self).queue()),
            receiver matches Some(rx) ==> rx.channel() == old(self).queue().next_channel,
            ({
                let after = final(self).queue();
                let before = old(self).queue();
                if receiver is Some {
                    &&& after.queue.len() == before.queue.len() + 1
                    &&& after.queue.drop_last() == before.queue
                    &&& after.queue.last() == (request, before.next_channel)
                    &&& after == (RetrieverView {
                        queue: after.queue,
                        next_channel: (before.next_channel + 1) as u64,
                        ..before
                    })
                } else {
                    after == before
                }
            }),
    {
        let mut batch: Vec<Request> = Vec::new();
        batch.push(request);
        let receiver = self.retriever.request(batch);
        proof {
            let before = old(self).queue();
            if crate::net::retriever::takes_requests(before) {
                let tagged = crate::net::retriever::tag(seq![request], before.next_channel);
                assert(tagged =~= seq![(request, before.next_channel)]);
                assert((before.queue + tagged).drop_last() =~= before.queue);
                assert(batch@ =~= seq![request]);
            }
        }
        receiver
    }

    /// Asks for the home timeline of the account.
    pub fn get_home_timeline(&mut self) -> (receiver: Option<Receiver>)
        requires
            old(self).wf(),
        ensures
            final(self).wf(),
            final(self).stored() == old(self).stored(),
            receiver is Some <==> crate::net::retriever::takes_requests(old(self).queue()),
            receiver matches Some(rx) ==> rx.channel() == old(self).queue().next_channel,
            ({
                let after = final(self).queue();
                let before = old(self).queue();
                if receiver is Some {
                    &&& after.queue.len() == before.queue.len() + 1
                    &&& after.queue.drop_last() == before.queue
                    &&& after.queue.last().1 == before.next_channel
                    &&& after.queue.last().0.method is Get
                    &&& after.queue.last().0.url@ == spec_api_url(
                        old(self).stored().instance@,
                        "timelines/home"@,
                    )
                    &&& after == (RetrieverView {
                        queue: after.queue,
                        next_channel: (before.next_channel + 1) as u64,
                        ..before
                    })
                } else {
                    after == before
                }
            }),
    {
        let request = home_timeline(self.data.instance.as_str(), &None, &None, &None, &None);
        self.send(request)
    }

    /// Posts `message` as a status.
    pub fn basic_toot(&mut self, message: &str) -> (receiver: Option<Receiver>)
        requires
            old(self).wf(),
        ensures
            final(self).wf(),
            final(self).stored() == old(self).stored(),
            receiver is Some <==> crate::net::retriever::takes_requests(old(self).queue()),
            receiver matches Some(rx) ==> rx.channel() == old(self).queue().next_channel,
            ({
                let after = final(self).queue();
                let before = old(self).queue();
                if receiver is Some {
                    &&& after.queue.len() == before.queue.len() + 1
                    &&& after.queue.drop_last() == before.queue
                    &&& after.queue.last().1 == before.next_channel
                    &&& posted(after.queue.last().0) == Some(seq![field("status", message@)])
                    &&& after.queue.last().0.url@ == spec_api_url(
                        old(self).stored().instance@,
                        "statuses"@,
                    )
                    &&& after == (RetrieverView {
                        queue: after.queue,
                        next_channel: (before.next_channel + 1) as u64,
                        ..before
                    })
                } else {
                    after == before
                }
            }),
    {
        let request = post_status(self.data.instance.as_str(), message);
        self.send(request)
    }

    /// Takes the instance that the user named.
    pub fn set_instance(&mut self, instance: String)
        requires
            old(self).wf(),
        ensures
            final(self).wf(),
            final(self).stored().instance == instance,
            final(self).stored().id == old(self).stored().id,
            final(self).stored().secret == old(self).stored().secret,
            final(self).stored().token == old(self).stored().token,
            final(self).queue() == (RetrieverView { instance: instance@, ..old(self).queue() }),
    {
        self.retriever.set_instance(instance.clone());
        self.data.instance = instance;
    }

    /// Takes the names under which the instance has registered the
    /// application. It fails, and changes nothing, if the instance gave no
    /// identifier or no secret.
    pub fn register(&mut self, app: Application) -> (result: Result<(), ClientError>)
        ensures
            final(self).queue() == old(self).queue(),
            final(self).stored().instance == old(self).stored().instance,
            final(self).stored().token == old(self).stored().token,
            match result {
                Ok(()) => app.client_id == Some(final(self).stored().id) && app.client_secret
                    == Some(final(self).stored().secret),
                Err(ClientError::MissingAuth) => (app.client_id is None || app.client_secret
                    is None) && final(self).stored() == old(self).stored(),
                Err(_) => false,
            },
    {
        match (app.client_id, app.client_secret) {
            (Some(id), Some(secret)) => {
                self.data.id = id;
                self.data.secret = secret;
                Ok(())
            },
            _ => Err(ClientError::MissingAuth),
        }
    }

    /// Takes the token that the instance has given.
    pub fn accept_token(&mut self, token: Token)
        requires
            old(self).wf(),
        ensures
            final(self).wf(),
            final(self).stored().token == token.access_token,
            final(self).stored().instance == old(self).stored().instance,
            final(self).stored().id == old(self).stored().id,
            final(self).stored().secret == old(self).stored().secret,
            final(self).queue() == (RetrieverView {
                token: token.access_token@,
                ..old(self).queue()
            }),
    {
        self.retriever.set_token(token.access_token.clone());
        self.data.token = token.access_token;
    }

    /// What the client remembers, to save it.
    pub fn data(&self) -> (data: &ClientData)
        ensures
            *data == self.stored(),
    {
        &self.data
    }

    /// The retriever of the client.
    pub fn retriever(&mut self) -> (retriever: &mut Retriever)
        ensures
            retriever@ == old(self).queue(),
            final(self).queue() == final(retriever)@,
            final(self).stored() == old(self).stored(),
    {
        &mut self.retriever
    }

    /// Stops taking requests. The requests that wait are still served.
    pub fn close(&mut self)
        requires
            old(self).wf(),
        ensures
            final(self).wf(),
            final(self).stored() == old(self).stored(),
            final(self).queue() == (RetrieverView { open: false, ..old(self).queue() }),
    {
        self.retriever.close();
    }
}

} // verus!
