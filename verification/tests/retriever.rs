use toot_3d::error::ClientError;
use toot_3d::net::curl::{check_c_string, CurlError, Easy, Mime};
use toot_3d::net::retriever::{
    authorized, finish_request, make_request, HttpError, Method, Request, Retriever,
};

fn get(url: &str) -> Request {
    Request { method: Method::Get, url: url.to_string() }
}

fn body(response: Option<Result<Vec<u8>, ClientError>>) -> Vec<u8> {
    response.unwrap().ok().unwrap()
}

#[test]
fn responses_of_a_batch_come_in_the_order_of_its_requests() {
    let mut retriever = Retriever::new();
    let first = retriever.request(vec![get("a"), get("b"), get("c")]).unwrap();
    let second = retriever.request(vec![get("x"), get("y")]).unwrap();
    // the worker answers each request with its URL
    while let Some(job) = retriever.next_job() {
        retriever.complete(Ok(job.request.url.into_bytes()));
    }
    // the batches can be received in any order
    assert_eq!(body(retriever.recv(&second)), b"x");
    assert_eq!(body(retriever.recv(&first)), b"a");
    assert_eq!(body(retriever.recv(&first)), b"b");
    assert_eq!(body(retriever.recv(&second)), b"y");
    assert_eq!(body(retriever.recv(&first)), b"c");
    assert!(retriever.recv(&first).is_none());
    assert!(retriever.recv(&second).is_none());
}

#[test]
fn responses_come_in_order_while_requests_are_still_served() {
    let mut retriever = Retriever::new();
    let rx = retriever.request(vec![get("1"), get("2"), get("3")]).unwrap();
    assert!(retriever.recv(&rx).is_none());
    assert!(retriever.pending(&rx));
    let job = retriever.next_job().unwrap();
    assert_eq!(job.request.url, "1");
    // one request at a time: there is no second job before the first is done
    assert!(retriever.next_job().is_none());
    assert!(retriever.recv(&rx).is_none());
    assert!(retriever.pending(&rx));
    retriever.complete(Ok(vec![1]));
    assert_eq!(body(retriever.recv(&rx)), vec![1]);
    let other = retriever.request(vec![get("other")]).unwrap();
    for expected in [2u8, 3] {
        let job = retriever.next_job().unwrap();
        assert_eq!(job.request.url, expected.to_string());
        retriever.complete(Ok(vec![expected]));
    }
    assert!(!retriever.pending(&rx));
    assert!(retriever.pending(&other));
    assert_eq!(body(retriever.recv(&rx)), vec![2]);
    assert_eq!(body(retriever.recv(&rx)), vec![3]);
    assert!(retriever.recv(&rx).is_none());
}

#[test]
fn an_empty_batch_has_no_responses() {
    let mut retriever = Retriever::new();
    let rx = retriever.request(vec![]).unwrap();
    assert!(retriever.next_job().is_none());
    assert!(retriever.recv(&rx).is_none());
    assert!(!retriever.pending(&rx));
}

#[test]
fn errors_are_replies_like_any_other() {
    let mut retriever = Retriever::new();
    let rx = retriever.request(vec![get("a"), get("b")]).unwrap();
    retriever.next_job().unwrap();
    retriever.complete(Err(ClientError::Http(HttpError(404))));
    retriever.next_job().unwrap();
    retriever.complete(Ok(vec![7]));
    assert!(matches!(retriever.recv(&rx), Some(Err(ClientError::Http(HttpError(404))))));
    assert_eq!(body(retriever.recv(&rx)), vec![7]);
}

#[test]
fn a_closed_retriever_serves_what_waits_and_takes_no_more() {
    let mut retriever = Retriever::new();
    let rx = retriever.request(vec![get("a")]).unwrap();
    retriever.close();
    assert!(retriever.is_open());
    assert!(retriever.request(vec![get("b")]).is_none());
    let job = retriever.next_job().unwrap();
    assert_eq!(job.request.url, "a");
    assert!(!retriever.is_open());
    retriever.complete(Ok(vec![]));
    assert_eq!(body(retriever.recv(&rx)), Vec::<u8>::new());
    // a report without a job changes nothing
    retriever.complete(Ok(vec![1]));
    assert!(retriever.recv(&rx).is_none());
}

#[test]
fn a_job_carries_the_token_of_the_time_it_was_taken() {
    let mut retriever = Retriever::new();
    retriever.set_instance("a.example".to_string());
    retriever.set_token("first".to_string());
    retriever.request(vec![get("1"), get("2")]).unwrap();
    let job = retriever.next_job().unwrap();
    retriever.set_token("second".to_string());
    assert_eq!((job.instance.as_str(), job.token.as_str()), ("a.example", "first"));
    retriever.complete(Ok(vec![]));
    let job = retriever.next_job().unwrap();
    assert_eq!(job.token, "second");
}

#[test]
fn token_and_instance_can_be_set() {
    let mut retriever = Retriever::new();
    assert_eq!(retriever.instance(), "");
    assert_eq!(retriever.token(), "");
    retriever.set_instance("example.social".to_string());
    retriever.set_token("secret".to_string());
    assert_eq!(retriever.instance(), "example.social");
    assert_eq!(retriever.token(), "secret");
}

#[test]
fn the_token_goes_to_the_instance_only() {
    let mut easy = Easy::new();
    make_request(&mut easy, get("https://example.social/api/v1/x"), "example.social", "secret")
        .ok()
        .unwrap();
    assert_eq!(easy.get_bearer(), &Some("secret".to_string()));
    assert_eq!(easy.get_url(), "https://example.social/api/v1/x");
    assert!(!easy.get_verify());
    assert!(easy.get_mime().is_none());
    make_request(&mut easy, get("https://cdn.other.example/avatar.png"), "example.social", "secret")
        .ok()
        .unwrap();
    assert_eq!(easy.get_bearer(), &None);
    assert_eq!(easy.get_url(), "https://cdn.other.example/avatar.png");
}

#[test]
fn no_token_is_sent_where_there_is_none_or_the_host_differs() {
    let mut easy = Easy::new();
    let send = |easy: &mut Easy, url: &str, instance: &str, token: &str| {
        make_request(easy, get(url), instance, token).ok().unwrap();
        easy.get_bearer().clone()
    };
    assert_eq!(send(&mut easy, "https://example.social/x", "example.social", ""), None);
    // the names are compared as they are spelled
    assert_eq!(send(&mut easy, "https://example.social/x", "Example.Social", "t"), None);
    assert_eq!(send(&mut easy, "https://sub.example.social/x", "example.social", "t"), None);
    assert_eq!(send(&mut easy, "https://127.0.0.1/x", "127.0.0.1", "t"), None);
    assert_eq!(
        send(&mut easy, "https://example.social:8443/x?y=z", "example.social", "t"),
        Some("t".to_string())
    );
    // the url crate writes the host in lower case
    assert_eq!(
        send(&mut easy, "https://EXAMPLE.social/x", "example.social", "t"),
        Some("t".to_string())
    );
}

#[test]
fn authorized_compares_domain_and_instance() {
    assert!(authorized("t", "a.example", &Some("a.example".to_string())));
    assert!(!authorized("", "a.example", &Some("a.example".to_string())));
    assert!(!authorized("t", "a.example", &Some("b.example".to_string())));
    assert!(!authorized("t", "a.example", &None));
    assert!(!authorized("t", "", &None));
    assert!(authorized("t", "", &Some(String::new())));
}

#[test]
fn a_url_is_parsed_only_where_there_is_a_token() {
    let mut easy = Easy::new();
    assert!(make_request(&mut easy, get("not a url"), "example.social", "").is_ok());
    assert!(matches!(
        make_request(&mut easy, get("not a url"), "example.social", "t"),
        Err(ClientError::Url(_))
    ));
    // the session has the URL, and no token
    assert_eq!(easy.get_url(), "not a url");
    assert_eq!(easy.get_bearer(), &None);
}

#[test]
fn texts_with_a_nul_are_refused() {
    let mut easy = Easy::new();
    assert!(matches!(
        make_request(&mut easy, get("https://a.example/\0"), "a.example", ""),
        Err(ClientError::Nul(_))
    ));
    assert!(matches!(
        make_request(&mut easy, get("https://a.example/"), "a.example", "to\0ken"),
        Err(ClientError::Nul(_))
    ));
    // a token that is not sent is not looked at
    assert!(make_request(&mut easy, get("https://b.example/"), "a.example", "to\0ken").is_ok());
    let bad = Request {
        method: Method::Post(vec![("ok", vec![1]), ("b\0d", vec![2])]),
        url: "https://a.example/".to_string(),
    };
    assert!(matches!(make_request(&mut easy, bad, "a.example", ""), Err(ClientError::Nul(_))));
    assert!(check_c_string("fine").is_ok());
    assert!(check_c_string("").is_ok());
    assert!(check_c_string("\0").is_err());
}

#[test]
fn a_post_carries_its_form() {
    let mut easy = Easy::new();
    easy.write(b"left over");
    let request = Request {
        method: Method::Post(vec![("a", vec![1, 2]), ("b", vec![])]),
        url: "https://a.example/".to_string(),
    };
    make_request(&mut easy, request, "a.example", "").ok().unwrap();
    let parts = easy.get_mime().as_ref().unwrap().parts();
    assert_eq!(parts, &vec![("a".to_string(), vec![1u8, 2]), ("b".to_string(), vec![])]);
    // what was received before is gone
    assert_eq!(easy.buffer(), Vec::<u8>::new());
    // a get after a post posts nothing
    make_request(&mut easy, get("https://a.example/"), "a.example", "").ok().unwrap();
    assert!(easy.get_mime().is_none());
}

#[test]
fn only_a_status_of_success_gives_the_body() {
    for status in [200u16, 201, 204, 299] {
        let mut easy = Easy::new();
        easy.write(b"bo");
        easy.write(b"dy");
        let response = finish_request(&mut easy, Ok(status));
        assert_eq!(response.ok().unwrap(), b"body");
        assert_eq!(easy.buffer(), Vec::<u8>::new());
    }
    for status in [0u16, 100, 199, 300, 301, 401, 404, 500] {
        let mut easy = Easy::new();
        easy.write(b"body");
        let response = finish_request(&mut easy, Ok(status));
        assert!(matches!(response, Err(ClientError::Http(HttpError(s))) if s == status));
        assert_eq!(easy.buffer(), Vec::<u8>::new());
    }
    let mut easy = Easy::new();
    easy.write(b"body");
    let response = finish_request(&mut easy, Err(CurlError(6)));
    assert!(matches!(response, Err(ClientError::Curl(CurlError(6)))));
    assert_eq!(easy.buffer(), b"body");
}

#[test]
fn a_session_keeps_its_settings() {
    let mut easy = Easy::new();
    assert!(easy.get_verify());
    assert_eq!(easy.get_url(), "");
    assert_eq!(easy.get_bearer(), &None);
    easy.url("https://a.example/").ok().unwrap();
    easy.bearer(Some("t")).ok().unwrap();
    easy.disable_verification();
    assert!(easy.url("bad\0").is_err());
    assert!(easy.bearer(Some("b\0d")).is_err());
    assert_eq!(easy.get_url(), "https://a.example/");
    assert_eq!(easy.get_bearer(), &Some("t".to_string()));
    assert!(!easy.get_verify());
    let mut mime: Mime = easy.mime();
    assert!(mime.parts().is_empty());
    mime.add_part("name", b"data").ok().unwrap();
    assert!(mime.add_part("n\0", b"data").is_err());
    assert_eq!(mime.parts().len(), 1);
    easy.perform_with_mime(mime);
    assert!(easy.get_mime().is_some());
    easy.perform();
    assert!(easy.get_mime().is_none());
    easy.bearer(None).ok().unwrap();
    assert_eq!(easy.get_bearer(), &None);
}

#[test]
fn an_http_error_shows_its_status() {
    assert_eq!(HttpError(404).to_string(), "HTTP error 404");
    assert_eq!(HttpError(0).to_string(), "HTTP error 0");
    assert_eq!(HttpError(7).to_string(), "HTTP error 7");
    assert_eq!(HttpError(10).to_string(), "HTTP error 10");
    assert_eq!(HttpError(65535).to_string(), "HTTP error 65535");
}
