use toot_3d::error::ClientError;
use toot_3d::net::client::{
    api_url, as_query_params, authorize_url, confirm, create_app, home_timeline, post_status,
    token_request, verify, verify_credentials, with_params, Client, ClientData, CLIENT_NAME,
    REDIRECT_URI, SCOPES, WEBSITE,
};
use toot_3d::net::retriever::{HttpError, Method};
use toot_3d::types::{Application, Token};

fn data() -> ClientData {
    ClientData {
        instance: "example.social".to_string(),
        id: "id".to_string(),
        secret: "secret".to_string(),
        token: "token".to_string(),
    }
}

fn form(method: &Method) -> Vec<(&str, &[u8])> {
    match method {
        Method::Post(fields) => fields.iter().map(|(n, d)| (*n, d.as_slice())).collect(),
        Method::Get => panic!("no form"),
    }
}

#[test]
fn api_urls_name_the_instance_and_the_path() {
    assert_eq!(api_url("example.social", "apps"), "https://example.social/api/v1/apps");
    assert_eq!(
        verify_credentials("example.social").url,
        "https://example.social/api/v1/accounts/verify_credentials"
    );
}

#[test]
fn parameters_are_percent_encoded() {
    let params = vec!["a b".to_string(), "ü&=".to_string(), "safe-._~09AZaz".to_string()];
    assert_eq!(
        with_params("u".to_string(), &params),
        "u?a%20b&%C3%BC%26%3D&safe-._~09AZaz"
    );
    assert_eq!(with_params("u".to_string(), &vec![]), "u");
    assert_eq!(with_params("u".to_string(), &vec![String::new()]), "u?");
}

#[test]
fn only_the_values_that_are_given_are_parameters() {
    let mut params = Vec::new();
    as_query_params(&None, &mut params);
    as_query_params(&Some("x".to_string()), &mut params);
    assert_eq!(params, vec!["x"]);
    let request = home_timeline("i", &None, &None, &None, &None);
    assert_eq!(request.url, "https://i/api/v1/timelines/home");
    assert!(matches!(request.method, Method::Get));
    let request = home_timeline("i", &Some("9".to_string()), &None, &None, &Some("2 0".to_string()));
    assert_eq!(request.url, "https://i/api/v1/timelines/home?9&2%200");
}

#[test]
fn the_application_registers_with_its_names() {
    let request = create_app("i", CLIENT_NAME, REDIRECT_URI, SCOPES, WEBSITE);
    assert_eq!(request.url, "https://i/api/v1/apps");
    assert_eq!(
        form(&request.method),
        vec![
            ("client_name", &b"Toot 3D"[..]),
            ("redirect_uris", &b"urn:ietf:wg:oauth:2.0:oob"[..]),
            ("scopes", &b"read write push"[..]),
            ("website", &b"https://github.com/spazzylemons/toot-3d"[..]),
        ]
    );
    let request = post_status("i", "héllo");
    assert_eq!(request.url, "https://i/api/v1/statuses");
    assert_eq!(form(&request.method), vec![("status", "héllo".as_bytes())]);
}

#[test]
fn the_token_is_asked_for_with_the_code() {
    assert_eq!(
        authorize_url("example.social", "abc"),
        "https://example.social/oauth/authorize?client_id=abc&scope=read+write+push&redirect_uri=urn:ietf:wg:oauth:2.0:oob&response_type=code"
    );
    let request = token_request(&data(), "1234");
    assert_eq!(request.url, "https://example.social/oauth/token");
    assert_eq!(
        form(&request.method),
        vec![
            ("client_id", &b"id"[..]),
            ("client_secret", &b"secret"[..]),
            ("redirect_uri", &b"urn:ietf:wg:oauth:2.0:oob"[..]),
            ("grant_type", &b"authorization_code"[..]),
            ("code", &b"1234"[..]),
            ("scope", &b"read write push"[..]),
        ]
    );
}

#[test]
fn status_401_says_that_the_token_is_not_taken() {
    assert!(matches!(verify(Ok(())), Ok(true)));
    assert!(matches!(verify(Err(ClientError::Http(HttpError(401)))), Ok(false)));
    assert!(matches!(
        verify(Err(ClientError::Http(HttpError(403)))),
        Err(ClientError::Http(HttpError(403)))
    ));
    assert!(matches!(verify(Err(ClientError::NoHandle)), Err(ClientError::NoHandle)));
    assert!(confirm(true).is_ok());
    assert!(matches!(confirm(false), Err(ClientError::Unauthorized)));
}

#[test]
fn the_client_keeps_what_the_instance_gives() {
    let mut client = Client::new(ClientData::new());
    assert_eq!(client.data().instance, "");
    client.set_instance("example.social".to_string());
    assert_eq!(client.retriever().instance(), "example.social");
    let app = |id: Option<&str>, secret: Option<&str>| Application {
        name: "Toot 3D".to_string(),
        website: None,
        vapid_key: String::new(),
        client_id: id.map(|s| s.to_string()),
        client_secret: secret.map(|s| s.to_string()),
    };
    assert!(matches!(client.register(app(None, Some("s"))), Err(ClientError::MissingAuth)));
    assert!(matches!(client.register(app(Some("i"), None)), Err(ClientError::MissingAuth)));
    assert_eq!(client.data().id, "");
    client.register(app(Some("i"), Some("s"))).ok().unwrap();
    assert_eq!((client.data().id.as_str(), client.data().secret.as_str()), ("i", "s"));
    client.accept_token(Token {
        access_token: "t".to_string(),
        token_type: "Bearer".to_string(),
        scope: "read".to_string(),
        created_at: 0,
    });
    assert_eq!(client.data().token, "t");
    assert_eq!(client.retriever().token(), "t");
}

#[test]
fn the_client_asks_by_way_of_its_retriever() {
    let mut client = Client::new(data());
    assert_eq!(client.retriever().token(), "token");
    assert_eq!(client.retriever().instance(), "example.social");
    let first = client.get("https://a/").unwrap();
    let second = client.post("https://b/", vec![("k", vec![1])]).unwrap();
    let job = client.retriever().next_job().unwrap();
    assert_eq!(job.request.url, "https://a/");
    assert!(matches!(job.request.method, Method::Get));
    client.retriever().complete(Ok(vec![1]));
    let job = client.retriever().next_job().unwrap();
    assert_eq!(job.request.url, "https://b/");
    assert_eq!(form(&job.request.method), vec![("k", &[1u8][..])]);
    client.retriever().complete(Ok(vec![2]));
    assert_eq!(client.retriever().recv(&second).unwrap().ok().unwrap(), vec![2]);
    assert_eq!(client.retriever().recv(&first).unwrap().ok().unwrap(), vec![1]);
    client.close();
    assert!(client.get("https://c/").is_none());
}

#[test]
fn the_client_asks_for_the_timeline_and_posts() {
    let mut client = Client::new(data());
    client.get_home_timeline().unwrap();
    client.basic_toot("hello").unwrap();
    let job = client.retriever().next_job().unwrap();
    assert_eq!(job.request.url, "https://example.social/api/v1/timelines/home");
    assert!(matches!(job.request.method, Method::Get));
    client.retriever().complete(Ok(vec![]));
    let job = client.retriever().next_job().unwrap();
    assert_eq!(job.request.url, "https://example.social/api/v1/statuses");
    assert_eq!(form(&job.request.method), vec![("status", &b"hello"[..])]);
}
