//! The domain that a URL names.
//!
//! URLs are parsed by the `url` crate. Nothing in this file is proved.

use std::str::FromStr;
use url::Url;
use vstd::prelude::*;

verus! {

/// `url::ParseError`: why a text is no URL. It is handed on as it is.
#[verifier::external_type_specification]
#[verifier::external_body]
pub struct ExParseError(url::ParseError);

/// What the `url` crate finds in `url`: `None` if it is no absolute URL,
/// else the domain name of its host, if it has a host and the host is a
/// domain name and not an IP address.
pub uninterp spec fn url_domain(url: Seq<char>) -> Option<Option<Seq<char>>>;

/// `Url::from_str` and then `Url::domain`: the domain name of the host of
/// `url`, or the error with which `url` was refused.
#[verifier::external_body]
pub(crate) fn parse_domain(url: &str) -> (domain: Result<Option<String>, url::ParseError>)
    ensures
        match domain {
            Ok(Some(name)) => url_domain(url@) == Some(Some(name@)),
            Ok(None) => url_domain(url@) == Some(None::<Seq<char>>),
            Err(_) => url_domain(url@) is None,
        },
{
    let parsed = Url::from_str(url)?;
    Ok(
        match parsed.domain() {
            Some(name) => Some(name.to_owned()),
            None => None,
        },
    )
}

} // verus!
