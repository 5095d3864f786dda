//! URLs, as far as the library reads them: their scheme, host and port.

use vstd::prelude::*;

use crate::projects::opt_view;

verus! {

/// What `url::Url::parse` makes of a text: `None` where it is no absolute
/// URL, else the scheme, the host (`host_str`) and the explicit port (`port`).
pub uninterp spec fn parsed_url(text: Seq<char>) -> Option<(Seq<char>, Option<Seq<char>>, Option<u16>)>;

/// Calls `reqwest::Url::parse` (the `url` crate's `Url::parse`) and reads
/// `scheme()`, `host_str()` and `port()` of the result. The contract only ties
/// the result to the name `parsed_url`; what a URL parses to is not stated.
#[verifier::external_body]
pub(crate) fn parse_url(text: &str) -> (r: Option<(String, Option<String>, Option<u16>)>)
    ensures
        match r {
            Some((scheme, host, port)) => parsed_url(text@) == Some((scheme@, opt_view(host), port)),
            None => parsed_url(text@) is None,
        },
{
    match reqwest::Url::parse(text) {
        Ok(url) => Some((url.scheme().to_owned(), url.host_str().map(str::to_owned), url.port())),
        Err(_) => None,
    }
}

} // verus!
