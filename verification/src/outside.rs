//! What the library takes from the `url` crate: the host and the origin of a URL.

use crate::store::opt_text;
use vstd::prelude::*;

verus! {

/// The host that the `url` crate finds in `href`: what `Url::host_str` gives
/// for the URL that `Url::parse` makes of the text, and nothing where the
/// text is no absolute URL or the URL has no host.
pub uninterp spec fn url_host(href: Seq<char>) -> Option<Seq<char>>;

/// Calls `url::Url::parse` on `href` and `Url::host_str` on what it gives.
/// The contract names the result; both calls depend on the text alone.
#[verifier::external_body]
pub(crate) fn host_of(href: &str) -> (r: Option<String>)
    ensures
        opt_text(r) == url_host(href@),
{
    match url::Url::parse(href) {
        Ok(parsed) => match parsed.host_str() {
            Some(host) => Some(host.to_owned()),
            None => None,
        },
        Err(_) => None,
    }
}

/// The origin that the `url` crate finds in `href`, in its ASCII form: what
/// `Origin::ascii_serialization` gives for `Url::origin` of the URL that
/// `Url::parse` makes of the text, and nothing where the text is no
/// absolute URL. An origin that is no scheme, host and port reads `null`.
pub uninterp spec fn url_origin(href: Seq<char>) -> Option<Seq<char>>;

/// Calls `url::Url::parse` on `href`, then `Url::origin` and
/// `Origin::ascii_serialization` on what it gives. The contract names the
/// result; the calls depend on the text alone.
#[verifier::external_body]
pub(crate) fn origin_of(href: &str) -> (r: Option<String>)
    ensures
        opt_text(r) == url_origin(href@),
{
    match url::Url::parse(href) {
        Ok(parsed) => Some(parsed.origin().ascii_serialization()),
        Err(_) => None,
    }
}

} // verus!
