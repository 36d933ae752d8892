//! Addresses.
use vstd::prelude::*;
use crate::text::opt_text;

verus! {

/// The scheme, the host and the path that `Url::parse` finds in a text.
pub uninterp spec fn url_parts(text: Seq<char>) -> Option<
    (Seq<char>, Option<Seq<char>>, Seq<char>),
>;

/// The address that `Url::parse` and `Url::set_fragment` make of a text and a
/// fragment, or the words of the parse error.
pub uninterp spec fn url_with_fragment(text: Seq<char>, fragment: Seq<char>) -> Result<
    Seq<char>,
    Seq<char>,
>;

/// The parts of an address that decisions are made on.
#[derive(Debug)]
pub struct UrlParts {
    pub scheme: String,
    pub host: Option<String>,
    pub path: String,
}

pub open spec fn parts_view(parts: Option<UrlParts>) -> Option<
    (Seq<char>, Option<Seq<char>>, Seq<char>),
> {
    match parts {
        Some(p) => Some((p.scheme@, opt_text(p.host), p.path@)),
        None => None,
    }
}

/// `url::Url::parse`, then `scheme`, `host_str` and `path` of what it found.
#[verifier::external_body]
pub(crate) fn parse_url(text: &str) -> (parts: Option<UrlParts>)
    ensures
        parts_view(parts) == url_parts(text@),
{
    match url::Url::parse(text) {
        Ok(url) => Some(
            UrlParts {
                scheme: url.scheme().to_owned(),
                host: url.host_str().map(str::to_owned),
                path: url.path().to_owned(),
            },
        ),
        Err(_) => None,
    }
}

pub open spec fn result_view(result: Result<String, String>) -> Result<Seq<char>, Seq<char>> {
    match result {
        Ok(t) => Ok(t@),
        Err(e) => Err(e@),
    }
}

/// `url::Url::parse`, then `set_fragment`, as a text. The error is the parse
/// error's own words. The fragment is percent-encoded by `set_fragment`, which
/// notes in four bytes where the fragment begins. A text of fewer than 2^28
/// characters stays within that: none takes more than sixteen bytes in an
/// address, four bytes of UTF-8 at three characters each being twelve.
#[verifier::external_body]
pub(crate) fn with_fragment(text: &str, fragment: &str) -> (address: Result<String, String>)
    requires
        text@.len() < 0x1000_0000,
    ensures
        result_view(address) == url_with_fragment(text@, fragment@),
{
    match url::Url::parse(text) {
        Ok(mut url) => {
            url.set_fragment(Some(fragment));
            Ok(url.to_string())
        },
        Err(error) => Err(error.to_string()),
    }
}

} // verus!
