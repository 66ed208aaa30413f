//! Addresses on the web.
use vstd::prelude::*;

use crate::text::opt_text;

verus! {

/// The parts of an address that a scrape uses.
#[derive(Debug)]
pub struct UriParts {
    /// The host.
    pub host: Option<String>,
    /// The port, where the address names one.
    pub port: Option<u16>,
    /// The whole address.
    pub text: String,
}

/// The parts of an address, read as characters: host, port and the whole.
pub type UriView = (Option<Seq<char>>, Option<u16>, Seq<char>);

impl View for UriParts {
    type V = UriView;

    open spec fn view(&self) -> UriView {
        (opt_text(self.host), self.port, self.text@)
    }
}

/// What `http::Uri` makes of a text: its host, its port and the text that it is
/// written back as; none where the text is no address.
pub uninterp spec fn uri_of(text: Seq<char>) -> Option<UriView>;

/// `http::Uri`: parses a text as an address and reads its parts. Two calls on one
/// text give the same.
#[verifier::external_body]
pub(crate) fn parse_uri(text: &str) -> (r: Option<UriParts>)
    ensures
        match r {
            Some(u) => uri_of(text@) == Some(u@),
            None => uri_of(text@) is None,
        },
{
    match text.parse::<http::Uri>() {
        Ok(u) => Some(
            UriParts {
                host: u.host().map(|h| h.to_string()),
                port: u.port_u16(),
                text: u.to_string(),
            },
        ),
        Err(_) => None,
    }
}

impl UriParts {
    /// The parts of the address that a text stands for.
    pub fn parse(text: &str) -> (r: Option<UriParts>)
        ensures
            match r {
                Some(u) => uri_of(text@) == Some(u@),
                None => uri_of(text@) is None,
            },
    {
        parse_uri(text)
    }
}

} // verus!
