use vstd::prelude::*;
use crate::util::str_eq;

verus! {

/// Supported protocols.
#[derive(Clone, Copy, Debug, PartialEq, Eq, Structural)]
pub enum Protocol {
    HTTP,
    HTTPS,
}

/// The scheme that URL parsing extracts from a well-formed URL string, in
/// lower case, or nothing when the string is no URL at all.
pub uninterp spec fn scheme_of(url: Seq<char>) -> Option<Seq<char>>;

/// Relies on hyper::Url::parse (the url crate): parsing is a pure function of
/// the input string, and `scheme()` hands back the parsed scheme, lower-cased.
#[verifier::external_body]
fn parse_scheme(url: &str) -> (r: Option<String>)
    ensures
        r matches Some(s) ==> scheme_of(url@) == Some(s@),
        r is None ==> scheme_of(url@) is None,
{
    match hyper::Url::parse(url) {
        Ok(parsed) => Some(parsed.scheme().to_string()),
        Err(_) => None,
    }
}

/// The protocol behind a parsed scheme: exactly "http" or "https" name a
/// supported protocol, anything else (or an unparsable URL) names none.
pub open spec fn spec_protocol_of(scheme: Option<Seq<char>>) -> Option<Protocol> {
    match scheme {
        Some(s) => if s == "http"@ {
            Some(Protocol::HTTP)
        } else if s == "https"@ {
            Some(Protocol::HTTPS)
        } else {
            None
        },
        None => None,
    }
}

/// Returns an Option type, that contains a Protocol enum.
pub fn get_protocol(url: &str) -> (protocol: Option<Protocol>)
    ensures
        protocol == spec_protocol_of(scheme_of(url@)),
{
    match parse_scheme(url) {
        Some(scheme) => {
            if str_eq(scheme.as_str(), "http") {
                Some(Protocol::HTTP)
            } else if str_eq(scheme.as_str(), "https") {
                Some(Protocol::HTTPS)
            } else {
                None
            }
        },
        None => None,
    }
}

} // verus!
