//! Target validation: a user-supplied URL string is parsed once, at
//! construction, and every later consumer works with a guaranteed
//! well-formed handle.
//!
//! Parsing itself is delegated to the `url` crate; what the engine reads of
//! the parsed value — its normalized text and its last path segment — is
//! carried in plain fields.

use vstd::prelude::*;

use crate::errors::InvalidUrl;

verus! {

/// Whether the `url` crate accepts `s` as an absolute URL.
pub uninterp spec fn url_accepts(s: Seq<char>) -> bool;

/// The normalized serialization of the URL parsed from `s`.
pub uninterp spec fn url_text(s: Seq<char>) -> Seq<char>;

/// The last segment of the parsed URL's path, when the URL has a
/// segmentable path.
pub uninterp spec fn url_last_segment(s: Seq<char>) -> Option<Seq<char>>;

/// A validated absolute URL.
///
/// Never constructed from an unparsable string: `new` is the only
/// constructor and it fails on anything the parser rejects.
#[derive(Debug)]
pub struct ValidUrl {
    text: String,
    last_segment: Option<String>,
}

impl View for ValidUrl {
    type V = Seq<char>;

    /// The normalized text of the URL.
    closed spec fn view(&self) -> Seq<char> {
        self.text@
    }
}

impl ValidUrl {
    /// The last segment of the URL's path, when it has one.
    pub closed spec fn spec_last_segment(&self) -> Option<Seq<char>> {
        self.last_segment.deep_view()
    }

    /// The handle describes itself: its text is a fixpoint of parsing (the
    /// parser accepts it and re-serializes it unchanged) and its last
    /// segment is the one parsed from that text. In particular, `new` on
    /// `as_str`'s result succeeds and rebuilds an equal handle.
    pub open spec fn wf(&self) -> bool {
        &&& url_accepts(self@)
        &&& url_text(self@) == self@
        &&& url_last_segment(self@) == self.spec_last_segment()
    }

    /// Creates a `ValidUrl` from a string: succeeds exactly on the strings
    /// the URL parser accepts, and then carries the parser's normalized
    /// text and the URL's last path segment.
    pub fn new(url: &str) -> (r: Result<Self, InvalidUrl>)
        ensures
            r is Ok <==> url_accepts(url@),
            r matches Ok(u) ==> u@ == url_text(url@) && u.spec_last_segment() == url_last_segment(
                url@,
            ),
            r matches Ok(u) ==> u.wf(),
    {
        match parse_url_parts(url) {
            Ok((text, last_segment)) => Ok(ValidUrl { text, last_segment }),
            Err(e) => Err(InvalidUrl(e)),
        }
    }

    /// The string representation of the URL. For a well-formed handle this
    /// text re-parses to an equal handle (see `wf`).
    pub fn as_str(&self) -> (r: &str)
        ensures
            r@ == self@,
    {
        self.text.as_str()
    }

    /// The last segment of the URL's path, when it has one.
    pub fn last_path_segment(&self) -> (r: Option<&str>)
        ensures
            r.deep_view() == self.spec_last_segment(),
    {
        match &self.last_segment {
            Some(s) => Some(s.as_str()),
            None => None,
        }
    }
}

impl Clone for ValidUrl {
    fn clone(&self) -> (r: Self)
        ensures
            r@ == self@,
            r.spec_last_segment() == self.spec_last_segment(),
            self.wf() ==> r.wf(),
    {
        ValidUrl {
            text: self.text.clone(),
            last_segment: crate::headers::clone_opt_string(&self.last_segment),
        }
    }
}

/// Relies on `url::Url::parse` to decide which strings are well-formed
/// absolute URLs, on `url::Url::as_str` for the normalized serialization,
/// and on `url::Url::path_segments` for the final path segment.
///
/// The re-parse clauses rely on the crate's own invariant (its
/// `check_invariants` self-check): parsing a URL's serialization succeeds
/// and yields the identical serialization with identical path, query, and
/// fragment boundaries, so the last path segment is also unchanged.
#[verifier::external_body]
fn parse_url_parts(raw: &str) -> (r: Result<(String, Option<String>), String>)
    ensures
        r is Ok <==> url_accepts(raw@),
        r matches Ok(t) ==> t.0@ == url_text(raw@) && t.1.deep_view() == url_last_segment(raw@),
        r matches Ok(t) ==> url_accepts(t.0@) && url_text(t.0@) == t.0@,
        r matches Ok(t) ==> url_last_segment(t.0@) == t.1.deep_view(),
{
    match url::Url::parse(raw) {
        Ok(u) => {
            let seg = u.path_segments().and_then(|gs| gs.last()).map(|s| s.to_string());
            Ok((u.as_str().to_string(), seg))
        },
        Err(e) => Err(e.to_string()),
    }
}

} // verus!
