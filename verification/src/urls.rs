//! URL parsing, done by the `url` crate.
use vstd::prelude::*;

verus! {

/// The parts of a parsed URL that the library reads.
pub struct UrlParts {
    /// The host, as `Url::host_str` gives it.
    pub host: Option<String>,
    /// The path segments, as `Url::path_segments` gives them.
    pub segments: Option<Vec<String>>,
}

pub open spec fn opt_str_view(o: Option<String>) -> Option<Seq<char>> {
    match o {
        Some(s) => Some(s@),
        None => None,
    }
}

pub open spec fn strings_view(v: Seq<String>) -> Seq<Seq<char>> {
    v.map_values(|s: String| s@)
}

impl View for UrlParts {
    type V = (Option<Seq<char>>, Option<Seq<Seq<char>>>);

    open spec fn view(&self) -> Self::V {
        (
            opt_str_view(self.host),
            match self.segments {
                Some(v) => Some(strings_view(v@)),
                None => None,
            },
        )
    }
}

/// Host and path segments of `input` read as an absolute URL, or `None`
/// where the text is no URL.
pub uninterp spec fn parsed_url(input: Seq<char>) -> Option<(Option<Seq<char>>, Option<Seq<Seq<char>>>)>;

/// Calls `url::Url::parse` on `input` and, where it succeeds, reads
/// `Url::host_str` and `Url::path_segments`. The contract only names the
/// result: the WHATWG parsing rules that decide it are not restated here.
#[verifier::external_body]
pub(crate) fn parse_url(input: &str) -> (r: Option<UrlParts>)
    ensures
        r is None <==> parsed_url(input@) is None,
        r matches Some(p) ==> parsed_url(input@) == Some(p@),
{
    let url = match url::Url::parse(input) {
        Ok(url) => url,
        Err(_) => return None,
    };
    let host = url.host_str().map(String::from);
    let segments = url.path_segments().map(|parts| parts.map(String::from).collect());
    Some(UrlParts { host, segments })
}

} // verus!
