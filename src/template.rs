//! Mirror URL templates: substituting an identifier into the marker and
//! deriving the name under which the artifact is saved.
use vstd::prelude::*;
use vstd::string::*;

verus! {

/// The substitution marker of a URL template.
pub const MARKER: char = '%';

/// Separator of URL path segments.
pub const PATH_SEPARATOR: char = '/';

/// Why a template cannot be resolved for an identifier. Each is a
/// configuration error.
#[derive(Debug, Clone, Copy, PartialEq, Eq, Structural)]
pub enum TemplateError {
    /// The template holds no substitution marker.
    NoMarker,
    /// The resolved text is not a URL.
    InvalidUrl,
    /// The resolved URL's path ends without a file name.
    NoFileName,
}

/// Index of the first marker in `t` at or after `i`, or `t.len()` if none.
pub open spec fn marker_from(t: Seq<char>, i: int) -> int
    decreases t.len() - i,
{
    if i >= t.len() {
        t.len() as int
    } else if t[i] == MARKER {
        i
    } else {
        marker_from(t, i + 1)
    }
}

/// The template with its first marker replaced by `id`, or `None` when it has
/// no marker.
pub open spec fn resolve_spec(t: Seq<char>, id: Seq<char>) -> Option<Seq<char>> {
    let m = marker_from(t, 0);
    if m < t.len() {
        Some(t.take(m) + id + t.skip(m + 1))
    } else {
        None
    }
}

/// Where the last path segment of `p` starts, looking left from `i`.
pub open spec fn segment_start(p: Seq<char>, i: int) -> int
    decreases i,
{
    if i <= 0 {
        0
    } else if p[i - 1] == PATH_SEPARATOR {
        i
    } else {
        segment_start(p, i - 1)
    }
}

/// The final segment of a URL path, or `None` when it is empty.
pub open spec fn file_name_spec(path: Seq<char>) -> Option<Seq<char>> {
    let s = segment_start(path, path.len() as int);
    if s < path.len() {
        Some(path.subrange(s, path.len() as int))
    } else {
        None
    }
}

/// The path component of `s` read as a URL, or `None` when `s` is not one.
pub uninterp spec fn parsed_url_path(s: Seq<char>) -> Option<Seq<char>>;

/// Relies on `Url::parse` (of the `url` crate, as re-exported by reqwest) and
/// `Url::path`: whether the text parses, and its path, depend on the text
/// alone.
#[verifier::external_body]
fn url_path(s: &str) -> (r: Option<String>)
    ensures
        r is Some <==> parsed_url_path(s@) is Some,
        r matches Some(p) ==> parsed_url_path(s@) == Some(p@),
{
    match reqwest::Url::parse(s) {
        Ok(u) => Some(u.path().to_string()),
        Err(_) => None,
    }
}

/// Replaces the first marker of `template` by `id`. A template without a
/// marker is an error.
pub fn resolve_template(template: &str, id: &str) -> (r: Result<String, TemplateError>)
    ensures
        r is Err <==> resolve_spec(template@, id@) is None,
        r matches Err(e) ==> e == TemplateError::NoMarker,
        r matches Ok(u) ==> resolve_spec(template@, id@) == Some(u@),
{
    let n = template.unicode_len();
    let mut k: usize = 0;
    while k < n
        invariant
            k <= n == template@.len(),
            marker_from(template@, 0) == marker_from(template@, k as int),
        decreases n - k,
    {
        if template.get_char(k) == MARKER {
            let prefix = template.substring_char(0, k);
            let suffix = template.substring_char(k + 1, n);
            let url = String::from_str(prefix).concat(id).concat(suffix);
            return Ok(url);
        }
        k = k + 1;
    }
    Err(TemplateError::NoMarker)
}

/// The final segment of `path`, or `None` when it is empty.
pub fn file_name_of(path: &str) -> (r: Option<String>)
    ensures
        r is None <==> file_name_spec(path@) is None,
        r matches Some(f) ==> file_name_spec(path@) == Some(f@),
{
    let n = path.unicode_len();
    let mut i: usize = n;
    while i > 0
        invariant
            i <= n == path@.len(),
            segment_start(path@, n as int) == segment_start(path@, i as int),
        ensures
            i == 0 || path@[i - 1] == PATH_SEPARATOR,
        decreases i,
    {
        if path.get_char(i - 1) == PATH_SEPARATOR {
            break;
        }
        i = i - 1;
    }
    assert(segment_start(path@, i as int) == i);
    if i < n {
        Some(String::from_str(path.substring_char(i, n)))
    } else {
        None
    }
}

/// Where an identifier is fetched from under a template and the file name it
/// is saved under, or why the template cannot be used.
pub open spec fn location_spec(t: Seq<char>, id: Seq<char>) -> Result<
    (Seq<char>, Seq<char>),
    TemplateError,
> {
    match resolve_spec(t, id) {
        None => Err(TemplateError::NoMarker),
        Some(u) => match parsed_url_path(u) {
            None => Err(TemplateError::InvalidUrl),
            Some(p) => match file_name_spec(p) {
                None => Err(TemplateError::NoFileName),
                Some(f) => Ok((u, f)),
            },
        },
    }
}

/// The URL that `template` gives for `id`, and the file name under which its
/// body is saved: the final segment of the URL's path.
pub fn mirror_location(template: &str, id: &str) -> (r: Result<(String, String), TemplateError>)
    ensures
        r is Ok <==> location_spec(template@, id@) is Ok,
        r matches Ok((u, f)) ==> location_spec(template@, id@) == Ok::<_, TemplateError>((u@, f@)),
        r matches Err(e) ==> location_spec(template@, id@) == Err::<(Seq<char>, Seq<char>), _>(e),
{
    let url = match resolve_template(template, id) {
        Ok(u) => u,
        Err(e) => {
            return Err(e);
        },
    };
    let path = match url_path(url.as_str()) {
        Some(p) => p,
        None => {
            return Err(TemplateError::InvalidUrl);
        },
    };
    match file_name_of(path.as_str()) {
        Some(f) => Ok((url, f)),
        None => Err(TemplateError::NoFileName),
    }
}

} // verus!
