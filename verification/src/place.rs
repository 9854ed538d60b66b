//! Where an outline is kept: a place, named by a path on this machine or
//! by a `file` URL.

use vstd::prelude::*;
use vstd::string::{StrSliceExecFns, StringExecFns};

verus! {

/// The scheme and the path of the absolute URL that a text spells, if it
/// spells one.
pub uninterp spec fn url_parts(text: Seq<char>) -> Option<(Seq<char>, Seq<char>)>;

/// `Url::parse`, and on the URL it gives `Url::scheme` and `Url::path`: the
/// scheme, in lower case and without its colon, and the path, or the words
/// of the error where the text is no absolute URL.
#[verifier::external_body]
fn parse_url(text: &str) -> (r: Result<(String, String), String>)
    ensures
        match r {
            Ok((scheme, path)) => url_parts(text@) == Some((scheme@, path@)),
            Err(_) => url_parts(text@).is_none(),
        },
{
    match url::Url::parse(text) {
        Ok(url) => Ok((url.scheme().to_string(), url.path().to_string())),
        Err(e) => Err(e.to_string()),
    }
}

/// Why a text names no place.
#[derive(Debug, PartialEq, Eq, Clone)]
pub enum PlaceError {
    /// The text is neither a path that begins with `.` or `~` nor a URL;
    /// the words say why it is no URL.
    NotAUrl(String),
    /// The text is a URL of a scheme that names no place; the scheme is
    /// told.
    Scheme(String),
}

/// Whether a text is a path on this machine: it begins with `.` or `~`.
pub open spec fn local(s: Seq<char>) -> bool {
    s.len() > 0 && (s[0] == '.' || s[0] == '~')
}

/// The scheme of the URLs that name a place.
pub open spec fn file_scheme() -> Seq<char> {
    seq!['f', 'i', 'l', 'e']
}

/// The place that a URL of the given scheme and path names: its path, if
/// the scheme is `file`; else the scheme is the error.
pub open spec fn place_of_parts(scheme: Seq<char>, path: Seq<char>) -> Result<Seq<char>, Seq<char>> {
    if scheme == file_scheme() {
        Ok(path)
    } else {
        Err(scheme)
    }
}

/// The place that a text names: the text itself where it is a path on this
/// machine, else the path of the `file` URL that it spells. The error is the
/// scheme of a URL of another scheme, and `None` where the text is no URL.
pub open spec fn place_of(s: Seq<char>) -> Result<Seq<char>, Option<Seq<char>>> {
    if local(s) {
        Ok(s)
    } else {
        match url_parts(s) {
            None => Err(None),
            Some((scheme, path)) => match place_of_parts(scheme, path) {
                Ok(p) => Ok(p),
                Err(other) => Err(Some(other)),
            },
        }
    }
}

/// Whether a text is a path on this machine.
pub fn is_local(s: &str) -> (b: bool)
    ensures
        b == local(s@),
{
    if s.unicode_len() == 0 {
        false
    } else {
        let first = s.get_char(0);
        first == '.' || first == '~'
    }
}

/// The place that a URL of the given scheme and path names.
pub fn place_of_url(scheme: String, path: String) -> (r: Result<String, PlaceError>)
    ensures
        match place_of_parts(scheme@, path@) {
            Ok(p) => r matches Ok(q) && q@ == p,
            Err(other) => r matches Err(PlaceError::Scheme(t)) && t@ == other,
        },
{
    let s = scheme.as_str();
    let is_file = s.unicode_len() == 4 && s.get_char(0) == 'f' && s.get_char(1) == 'i' && s.get_char(2) == 'l'
        && s.get_char(3) == 'e';
    proof {
        if is_file {
            assert(scheme@ =~= file_scheme());
        } else if scheme@.len() == 4 {
            assert(file_scheme()[0] == 'f' && file_scheme()[1] == 'i' && file_scheme()[2] == 'l' && file_scheme()[3]
                == 'e');
        } else {
            assert(file_scheme().len() == 4);
        }
    }
    if is_file {
        Ok(path)
    } else {
        Err(PlaceError::Scheme(scheme))
    }
}

/// The place that a text names: see [`place_of`].
pub fn storage_place(url_or_path: &str) -> (r: Result<String, PlaceError>)
    ensures
        match place_of(url_or_path@) {
            Ok(p) => r matches Ok(q) && q@ == p,
            Err(None) => r matches Err(PlaceError::NotAUrl(_)),
            Err(Some(s)) => r matches Err(PlaceError::Scheme(t)) && t@ == s,
        },
{
    if is_local(url_or_path) {
        Ok(String::from_str(url_or_path))
    } else {
        match parse_url(url_or_path) {
            Ok((scheme, path)) => place_of_url(scheme, path),
            Err(e) => Err(PlaceError::NotAUrl(e)),
        }
    }
}

} // verus!
