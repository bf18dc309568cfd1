use vstd::prelude::*;
use vstd::string::*;

verus! {

/// What `url::Url::parse` makes of a text: `None` where it finds no absolute
/// URL, otherwise the scheme and the full serialization of the parsed URL.
pub uninterp spec fn parsed_url(s: Seq<char>) -> Option<(Seq<char>, Seq<char>)>;

/// An absolute URL as the logic reads it: its scheme and its serialization.
#[derive(Clone, Debug, PartialEq, Eq)]
pub struct WebUrl {
    /// The scheme, without the `:` delimiter.
    pub scheme: String,
    /// The whole URL as text.
    pub href: String,
}

/// The schemes whose new-window requests become application tabs.
pub open spec fn is_web_scheme(scheme: Seq<char>) -> bool {
    scheme =~= seq!['h', 't', 't', 'p'] || scheme =~= seq!['h', 't', 't', 'p', 's']
}

/// Relies on `url::Url::parse` to recognise an absolute URL, and on
/// `Url::scheme` and `Url::as_str` to read its scheme and serialization.
#[verifier::external_body]
fn parse_url(s: &str) -> (r: Option<WebUrl>)
    ensures
        r is None <==> parsed_url(s@) is None,
        r matches Some(u) ==> parsed_url(s@) == Some((u.scheme@, u.href@)),
{
    match url::Url::parse(s) {
        Ok(u) => Some(WebUrl { scheme: u.scheme().to_string(), href: u.as_str().to_string() }),
        Err(_) => None,
    }
}

/// Whether `s` is exactly `http` or `https`.
pub fn scheme_is_web(s: &str) -> (r: bool)
    ensures
        r == is_web_scheme(s@),
{
    let n = s.unicode_len();
    if n < 4 || n > 5 {
        return false;
    }
    let head = s.get_char(0) == 'h' && s.get_char(1) == 't' && s.get_char(2) == 't'
        && s.get_char(3) == 'p';
    if !head {
        assert(s@[0] != 'h' || s@[1] != 't' || s@[2] != 't' || s@[3] != 'p');
        return false;
    }
    if n == 4 {
        assert(s@ =~= seq!['h', 't', 't', 'p']);
        true
    } else if s.get_char(4) == 's' {
        assert(s@ =~= seq!['h', 't', 't', 'p', 's']);
        true
    } else {
        assert(s@[4] != seq!['h', 't', 't', 'p', 's'][4]);
        false
    }
}

impl WebUrl {
    /// Parses an absolute URL; `None` where the text is not one.
    pub fn parse(s: &str) -> (r: Option<WebUrl>)
        ensures
            r is None <==> parsed_url(s@) is None,
            r matches Some(u) ==> parsed_url(s@) == Some((u.scheme@, u.href@)),
    {
        parse_url(s)
    }

    /// Whether the scheme is `http` or `https`.
    pub fn is_web(&self) -> (r: bool)
        ensures
            r == is_web_scheme(self.scheme@),
    {
        scheme_is_web(self.scheme.as_str())
    }
}

} // verus!
