//! The checkable-endpoint model: websites and mail addresses.
//!
//! A website URL is kept in its canonical rendered form, the text that
//! the `url` crate serializes after parsing, with the fragment removed;
//! equality of URIs is equality of that text.

use vstd::prelude::*;

verus! {

/// The canonical fragment-free serialization of `s` parsed as an
/// absolute URL, when `s` parses as one.
pub uninterp spec fn url_norm(s: Seq<char>) -> Option<Seq<char>>;

/// The canonical fragment-free serialization of `rel` resolved against
/// the absolute URL `base`, when both steps succeed.
pub uninterp spec fn url_joined(base: Seq<char>, rel: Seq<char>) -> Option<Seq<char>>;

/// The scheme of a parseable URL text, lower-case, without the `:`.
pub uninterp spec fn url_scheme_of(s: Seq<char>) -> Seq<char>;

/// The host of a parseable URL text, when the URL has one.
pub uninterp spec fn url_host_of(s: Seq<char>) -> Option<Seq<char>>;

/// Relies on `url::Url::parse`, `url::Url::set_fragment` and
/// `url::Url::as_str`: a successful parse of an absolute URL yields its
/// canonical serialization, `set_fragment(None)` removes the fragment
/// from it, and parsing a canonical fragment-free serialization again
/// yields the same text.
#[verifier::external_body]
fn parse_absolute(s: &str) -> (r: Option<String>)
    ensures
        r is Some <==> url_norm(s@) is Some,
        r is Some ==> r.unwrap()@ == url_norm(s@).unwrap(),
        r is Some ==> url_norm(r.unwrap()@) == Some(r.unwrap()@),
{
    match url::Url::parse(s) {
        Ok(mut u) => {
            u.set_fragment(None);
            Some(u.as_str().to_string())
        },
        Err(_) => None,
    }
}

/// Relies on `url::Url::join` (and `set_fragment`, `as_str` as above):
/// resolving a reference against an absolute base yields a canonical
/// serialization, which parses back to itself.
#[verifier::external_body]
fn join_with_base(base: &str, rel: &str) -> (r: Option<String>)
    ensures
        r is Some <==> url_joined(base@, rel@) is Some,
        r is Some ==> r.unwrap()@ == url_joined(base@, rel@).unwrap(),
        r is Some ==> url_norm(r.unwrap()@) == Some(r.unwrap()@),
{
    match url::Url::parse(base) {
        Ok(b) => match b.join(rel) {
            Ok(mut u) => {
                u.set_fragment(None);
                Some(u.as_str().to_string())
            },
            Err(_) => None,
        },
        Err(_) => None,
    }
}

/// Relies on `url::Url::scheme`: the scheme of the URL, lower-case,
/// without the `:` delimiter; a URL never parses without one, so the
/// scheme of a parseable text is non-empty.
#[verifier::external_body]
fn scheme_of(s: &str) -> (r: Option<String>)
    ensures
        url_norm(s@) is Some ==> r is Some && r.unwrap()@ == url_scheme_of(s@) && r.unwrap()@.len()
            > 0,
{
    url::Url::parse(s).ok().map(|u| u.scheme().to_string())
}

/// Relies on `url::Url::host_str`: the host of the URL, when it has one.
#[verifier::external_body]
fn host_of(s: &str) -> (r: Option<String>)
    ensures
        url_norm(s@) is Some ==> (match url_host_of(s@) {
            Some(h) => r is Some && r.unwrap()@ == h,
            None => r is None,
        }),
{
    match url::Url::parse(s) {
        Ok(u) => u.host_str().map(|h| h.to_string()),
        Err(_) => None,
    }
}

/// A parsed absolute website URL in canonical form.
#[derive(Clone, Debug)]
pub struct Website {
    /// The canonical fragment-free serialization.
    pub url: String,
    /// The URL's scheme, lower-case.
    pub scheme: String,
    /// The URL's host, when it has one.
    pub host: Option<String>,
}

/// The mathematical content of a `Website`.
pub struct WebsiteView {
    pub url: Seq<char>,
    pub scheme: Seq<char>,
    pub host: Option<Seq<char>>,
}

impl View for Website {
    type V = WebsiteView;

    open spec fn view(&self) -> WebsiteView {
        WebsiteView {
            url: self.url@,
            scheme: self.scheme@,
            host: match self.host {
                Some(h) => Some(h@),
                None => None,
            },
        }
    }
}

/// The website view that a canonical URL text determines.
pub open spec fn website_view_of(url: Seq<char>) -> WebsiteView {
    WebsiteView { url: url, scheme: url_scheme_of(url), host: url_host_of(url) }
}

impl WebsiteView {
    /// A website value is well formed when its text is a stable
    /// canonical URL and the scheme and host fields agree with it;
    /// the scheme is never empty.
    pub open spec fn wf(self) -> bool {
        &&& url_norm(self.url) == Some(self.url)
        &&& self.scheme == url_scheme_of(self.url)
        &&& self.scheme.len() > 0
        &&& self.host == url_host_of(self.url)
    }
}

impl Website {
    /// Parses an absolute URL into its canonical website form.
    pub fn parse(s: &str) -> (r: Option<Website>)
        ensures
            r is Some <==> url_norm(s@) is Some,
            r is Some ==> r.unwrap()@.wf() && r.unwrap()@.url == url_norm(s@).unwrap(),
    {
        match parse_absolute(s) {
            Some(url) => {
                let scheme = match scheme_of(url.as_str()) {
                    Some(sch) => sch,
                    None => {
                        proof {
                            assert(false);
                        }
                        String::new()
                    },
                };
                let host = host_of(url.as_str());
                Some(Website { url, scheme, host })
            },
            None => None,
        }
    }

    /// Resolves a reference against an absolute base URL.
    pub fn join(base: &str, rel: &str) -> (r: Option<Website>)
        ensures
            r is Some <==> url_joined(base@, rel@) is Some,
            r is Some ==> r.unwrap()@.wf() && r.unwrap()@.url == url_joined(base@, rel@).unwrap(),
    {
        match join_with_base(base, rel) {
            Some(url) => {
                let scheme = match scheme_of(url.as_str()) {
                    Some(sch) => sch,
                    None => {
                        proof {
                            assert(false);
                        }
                        String::new()
                    },
                };
                let host = host_of(url.as_str());
                Some(Website { url, scheme, host })
            },
            None => None,
        }
    }

    /// Law: parsing the rendered form of a well-formed website URL
    /// yields the same website URL, so the canonical form is stable
    /// across parse/render rounds.
    pub fn reparse(&self) -> (r: Option<Website>)
        ensures
            self@.wf() ==> r is Some && r.unwrap()@ == self@,
    {
        Website::parse(self.url.as_str())
    }
}

/// The views of a sequence of URIs.
pub open spec fn uri_views(s: Seq<Uri>) -> Seq<UriView> {
    s.map_values(|x: Uri| x@)
}

/// Whether a URI's website part, if it has one, is well formed.
pub open spec fn website_wf(u: UriView) -> bool {
    match u {
        UriView::Website(w) => w.wf(),
        UriView::Mail(_) => true,
    }
}

/// A checkable endpoint: a website URL or a mail address.
#[derive(Clone, Debug)]
pub enum Uri {
    Website(Website),
    Mail(String),
}

/// The mathematical content of a `Uri`.
pub enum UriView {
    Website(WebsiteView),
    Mail(Seq<char>),
}

impl View for Uri {
    type V = UriView;

    open spec fn view(&self) -> UriView {
        match self {
            Uri::Website(w) => UriView::Website(w@),
            Uri::Mail(m) => UriView::Mail(m@),
        }
    }
}

impl UriView {
    /// The text of the endpoint: the URL's rendering or the address.
    pub open spec fn text(self) -> Seq<char> {
        match self {
            UriView::Website(w) => w.url,
            UriView::Mail(m) => m,
        }
    }

    /// The scheme of a website endpoint; a mail address has none.
    pub open spec fn scheme(self) -> Option<Seq<char>> {
        match self {
            UriView::Website(w) => Some(w.scheme),
            UriView::Mail(_) => None,
        }
    }

    /// The host of a website endpoint, when it has one.
    pub open spec fn host(self) -> Option<Seq<char>> {
        match self {
            UriView::Website(w) => w.host,
            UriView::Mail(_) => None,
        }
    }
}

impl Uri {
    /// The endpoint's text.
    pub fn as_str(&self) -> (r: &str)
        ensures
            r@ == self@.text(),
    {
        match self {
            Uri::Website(w) => w.url.as_str(),
            Uri::Mail(m) => m.as_str(),
        }
    }

    /// Whether this is a mail address.
    pub fn is_mail(&self) -> (r: bool)
        ensures
            r == (self@ is Mail),
    {
        match self {
            Uri::Website(_) => false,
            Uri::Mail(_) => true,
        }
    }
}

/// Whether two endpoints are the same endpoint.
pub fn uri_eq(a: &Uri, b: &Uri) -> (r: bool)
    ensures
        r == (a@ == b@),
{
    match (a, b) {
        (Uri::Website(x), Uri::Website(y)) => {
            let urls = x.url == y.url;
            let schemes = x.scheme == y.scheme;
            let hosts = match (&x.host, &y.host) {
                (Some(hx), Some(hy)) => *hx == *hy,
                (None, None) => true,
                _ => false,
            };
            proof {
                if urls && schemes && hosts {
                    assert(x@ == y@);
                }
            }
            urls && schemes && hosts
        },
        (Uri::Mail(x), Uri::Mail(y)) => *x == *y,
        _ => false,
    }
}

impl PartialEq for Uri {
    fn eq(&self, other: &Uri) -> (r: bool) {
        uri_eq(self, other)
    }
}

impl vstd::std_specs::cmp::PartialEqSpecImpl for Uri {
    open spec fn obeys_eq_spec() -> bool {
        true
    }

    open spec fn eq_spec(&self, other: &Uri) -> bool {
        self@ == other@
    }
}

} // verus!
