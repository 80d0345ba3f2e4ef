//! The address of a request: an absolute URL and the host it names.

use vstd::prelude::*;
use vstd::string::*;
use crate::failure::Failure;
use crate::text::chars_of;

verus! {

/// Whether `://`, which ends a scheme, stands at `i`.
pub open spec fn mark_at(s: Seq<char>, i: int) -> bool {
    0 <= i && i + 3 <= s.len() && s[i] == ':' && s[i + 1] == '/' && s[i + 2] == '/'
}

/// Whether `s` holds `://` anywhere.
pub open spec fn has_scheme(s: Seq<char>) -> bool {
    exists|i: int| mark_at(s, i)
}

/// The address as it is resolved: as given where it holds `://`, else behind
/// the default scheme and `://`.
pub open spec fn with_scheme(raw: Seq<char>, scheme: Seq<char>) -> Seq<char> {
    if has_scheme(raw) {
        raw
    } else {
        scheme + seq![':', '/', '/'] + raw
    }
}

/// A resolved address always holds `://`.
pub proof fn lemma_with_scheme_has_scheme(raw: Seq<char>, scheme: Seq<char>)
    ensures
        has_scheme(with_scheme(raw, scheme)),
{
    if !has_scheme(raw) {
        assert(mark_at(with_scheme(raw, scheme), scheme.len() as int));
    }
}

fn finds_scheme(chars: &Vec<char>) -> (found: bool)
    ensures
        found == has_scheme(chars@),
{
    let n = chars.len();
    let mut i: usize = 0;
    while i < n
        invariant
            n == chars.len(),
            i <= n,
            forall|j: int| 0 <= j < i ==> !mark_at(chars@, j),
        decreases n - i,
    {
        if n - i >= 3 && chars[i] == ':' && chars[i + 1] == '/' && chars[i + 2] == '/' {
            assert(mark_at(chars@, i as int));
            return true;
        }
        i += 1;
    }
    false
}

/// Resolves an address that may lack its scheme.
pub fn resolve_scheme(raw: &str, default_scheme: &str) -> (text: String)
    ensures
        text@ == with_scheme(raw@, default_scheme@),
{
    let chars = chars_of(raw);
    if finds_scheme(&chars) {
        String::from_str(raw)
    } else {
        let mut text = String::from_str(default_scheme);
        text.append("://");
        text.append(raw);
        proof {
            reveal_strlit("://");
            assert("://"@ =~= seq![':', '/', '/']);
        }
        text
    }
}

/// What the URL parser makes of `text`: `None` where it is no absolute URL,
/// else the host that the URL names, itself `None` where it names none.
pub uninterp spec fn url_host(text: Seq<char>) -> Option<Option<Seq<char>>>;

/// `reqwest::Url::parse`, and `host_str` of what it gives. Trusted: that the
/// outcome is `url_host` of the text, the same for the same text.
#[verifier::external_body]
fn read_host(text: &str) -> (read: Option<Option<String>>)
    ensures
        read.deep_view() == url_host(text@),
{
    match reqwest::Url::parse(text) {
        Ok(url) => Some(url.host_str().map(String::from)),
        Err(_) => None,
    }
}

/// An absolute URL and its host.
#[derive(Debug, PartialEq, Eq)]
pub struct Url {
    text: String,
    host: String,
}

/// A URL as contracts speak of it.
pub struct UrlView {
    pub text: Seq<char>,
    pub host: Seq<char>,
}

impl View for Url {
    type V = UrlView;

    closed spec fn view(&self) -> UrlView {
        UrlView { text: self.text@, host: self.host@ }
    }
}

/// The outcome of resolving an address, with the URL as its view.
pub open spec fn located_view(located: Result<Url, Failure>) -> Result<UrlView, Failure> {
    match located {
        Ok(url) => Ok(url@),
        Err(failure) => Err(failure),
    }
}

/// The URL that a resolved address is, `read` being what the URL parser made
/// of it: the address is refused where it is no absolute URL, and where it
/// names no host.
pub open spec fn located(text: Seq<char>, read: Option<Option<Seq<char>>>) -> Result<
    UrlView,
    Failure,
> {
    match read {
        Some(Some(host)) => Ok(UrlView { text, host }),
        _ => Err(Failure::Url),
    }
}

impl Clone for Url {
    fn clone(&self) -> (copy: Url)
        ensures
            copy@ == self@,
    {
        proof {
            use_type_invariant(self);
        }
        Url { text: self.text.clone(), host: self.host.clone() }
    }
}

impl Url {
    #[verifier::type_invariant]
    spec fn carries_scheme(&self) -> bool {
        has_scheme(self.text@)
    }

    /// Resolves `raw` with the default scheme and takes `read` for what the
    /// URL parser made of the resolved address.
    pub fn from_host(raw: &str, default_scheme: &str, read: Option<Option<String>>) -> (url: Result<
        Url,
        Failure,
    >)
        ensures
            located_view(url) == located(with_scheme(raw@, default_scheme@), read.deep_view()),
    {
        let text = resolve_scheme(raw, default_scheme);
        proof {
            lemma_with_scheme_has_scheme(raw@, default_scheme@);
        }
        match read {
            Some(Some(host)) => Ok(Url { text, host }),
            _ => Err(Failure::Url),
        }
    }

    /// Resolves `raw` with the default scheme into an absolute URL.
    pub fn new(raw: &str, default_scheme: &str) -> (url: Result<Url, Failure>)
        ensures
            located_view(url) == located(
                with_scheme(raw@, default_scheme@),
                url_host(with_scheme(raw@, default_scheme@)),
            ),
    {
        let text = resolve_scheme(raw, default_scheme);
        let read = read_host(text.as_str());
        Url::from_host(raw, default_scheme, read)
    }

    /// The URL in full. It holds `://`.
    pub fn as_str(&self) -> (text: &str)
        ensures
            text@ == self@.text,
            has_scheme(text@),
    {
        proof {
            use_type_invariant(self);
        }
        self.text.as_str()
    }

    /// The host that the URL names.
    pub fn host(&self) -> (host: &str)
        ensures
            host@ == self@.host,
    {
        self.host.as_str()
    }
}

} // verus!
