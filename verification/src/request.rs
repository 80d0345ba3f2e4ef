//! The outbound request, put together from its parts.

use vstd::prelude::*;
use vstd::string::*;
use crate::auth::{auth_view, Auth, AuthView};
use crate::body::{body_view, Body, BodyView};
use crate::headers::Headers;
use crate::text::lower;
use crate::url::{Url, UrlView};

verus! {

/// The method of a request.
#[derive(Debug, Clone, Copy, PartialEq, Eq, Structural)]
pub enum Method {
    Get,
    Head,
    Post,
    Put,
    Delete,
    Connect,
    Options,
    Trace,
    Patch,
}

impl Method {
    /// The method as it stands in a request line.
    pub open spec fn name_text(self) -> Seq<char> {
        match self {
            Method::Get => "GET"@,
            Method::Head => "HEAD"@,
            Method::Post => "POST"@,
            Method::Put => "PUT"@,
            Method::Delete => "DELETE"@,
            Method::Connect => "CONNECT"@,
            Method::Options => "OPTIONS"@,
            Method::Trace => "TRACE"@,
            Method::Patch => "PATCH"@,
        }
    }

    /// The method as it stands in a request line.
    pub fn name(&self) -> (name: &'static str)
        ensures
            name@ == self.name_text(),
    {
        match self {
            Method::Get => "GET",
            Method::Head => "HEAD",
            Method::Post => "POST",
            Method::Put => "PUT",
            Method::Delete => "DELETE",
            Method::Connect => "CONNECT",
            Method::Options => "OPTIONS",
            Method::Trace => "TRACE",
            Method::Patch => "PATCH",
        }
    }
}

/// What the request accepts: anything, and JSON first where its body is
/// JSON or was piped in.
pub open spec fn accept_for(body: Option<BodyView>) -> Seq<char> {
    match body {
        Some(BodyView::Json(_)) | Some(BodyView::Raw(_)) => "application/json, */*"@,
        _ => "*/*"@,
    }
}

/// The headers that every request gets unless the user sets or unsets them.
/// A body that was piped in is taken for JSON.
pub open spec fn default_headers(host: Seq<char>, body: Option<BodyView>) -> Map<
    Seq<char>,
    Seq<char>,
> {
    let always = Map::<Seq<char>, Seq<char>>::empty().insert("accept"@, accept_for(body)).insert(
        "accept-encoding"@,
        "gzip, deflate"@,
    ).insert("connection"@, "keep-alive"@).insert("host"@, host);
    match body {
        Some(BodyView::Raw(_)) => always.insert("content-type"@, "application/json"@),
        _ => always,
    }
}

/// The names, each in lower case, as a set.
pub open spec fn lowered(names: Seq<Seq<char>>) -> Set<Seq<char>> {
    Set::new(|name: Seq<char>| exists|i: int| 0 <= i < names.len() && lower(#[trigger] names[i]) == name)
}

/// The headers of the request as it leaves: the defaults, then what the user
/// set in their place, without what the user unset.
pub open spec fn sent_headers(
    host: Seq<char>,
    body: Option<BodyView>,
    set: Map<Seq<char>, Seq<char>>,
    unset: Seq<Seq<char>>,
) -> Map<Seq<char>, Seq<char>> {
    default_headers(host, body).union_prefer_right(set).remove_keys(lowered(unset))
}

/// No header that the user unset leaves with the request, be it a default
/// that was never set by hand.
pub proof fn lemma_unset_is_not_sent(
    host: Seq<char>,
    body: Option<BodyView>,
    set: Map<Seq<char>, Seq<char>>,
    unset: Seq<Seq<char>>,
    i: int,
)
    requires
        0 <= i < unset.len(),
    ensures
        !sent_headers(host, body, set, unset).contains_key(lower(unset[i])),
{
    assert(lowered(unset).contains(lower(unset[i])));
}

/// A header that the user set and did not unset leaves with the value the
/// user gave it, also where a default has the same name.
pub proof fn lemma_set_is_sent(
    host: Seq<char>,
    body: Option<BodyView>,
    set: Map<Seq<char>, Seq<char>>,
    unset: Seq<Seq<char>>,
    name: Seq<char>,
)
    requires
        set.contains_key(name),
        !lowered(unset).contains(name),
    ensures
        sent_headers(host, body, set, unset).contains_key(name),
        sent_headers(host, body, set, unset)[name] == set[name],
{
}

/// A default that the user neither set nor unset leaves as it is.
pub proof fn lemma_default_is_sent(
    host: Seq<char>,
    body: Option<BodyView>,
    set: Map<Seq<char>, Seq<char>>,
    unset: Seq<Seq<char>>,
    name: Seq<char>,
)
    requires
        default_headers(host, body).contains_key(name),
        !set.contains_key(name),
        !lowered(unset).contains(name),
    ensures
        sent_headers(host, body, set, unset).contains_key(name),
        sent_headers(host, body, set, unset)[name] == default_headers(host, body)[name],
{
}

/// One request, ready for the transport.
#[derive(Debug)]
pub struct OutboundRequest {
    method: Method,
    url: Url,
    query: Vec<(String, String)>,
    headers: Headers,
    headers_to_remove: Vec<String>,
    body: Option<Body>,
    auth: Option<Auth>,
}

/// A request as contracts speak of it: the headers as a mapping from names
/// in lower case to values.
pub struct RequestView {
    pub method: Method,
    pub url: UrlView,
    pub query: Seq<(Seq<char>, Seq<char>)>,
    pub headers: Map<Seq<char>, Seq<char>>,
    pub headers_to_remove: Seq<Seq<char>>,
    pub body: Option<BodyView>,
    pub auth: Option<AuthView>,
}

impl View for OutboundRequest {
    type V = RequestView;

    closed spec fn view(&self) -> RequestView {
        RequestView {
            method: self.method,
            url: self.url@,
            query: self.query.deep_view(),
            headers: self.headers@,
            headers_to_remove: self.headers_to_remove.deep_view(),
            body: body_view(self.body),
            auth: auth_view(self.auth),
        }
    }
}

/// Sets a header that the user did not set. The name is in lower case.
fn set_default(headers: &mut Headers, name: &str, value: &str)
    requires
        lower(name@) == name@,
    ensures
        final(headers)@ == if old(headers)@.contains_key(name@) {
            old(headers)@
        } else {
            old(headers)@.insert(name@, value@)
        },
{
    if !headers.contains(name) {
        headers.insert(name, value);
    }
}

/// A text without upper-case ASCII letters is its own lower case.
proof fn lemma_lower_keeps(s: Seq<char>)
    requires
        forall|i: int| 0 <= i < s.len() ==> !('A' <= #[trigger] s[i] && s[i] <= 'Z'),
    ensures
        lower(s) == s,
{
    assert(lower(s) =~= s);
}

/// The names of the default headers are in lower case.
proof fn lemma_default_names()
    ensures
        lower("accept"@) == "accept"@,
        lower("accept-encoding"@) == "accept-encoding"@,
        lower("connection"@) == "connection"@,
        lower("host"@) == "host"@,
        lower("content-type"@) == "content-type"@,
{
    reveal_strlit("accept");
    reveal_strlit("accept-encoding");
    reveal_strlit("connection");
    reveal_strlit("host");
    reveal_strlit("content-type");
    lemma_lower_keeps("accept"@);
    lemma_lower_keeps("accept-encoding"@);
    lemma_lower_keeps("connection"@);
    lemma_lower_keeps("host"@);
    lemma_lower_keeps("content-type"@);
}

/// The names of the default headers differ from one another.
proof fn lemma_default_names_differ()
    ensures
        "accept"@ != "accept-encoding"@,
        "accept"@ != "connection"@,
        "accept"@ != "host"@,
        "accept"@ != "content-type"@,
        "accept-encoding"@ != "connection"@,
        "accept-encoding"@ != "host"@,
        "accept-encoding"@ != "content-type"@,
        "connection"@ != "host"@,
        "connection"@ != "content-type"@,
        "host"@ != "content-type"@,
{
    reveal_strlit("accept");
    reveal_strlit("accept-encoding");
    reveal_strlit("connection");
    reveal_strlit("host");
    reveal_strlit("content-type");
    assert("accept"@.len() == 6);
    assert("accept-encoding"@.len() == 15);
    assert("connection"@.len() == 10);
    assert("host"@.len() == 4);
    assert("content-type"@.len() == 12);
}

impl OutboundRequest {
    #[verifier::type_invariant]
    spec fn unset_are_gone(&self) -> bool {
        forall|name: Seq<char>| #[trigger]
            lowered(self.headers_to_remove.deep_view()).contains(name)
                ==> !self.headers@.contains_key(name)
    }

    /// Puts the request together. The default headers are set where the user
    /// set none of their name; then every header that the user unset is
    /// taken away.
    pub fn assemble(
        method: Method,
        url: Url,
        query: Vec<(String, String)>,
        headers: Headers,
        headers_to_remove: Vec<String>,
        body: Option<Body>,
        auth: Option<Auth>,
    ) -> (request: OutboundRequest)
        ensures
            request@ == (RequestView {
                method,
                url: url@,
                query: query.deep_view(),
                headers: sent_headers(
                    url@.host,
                    body_view(body),
                    headers@,
                    headers_to_remove.deep_view(),
                ),
                headers_to_remove: headers_to_remove.deep_view(),
                body: body_view(body),
                auth: auth_view(auth),
            }),
    {
        let ghost set = headers@;
        let ghost defaults = default_headers(url@.host, body_view(body));
        let mut headers = headers;
        let accept = match &body {
            Some(Body::Json(_)) | Some(Body::Raw(_)) => "application/json, */*",
            _ => "*/*",
        };
        proof {
            lemma_default_names();
            lemma_default_names_differ();
        }
        set_default(&mut headers, "accept", accept);
        set_default(&mut headers, "accept-encoding", "gzip, deflate");
        set_default(&mut headers, "connection", "keep-alive");
        set_default(&mut headers, "host", url.host());
        match &body {
            Some(Body::Raw(_)) => {
                set_default(&mut headers, "content-type", "application/json");
            },
            _ => {},
        }
        assert(headers@ =~= defaults.union_prefer_right(set));
        let ghost merged = headers@;
        let mut i: usize = 0;
        while i < headers_to_remove.len()
            invariant
                i <= headers_to_remove.len(),
                headers@ == merged.remove_keys(lowered(headers_to_remove.deep_view().take(i as int))),
            decreases headers_to_remove.len() - i,
        {
            let ghost before = headers@;
            let ghost names = headers_to_remove.deep_view();
            headers.remove(headers_to_remove[i].as_str());
            proof {
                let gone = lowered(names.take(i as int));
                let next = lowered(names.take(i + 1));
                assert(names.take(i + 1)[i as int] == names[i as int]);
                assert forall|name: Seq<char>| next.contains(name) == (gone.contains(name) || name
                    == lower(names[i as int])) by {
                    if gone.contains(name) {
                        let k = choose|k: int|
                            0 <= k < names.take(i as int).len() && lower(
                                #[trigger] names.take(i as int)[k],
                            ) == name;
                        assert(names.take(i + 1)[k] == names.take(i as int)[k]);
                    }
                    if next.contains(name) {
                        let k = choose|k: int|
                            0 <= k < names.take(i + 1).len() && lower(
                                #[trigger] names.take(i + 1)[k],
                            ) == name;
                        if k < i {
                            assert(names.take(i as int)[k] == names.take(i + 1)[k]);
                        }
                    }
                }
                assert(headers@ =~= merged.remove_keys(next));
            }
            i += 1;
        }
        assert(headers_to_remove.deep_view().take(headers_to_remove.len() as int)
            =~= headers_to_remove.deep_view());
        OutboundRequest { method, url, query, headers, headers_to_remove, body, auth }
    }

    /// The method of the request.
    pub fn method(&self) -> (method: Method)
        ensures
            method == self@.method,
    {
        self.method
    }

    /// The address the request goes to.
    pub fn url(&self) -> (url: &Url)
        ensures
            url@ == self@.url,
    {
        &self.url
    }

    /// The parameters of the query, in the order given.
    pub fn query(&self) -> (query: &Vec<(String, String)>)
        ensures
            query.deep_view() == self@.query,
    {
        &self.query
    }

    /// The headers as they leave. None of them is named in
    /// `headers_to_remove`.
    pub fn headers(&self) -> (headers: &Headers)
        ensures
            headers@ == self@.headers,
            forall|i: int|
                0 <= i < self@.headers_to_remove.len() ==> !headers@.contains_key(
                    lower(#[trigger] self@.headers_to_remove[i]),
                ),
    {
        proof {
            use_type_invariant(self);
            assert forall|i: int| 0 <= i < self@.headers_to_remove.len() implies !self.headers@.contains_key(
                lower(#[trigger] self@.headers_to_remove[i]),
            ) by {
                assert(lowered(self@.headers_to_remove).contains(lower(self@.headers_to_remove[i])));
            }
        }
        &self.headers
    }

    /// The names of the headers that the transport takes away once more
    /// from what it has added of its own.
    pub fn headers_to_remove(&self) -> (names: &Vec<String>)
        ensures
            names.deep_view() == self@.headers_to_remove,
    {
        &self.headers_to_remove
    }

    /// The body, where the request has one.
    pub fn body(&self) -> (body: &Option<Body>)
        ensures
            body_view(*body) == self@.body,
    {
        &self.body
    }

    /// The credentials, where the request has any.
    pub fn auth(&self) -> (auth: &Option<Auth>)
        ensures
            auth_view(*auth) == self@.auth,
    {
        &self.auth
    }
}

} // verus!
