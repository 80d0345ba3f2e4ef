//! One invocation: what the command line asked for, and the request that
//! comes of it.

use vstd::prelude::*;
use vstd::string::*;
use crate::auth::{credentials, Auth, AuthType};
use crate::body::{reads_stdin, resolved, Body, BodyView};
use crate::failure::Failure;
use crate::item::{gather, lemma_gather_holds, ItemView};
use crate::items::{
    as_unset, header_fields, parsed_all, query_params, unset_names, RequestItems,
};
use crate::print::{Plan, Print};
use crate::request::{
    lemma_unset_is_not_sent, sent_headers, Method, OutboundRequest, RequestView,
};
use crate::text::lower;
use crate::url::{located, url_host, with_scheme, Url};

verus! {

/// What the command line asked for.
#[derive(Debug, Clone, PartialEq)]
pub struct Invocation {
    pub method: Method,
    pub url: String,
    pub request_items: Vec<String>,
    pub form: bool,
    pub multipart: bool,
    pub auth: Option<String>,
    pub auth_type: Option<AuthType>,
    /// The scheme of an address that names none; `http` where this is left
    /// out.
    pub default_scheme: Option<String>,
    pub ignore_stdin: bool,
    pub offline: bool,
    pub download: bool,
    pub verbose: bool,
    pub print: Option<Print>,
}

/// A text, where there is one, as its view.
pub open spec fn text_view(text: Option<String>) -> Option<Seq<char>> {
    match text {
        Some(text) => Some(text@),
        None => None,
    }
}

/// The outcome of preparing a request, with the request as its view.
pub open spec fn prepared_view(prepared: Result<OutboundRequest, Failure>) -> Result<
    RequestView,
    Failure,
> {
    match prepared {
        Ok(request) => Ok(request@),
        Err(failure) => Err(failure),
    }
}

/// A header that an item unsets does not leave with the request, be it a
/// default that no item ever set, and wherever among the items the unsetting
/// stands.
pub proof fn lemma_unset_cancels(
    host: Seq<char>,
    body: Option<BodyView>,
    items: Seq<ItemView>,
    i: int,
)
    requires
        0 <= i < items.len(),
        items[i] is HeaderUnset,
    ensures
        !sent_headers(host, body, header_fields(items), unset_names(items)).contains_key(
            lower(items[i]->HeaderUnset_0),
        ),
{
    let pick = |item: ItemView| as_unset(item);
    lemma_gather_holds(items, pick, i);
    let k = choose|k: int|
        0 <= k < gather(items, pick).len() && #[trigger] gather(items, pick)[k] == pick(
            items[i],
        )->0;
    assert(unset_names(items)[k] == items[i]->HeaderUnset_0);
    lemma_unset_is_not_sent(host, body, header_fields(items), unset_names(items), k);
}

impl Invocation {
    /// The scheme of an address that names none.
    pub open spec fn scheme(&self) -> Seq<char> {
        match self.default_scheme {
            Some(scheme) => scheme@,
            None => "http"@,
        }
    }

    /// The address, resolved.
    pub open spec fn address(&self) -> Seq<char> {
        with_scheme(self.url@, self.scheme())
    }

    /// The request that this invocation and what was piped in come to. The
    /// items are read first, then the address is resolved, then the body is
    /// made: the first of these to fail gives the failure.
    pub open spec fn prepared(&self, piped: Option<Seq<char>>) -> Result<RequestView, Failure> {
        match parsed_all(self.request_items.deep_view()) {
            Err(failure) => Err(failure),
            Ok(items) => match located(self.address(), url_host(self.address())) {
                Err(failure) => Err(failure),
                Ok(url) => match resolved(items, self.form, self.multipart, piped) {
                    Err(failure) => Err(failure),
                    Ok(body) => Ok(
                        RequestView {
                            method: self.method,
                            url,
                            query: query_params(items),
                            headers: sent_headers(
                                url.host,
                                body,
                                header_fields(items),
                                unset_names(items),
                            ),
                            headers_to_remove: unset_names(items),
                            body,
                            auth: credentials(text_view(self.auth), self.auth_type),
                        },
                    ),
                },
            },
        }
    }

    /// Whether standard input is to be read before the request is prepared.
    pub fn reads_stdin(&self, interactive: bool) -> (reads: bool)
        ensures
            reads == (!interactive && !self.ignore_stdin),
    {
        reads_stdin(interactive, self.ignore_stdin)
    }

    /// Prepares the request. `piped` is what standard input gave, where it
    /// was read.
    pub fn request(&self, piped: Option<String>) -> (prepared: Result<OutboundRequest, Failure>)
        ensures
            prepared_view(prepared) == self.prepared(text_view(piped)),
    {
        let items = match RequestItems::parse(&self.request_items) {
            Ok(items) => items,
            Err(failure) => {
                return Err(failure);
            },
        };
        let url = match &self.default_scheme {
            Some(scheme) => Url::new(self.url.as_str(), scheme.as_str()),
            None => Url::new(self.url.as_str(), "http"),
        };
        let url = match url {
            Ok(url) => url,
            Err(failure) => {
                return Err(failure);
            },
        };
        let body = match Body::resolve(&items.0, self.form, self.multipart, piped) {
            Ok(body) => body,
            Err(failure) => {
                return Err(failure);
            },
        };
        let auth = Auth::new(self.auth.clone(), self.auth_type);
        let query = items.query();
        let (headers, headers_to_remove) = items.headers();
        Ok(
            OutboundRequest::assemble(
                self.method,
                url,
                query,
                headers,
                headers_to_remove,
                body,
                auth,
            ),
        )
    }

    /// What is shown of the exchange, and in which steps it runs. `terminal`
    /// says whether the output goes to a terminal.
    pub fn plan(&self, terminal: bool) -> (plan: Plan)
        ensures
            plan == Print::policy(self.print, self.verbose, terminal).steps(
                self.offline,
                self.download,
            ),
    {
        Print::resolve(self.print, self.verbose, terminal).plan(self.offline, self.download)
    }
}

} // verus!
