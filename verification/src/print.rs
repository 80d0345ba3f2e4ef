//! Which parts of the exchange are shown.

use vstd::prelude::*;

verus! {

/// The four parts of an exchange, each shown or not.
#[derive(Debug, Clone, Copy, PartialEq, Eq, Structural)]
pub struct Print {
    pub request_headers: bool,
    pub request_body: bool,
    pub response_headers: bool,
    pub response_body: bool,
}

/// What becomes of the body of the response. It is shown or saved, never
/// both, and dropped where it is neither.
#[derive(Debug, Clone, Copy, PartialEq, Eq, Structural)]
pub enum Disposal {
    /// Streamed into a file.
    Save,
    /// Read in full and shown.
    Show,
    /// Dropped unread.
    Drop,
}

/// The steps of one exchange, in their order: the request is shown, then
/// sent, then the response is shown.
#[derive(Debug, Clone, Copy, PartialEq, Eq, Structural)]
pub struct Plan {
    pub show_request_headers: bool,
    pub show_request_body: bool,
    /// Whether the request is sent at all.
    pub send: bool,
    pub show_response_headers: bool,
    /// What becomes of the body of the response, where the request is sent.
    pub response_body: Option<Disposal>,
}

impl Print {
    /// The policy that shows the parts named: the headers and the body of
    /// the request, then those of the response.
    pub fn new(
        request_headers: bool,
        request_body: bool,
        response_headers: bool,
        response_body: bool,
    ) -> (print: Print)
        ensures
            print == (Print { request_headers, request_body, response_headers, response_body }),
    {
        Print { request_headers, request_body, response_headers, response_body }
    }

    /// The policy in force: what the user asked for, else everything when
    /// verbose, else the response alone on a terminal and its body alone when
    /// the output goes elsewhere.
    pub open spec fn policy(explicit: Option<Print>, verbose: bool, terminal: bool) -> Print {
        match explicit {
            Some(print) => print,
            None => Print {
                request_headers: verbose,
                request_body: verbose,
                response_headers: verbose || terminal,
                response_body: true,
            },
        }
    }

    /// The steps that this policy asks for. An offline exchange ends before
    /// the request is sent. A download saves the body of the response in
    /// place of showing it.
    pub open spec fn steps(self, offline: bool, download: bool) -> Plan {
        Plan {
            show_request_headers: self.request_headers,
            show_request_body: self.request_body,
            send: !offline,
            show_response_headers: !offline && self.response_headers,
            response_body: if offline {
                None
            } else if download {
                Some(Disposal::Save)
            } else if self.response_body {
                Some(Disposal::Show)
            } else {
                Some(Disposal::Drop)
            },
        }
    }

    /// Lays out the steps of the exchange.
    pub fn plan(&self, offline: bool, download: bool) -> (plan: Plan)
        ensures
            plan == self.steps(offline, download),
    {
        let response_body = if offline {
            None
        } else if download {
            Some(Disposal::Save)
        } else if self.response_body {
            Some(Disposal::Show)
        } else {
            Some(Disposal::Drop)
        };
        Plan {
            show_request_headers: self.request_headers,
            show_request_body: self.request_body,
            send: !offline,
            show_response_headers: !offline && self.response_headers,
            response_body,
        }
    }

    /// Decides what is shown, once, before the request is sent.
    pub fn resolve(explicit: Option<Print>, verbose: bool, terminal: bool) -> (print: Print)
        ensures
            print == Print::policy(explicit, verbose, terminal),
    {
        match explicit {
            Some(print) => print,
            None => if verbose {
                Print::new(true, true, true, true)
            } else if terminal {
                Print::new(false, false, true, true)
            } else {
                Print::new(false, false, false, true)
            },
        }
    }
}

} // verus!
