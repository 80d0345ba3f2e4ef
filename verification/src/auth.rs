//! The credentials of a request.

use vstd::prelude::*;
use vstd::string::*;
use crate::text::{chars_of, cut, first_of, lemma_first_of, position_of};

verus! {

/// How the credentials are to be read.
#[derive(Debug, Clone, Copy, PartialEq, Eq, Structural)]
pub enum AuthType {
    Basic,
    Bearer,
}

/// The credentials that go with a request.
#[derive(Debug, Clone, PartialEq, Eq)]
pub enum Auth {
    /// A token.
    Bearer(String),
    /// A user name and a password.
    Basic(String, String),
}

/// Credentials as contracts speak of them.
pub enum AuthView {
    Bearer(Seq<char>),
    Basic(Seq<char>, Seq<char>),
}

impl View for Auth {
    type V = AuthView;

    open spec fn view(&self) -> AuthView {
        match *self {
            Auth::Bearer(token) => AuthView::Bearer(token@),
            Auth::Basic(user, password) => AuthView::Basic(user@, password@),
        }
    }
}

/// The credentials, where there are any, as their view.
pub open spec fn auth_view(auth: Option<Auth>) -> Option<AuthView> {
    match auth {
        Some(auth) => Some(auth@),
        None => None,
    }
}

/// What stands before the first colon of `raw`: all of it where it holds
/// none.
pub open spec fn user_of(raw: Seq<char>) -> Seq<char> {
    raw.subrange(0, first_of(raw, set![':']))
}

/// What stands behind the first colon of `raw`: nothing where it holds none.
pub open spec fn password_of(raw: Seq<char>) -> Seq<char> {
    let at = first_of(raw, set![':']);
    if at < raw.len() {
        raw.subrange(at + 1, raw.len() as int)
    } else {
        Seq::empty()
    }
}

/// The credentials that `raw` gives. Without `raw` there are none, whatever
/// the kind. A bearer token is all of `raw`. Else, and where no kind is
/// named, `raw` is a user name and a password with a colon between them.
pub open spec fn credentials(raw: Option<Seq<char>>, kind: Option<AuthType>) -> Option<AuthView> {
    match raw {
        None => None,
        Some(text) => Some(
            match kind {
                Some(AuthType::Bearer) => AuthView::Bearer(text),
                _ => AuthView::Basic(user_of(text), password_of(text)),
            },
        ),
    }
}

impl Auth {
    /// Reads the credentials as the kind says, as user name and password
    /// where it says nothing.
    pub fn new(raw: Option<String>, kind: Option<AuthType>) -> (auth: Option<Auth>)
        ensures
            auth_view(auth) == credentials(
                match raw {
                    Some(text) => Some(text@),
                    None => None,
                },
                kind,
            ),
    {
        match raw {
            None => None,
            Some(text) => match kind {
                Some(AuthType::Bearer) => Some(Auth::Bearer(text)),
                _ => {
                    let chars = chars_of(text.as_str());
                    let n = chars.len();
                    let at = position_of(&chars, ':');
                    proof {
                        lemma_first_of(text@, set![':']);
                    }
                    let user = cut(text.as_str(), 0, at);
                    let password = if at < n {
                        cut(text.as_str(), at + 1, n)
                    } else {
                        String::new()
                    };
                    Some(Auth::Basic(user, password))
                },
            },
        }
    }
}

} // verus!
