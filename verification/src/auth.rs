//! Login providers: how credentials get attached to a context.
//!
//! A login provider takes the selected context and returns it with its
//! credentials replaced. The basic provider needs nothing but the values it
//! was built with; the interactive OIDC login lives in the surrounding
//! application, which records its outcome through `Auth::oidc`.

use vstd::prelude::*;

use crate::context::{Auth, Context, ContextView};
use crate::error::Error;
use crate::views::{clone_opt_str, opt_str_view};

verus! {

/// A way to log in: exchanges the selected context for the same context
/// with credentials set.
pub trait AuthProvider: Sized {
    /// What a successful login of this provider does to the context.
    spec fn login_ensures(&self, before: ContextView, after: ContextView) -> bool;

    /// Performs the login against the given context.
    fn login(&self, ctx: Context) -> (r: Result<Context, Error>)
        ensures
            r matches Ok(c) ==> self.login_ensures(ctx@, c@),
    ;
}

/// Basic authentication: a username and an optional password, attached to
/// the context as they are.
pub struct BasicAuthProvider {
    username: String,
    password: Option<String>,
}

impl BasicAuthProvider {
    /// A provider that will attach the given username and password.
    pub fn new(username: String, password: Option<String>) -> (r: BasicAuthProvider)
        ensures
            r.username_view() == username@,
            r.password_view() == opt_str_view(password),
    {
        BasicAuthProvider { username, password }
    }

    /// The username this provider attaches.
    pub closed spec fn username_view(&self) -> Seq<char> {
        self.username@
    }

    /// The password this provider attaches, if one was given.
    pub closed spec fn password_view(&self) -> Option<Seq<char>> {
        opt_str_view(self.password)
    }
}

impl AuthProvider for BasicAuthProvider {
    /// A basic login keeps the context and replaces only its credentials.
    open spec fn login_ensures(&self, before: ContextView, after: ContextView) -> bool {
        after == ContextView {
            auth: crate::context::AuthView::Basic {
                username: self.username_view(),
                password: self.password_view(),
            },
            ..before
        }
    }

    /// A basic login makes no outside call and cannot fail.
    fn login(&self, ctx: Context) -> (r: Result<Context, Error>)
        ensures
            r is Ok,
    {
        let mut ctx = ctx;
        ctx.set_auth(
            Auth::Basic { username: self.username.clone(), password: clone_opt_str(&self.password) },
        );
        Ok(ctx)
    }
}

} // verus!
