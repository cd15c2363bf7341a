//! Registry connection contexts: a named registry URL plus credentials.
//!
//! A context file holds any number of named contexts and an optional
//! pointer to the current one. A run selects a context by name (or falls
//! back to the current pointer), and an environment-supplied URL always
//! overrides the URL stored in the file. The file reading and writing is
//! done by the surrounding application; the selection, merging and update
//! rules live here.

use vstd::prelude::*;

use crate::error::Error;
use crate::string_map::StringMap;
use crate::views::{clone_opt_str, opt_str_view};

verus! {

/// Credentials for a registry, as stored in a context.
pub enum Auth {
    /// A token obtained from an OIDC login, with its refresh data.
    Oidc {
        issuer_url: String,
        client_id: String,
        access_token: String,
        refresh_token: Option<String>,
        /// Seconds since the Unix epoch at which the access token expires.
        expires_at: i64,
    },
    /// A username with an optional password.
    Basic { username: String, password: Option<String> },
    /// No credentials: requests are sent unauthenticated.
    Anonymous,
}

/// The view of `Auth`, over character sequences.
pub enum AuthView {
    Oidc {
        issuer_url: Seq<char>,
        client_id: Seq<char>,
        access_token: Seq<char>,
        refresh_token: Option<Seq<char>>,
        expires_at: i64,
    },
    Basic { username: Seq<char>, password: Option<Seq<char>> },
    Anonymous,
}

impl View for Auth {
    type V = AuthView;

    open spec fn view(&self) -> AuthView {
        match self {
            Auth::Oidc { issuer_url, client_id, access_token, refresh_token, expires_at } => {
                AuthView::Oidc {
                    issuer_url: issuer_url@,
                    client_id: client_id@,
                    access_token: access_token@,
                    refresh_token: opt_str_view(*refresh_token),
                    expires_at: *expires_at,
                }
            },
            Auth::Basic { username, password } => {
                AuthView::Basic { username: username@, password: opt_str_view(*password) }
            },
            Auth::Anonymous => AuthView::Anonymous,
        }
    }
}

impl Clone for Auth {
    fn clone(&self) -> (r: Auth)
        ensures
            r == *self,
    {
        match self {
            Auth::Oidc { issuer_url, client_id, access_token, refresh_token, expires_at } => {
                Auth::Oidc {
                    issuer_url: issuer_url.clone(),
                    client_id: client_id.clone(),
                    access_token: access_token.clone(),
                    refresh_token: clone_opt_str(refresh_token),
                    expires_at: *expires_at,
                }
            },
            Auth::Basic { username, password } => {
                Auth::Basic { username: username.clone(), password: clone_opt_str(password) }
            },
            Auth::Anonymous => Auth::Anonymous,
        }
    }
}

impl Default for Auth {
    /// The default is to send requests unauthenticated.
    fn default() -> (r: Auth)
        ensures
            r == Auth::Anonymous,
    {
        Auth::Anonymous
    }
}

/// The tokens obtained from a completed OIDC login.
pub struct TokenSet {
    pub access_token: String,
    pub refresh_token: Option<String>,
    /// Seconds since the Unix epoch at which the access token expires.
    pub expires_at: i64,
}

impl Clone for TokenSet {
    fn clone(&self) -> (r: TokenSet)
        ensures
            r == *self,
    {
        TokenSet {
            access_token: self.access_token.clone(),
            refresh_token: clone_opt_str(&self.refresh_token),
            expires_at: self.expires_at,
        }
    }
}

/// The expiry instant of a token obtained at `now` (seconds since the Unix
/// epoch) that lasts `expires_in` seconds, if the issuer said how long it
/// lasts. The sum saturates instead of wrapping.
pub open spec fn token_expiry(now: i64, expires_in: Option<u64>) -> int {
    let secs: int = match expires_in {
        Some(s) => if s > i64::MAX as u64 {
            i64::MAX as int
        } else {
            s as int
        },
        None => 0,
    };
    if now + secs > i64::MAX as int {
        i64::MAX as int
    } else {
        now + secs
    }
}

impl TokenSet {
    /// Builds the token set recorded after a login that finished at `now`
    /// (seconds since the Unix epoch), with the issuer's optional lifetime.
    pub fn new(access_token: String, refresh_token: Option<String>, now: i64, expires_in: Option<
        u64,
    >) -> (r: TokenSet)
        ensures
            r.access_token@ == access_token@,
            opt_str_view(r.refresh_token) == opt_str_view(refresh_token),
            r.expires_at == token_expiry(now, expires_in),
    {
        let secs: i64 = match expires_in {
            Some(s) => if s > i64::MAX as u64 {
                i64::MAX
            } else {
                s as i64
            },
            None => 0,
        };
        let expires_at = match now.checked_add(secs) {
            Some(t) => t,
            None => i64::MAX,
        };
        TokenSet { access_token, refresh_token, expires_at }
    }
}

impl Auth {
    /// The OIDC credentials recorded after a login against `issuer_url`
    /// with `client_id` yielded `tokens`.
    pub fn oidc(issuer_url: String, client_id: String, tokens: TokenSet) -> (r: Auth)
        ensures
            r matches Auth::Oidc {
                issuer_url: iss,
                client_id: cid,
                access_token: at,
                refresh_token: rt,
                expires_at: exp,
            } && iss@ == issuer_url@ && cid@ == client_id@ && at@ == tokens.access_token@
                && opt_str_view(rt) == opt_str_view(tokens.refresh_token) && exp
                == tokens.expires_at,
    {
        Auth::Oidc {
            issuer_url,
            client_id,
            access_token: tokens.access_token,
            refresh_token: tokens.refresh_token,
            expires_at: tokens.expires_at,
        }
    }
}

/// A selected registry connection: the context's name, the registry URL,
/// and the credentials to use.
pub struct Context {
    pub context_name: String,
    pub registry_url: String,
    pub auth: Auth,
}

/// The view of `Context`.
pub struct ContextView {
    pub context_name: Seq<char>,
    pub registry_url: Seq<char>,
    pub auth: AuthView,
}

impl View for Context {
    type V = ContextView;

    open spec fn view(&self) -> ContextView {
        ContextView {
            context_name: self.context_name@,
            registry_url: self.registry_url@,
            auth: self.auth@,
        }
    }
}

impl Clone for Context {
    fn clone(&self) -> (r: Context)
        ensures
            r == *self,
    {
        Context {
            context_name: self.context_name.clone(),
            registry_url: self.registry_url.clone(),
            auth: self.auth.clone(),
        }
    }
}

impl Context {
    /// A context with no credentials.
    pub fn new(context_name: String, registry_url: String) -> (r: Context)
        ensures
            r.context_name@ == context_name@,
            r.registry_url@ == registry_url@,
            r.auth == Auth::Anonymous,
    {
        Context { context_name, registry_url, auth: Auth::default() }
    }

    /// Replaces the credentials of this context.
    pub fn set_auth(&mut self, auth: Auth)
        ensures
            final(self).context_name == old(self).context_name,
            final(self).registry_url == old(self).registry_url,
            final(self).auth == auth,
    {
        self.auth = auth;
    }

    /// Combines the context read from the file with the one read from the
    /// environment: if both are present, the environment's registry URL
    /// overrides the file's, and everything else is kept from the file;
    /// otherwise whichever is present wins.
    pub fn merge(this: Option<Context>, other: Option<Context>) -> (r: Option<Context>)
        ensures
            (this is Some && other is Some) ==> (r matches Some(c) && c.context_name
                == this->0.context_name && c.auth == this->0.auth && c.registry_url
                == other->0.registry_url),
            (this is Some && other is None) ==> r == this,
            this is None ==> r == other,
    {
        match (this, other) {
            (Some(mut t), Some(o)) => {
                t.registry_url = o.registry_url;
                Some(t)
            },
            (Some(t), None) => Some(t),
            (None, o) => o,
        }
    }

    /// The context described by the environment alone: a URL (if the URL
    /// variable is set) and a name that falls back to the URL itself.
    pub fn from_env_values(url: Option<String>, name: Option<String>) -> (r: Option<Context>)
        ensures
            url matches Some(u) ==> (r matches Some(c) && c.registry_url@ == u@ && c.auth
                == Auth::Anonymous && c.context_name@ == match name {
                Some(n) => n@,
                None => u@,
            }),
            url is None ==> r is None,
    {
        match url {
            Some(u) => {
                let n = match name {
                    Some(n) => n,
                    None => u.clone(),
                };
                Some(Context::new(n, u))
            },
            None => None,
        }
    }
}

/// One named registry in the context file.
pub struct RegistryContext {
    pub url: String,
    pub auth: Auth,
}

/// The view of `RegistryContext`.
pub struct RegistryContextView {
    pub url: Seq<char>,
    pub auth: AuthView,
}

impl View for RegistryContext {
    type V = RegistryContextView;

    open spec fn view(&self) -> RegistryContextView {
        RegistryContextView { url: self.url@, auth: self.auth@ }
    }
}

/// The persisted context file: named contexts plus the name of the current
/// one, if any was set.
pub struct ContextFile {
    pub current_context: Option<String>,
    pub contexts: StringMap<RegistryContext>,
}

impl ContextFile {
    /// The file an initialization writes: no contexts, no current pointer.
    pub fn empty() -> (r: ContextFile)
        ensures
            r.current_context is None,
            r.contexts@ == Map::<Seq<char>, RegistryContextView>::empty(),
    {
        ContextFile { current_context: None, contexts: StringMap::new() }
    }

    /// Selects a context: an explicitly requested name wins, otherwise the
    /// file's current pointer is used; the result carries the stored URL
    /// and credentials of the chosen entry. Returns nothing when neither
    /// names an entry of the file.
    pub fn select(&self, context_name: Option<String>) -> (r: Option<Context>)
        ensures
            match self.selected_name(opt_str_view(context_name)) {
                Some(n) => r matches Some(c) && c.context_name@ == n && c.registry_url@
                    == self.contexts@[n].url && c.auth@ == self.contexts@[n].auth,
                None => r is None,
            },
    {
        let name: Option<&String> = match &context_name {
            Some(n) => Some(n),
            None => match &self.current_context {
                Some(n) => Some(n),
                None => None,
            },
        };
        match name {
            Some(n) => match self.contexts.get(n) {
                Some(entry) => {
                    let mut ctx = Context::new(n.clone(), entry.url.clone());
                    ctx.set_auth(entry.auth.clone());
                    Some(ctx)
                },
                None => None,
            },
            None => None,
        }
    }

    /// The name `select` resolves: the requested one, or the current
    /// pointer, provided the file has an entry under it.
    pub open spec fn selected_name(&self, requested: Option<Seq<char>>) -> Option<Seq<char>> {
        let name = match requested {
            Some(n) => Some(n),
            None => opt_str_view(self.current_context),
        };
        match name {
            Some(n) => if self.contexts@.contains_key(n) {
                Some(n)
            } else {
                None
            },
            None => None,
        }
    }

    /// Stores a context under its name, replacing any previous entry, and
    /// makes it current when asked to.
    pub fn upsert(&mut self, ctx: &Context, current: bool)
        ensures
            final(self).contexts@ == old(self).contexts@.insert(
                ctx.context_name@,
                RegistryContextView { url: ctx.registry_url@, auth: ctx.auth@ },
            ),
            opt_str_view(final(self).current_context) == if current {
                Some(ctx.context_name@)
            } else {
                opt_str_view(old(self).current_context)
            },
    {
        self.contexts.insert(
            ctx.context_name.clone(),
            RegistryContext { url: ctx.registry_url.clone(), auth: ctx.auth.clone() },
        );
        if current {
            self.current_context = Some(ctx.context_name.clone());
        }
    }
}

/// The context used when a command must run with a context but none is
/// configured: the rule for `context set`. An entry already stored under
/// the name wins; otherwise a URL must have been supplied to create one;
/// in both cases a supplied URL overrides the stored one.
pub fn context_for_set(selected: Option<Context>, context_name: &String, url: Option<String>) -> (r:
    Result<Context, Error>)
    ensures
        match selected {
            Some(c) => r matches Ok(out) && out.context_name == c.context_name && out.auth
                == c.auth && out.registry_url@ == match opt_str_view(url) {
                Some(u) => u,
                None => c.registry_url@,
            },
            None => match url {
                Some(u) => r matches Ok(out) && out.context_name@ == context_name@
                    && out.registry_url@ == u@ && out.auth == Auth::Anonymous,
                None => r is Err,
            },
        },
{
    match selected {
        Some(mut c) => {
            match url {
                Some(u) => {
                    c.registry_url = u;
                },
                None => {},
            }
            Ok(c)
        },
        None => match url {
            Some(u) => Ok(Context::new(context_name.clone(), u)),
            None => Err(Error::setup("URL is required to create a new context")),
        },
    }
}

} // verus!
