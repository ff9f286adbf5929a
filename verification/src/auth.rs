//! The log-in / register panel: its mode, the request a submission
//! sends (one at a time), and what an answer does. The form fields and
//! the network request belong to the caller.

use vstd::prelude::*;

verus! {

/// Log in to an existing account, or create one.
#[derive(Copy, Clone, PartialEq, Eq, Debug, Structural)]
pub enum AuthMode {
    Login,
    Register,
}

/// The request a submission sends.
pub enum AuthRequest {
    Login { email: String, password: String },
    Register { username: String, email: String, password: String },
}

/// What the panel reports: the user `U` logged in or registered, or the
/// panel was closed.
pub enum AuthEvent<U> {
    Authenticated(U),
    Cancelled,
}

/// The panel's state.
pub struct AuthView {
    pub mode: AuthMode,
    /// The last error, shown under the form.
    pub error: Option<String>,
    /// A request is under way.
    pub pending: bool,
}

/// Label keys of the panel's texts.
pub open spec fn title_key(mode: AuthMode) -> Seq<char> {
    if mode == AuthMode::Login { "auth.login"@ } else { "auth.register"@ }
}

impl AuthView {
    /// The log-in form, nothing pending.
    pub fn new() -> (r: Self)
        ensures
            r.mode == AuthMode::Login,
            r.error is None,
            !r.pending,
    {
        AuthView { mode: AuthMode::Login, error: None, pending: false }
    }

    /// The submit button with the form's fields: a request, unless one
    /// is already under way (`None`); the error is cleared.
    pub fn submit(&mut self, email: String, password: String, username: String) -> (r: Option<AuthRequest>)
        ensures
            old(self).pending ==> r is None && final(self).pending && final(self).error == old(self).error,
            !old(self).pending ==> final(self).pending && final(self).error is None && match r {
                Some(AuthRequest::Login { email: e, password: p }) => old(self).mode == AuthMode::Login && e == email
                    && p == password,
                Some(AuthRequest::Register { username: u, email: e, password: p }) => old(self).mode
                    == AuthMode::Register && u == username && e == email && p == password,
                None => false,
            },
            final(self).mode == old(self).mode,
    {
        if self.pending {
            return None;
        }
        self.pending = true;
        self.error = None;
        match self.mode {
            AuthMode::Login => Some(AuthRequest::Login { email, password }),
            AuthMode::Register => Some(AuthRequest::Register { username, email, password }),
        }
    }

    /// The answer arrived: on success the panel reports the user; on
    /// failure it shows the message.
    pub fn finish<U>(&mut self, result: Result<U, String>) -> (r: Option<AuthEvent<U>>)
        ensures
            !final(self).pending,
            result matches Ok(u) ==> r matches Some(AuthEvent::Authenticated(v)) && v == u,
            result is Ok ==> final(self).error == old(self).error,
            result matches Err(m) ==> r is None && final(self).error == Some(m),
            final(self).mode == old(self).mode,
    {
        self.pending = false;
        match result {
            Ok(user) => Some(AuthEvent::Authenticated(user)),
            Err(m) => {
                self.error = Some(m);
                None
            },
        }
    }

    /// The mode switch: log in <-> register; the error is cleared.
    pub fn toggle_mode(&mut self)
        ensures
            final(self).mode == (if old(self).mode == AuthMode::Login { AuthMode::Register } else { AuthMode::Login }),
            final(self).error is None,
            final(self).pending == old(self).pending,
    {
        self.mode = match self.mode {
            AuthMode::Login => AuthMode::Register,
            AuthMode::Register => AuthMode::Login,
        };
        self.error = None;
    }

    /// Label key of the submit button.
    pub fn submit_label_key(&self) -> (r: &'static str)
        ensures
            r@ == (if self.pending {
                "auth.loading"@
            } else if self.mode == AuthMode::Login {
                "auth.login_confirm"@
            } else {
                "auth.register_confirm"@
            }),
    {
        if self.pending {
            "auth.loading"
        } else {
            match self.mode {
                AuthMode::Login => "auth.login_confirm",
                AuthMode::Register => "auth.register_confirm",
            }
        }
    }

    /// Label keys of the title and of the mode switch.
    pub fn mode_label_keys(&self) -> (r: (&'static str, &'static str))
        ensures
            r.0@ == title_key(self.mode),
            r.1@ == (if self.mode == AuthMode::Login { "auth.switch_to_register"@ } else { "auth.switch_to_login"@ }),
    {
        match self.mode {
            AuthMode::Login => ("auth.login", "auth.switch_to_register"),
            AuthMode::Register => ("auth.register", "auth.switch_to_login"),
        }
    }

    /// The username field is shown when registering.
    pub fn shows_username(&self) -> (r: bool)
        ensures
            r == (self.mode == AuthMode::Register),
    {
        match self.mode {
            AuthMode::Register => true,
            AuthMode::Login => false,
        }
    }
}

} // verus!
