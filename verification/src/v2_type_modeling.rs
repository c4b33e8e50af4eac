//! A connection whose state lives in its type: sending exists only once it
//! is authenticated, and every transition consumes the old state. The count
//! of messages sent travels through every transition.
use vstd::prelude::*;
use core::marker::PhantomData;
use crate::text::owned;

mod sealed;

verus! {

/// A connection state. Sealed: only the three states of this module exist.
pub trait ConnectionState: sealed::Sealed {
    /// The state's readable name.
    const NAME: &'static str;

    /// The text of the state's name.
    spec fn name_text() -> Seq<char>;

    /// The state's readable name, as `NAME` holds it.
    fn name() -> (r: &'static str)
        ensures
            r == Self::NAME,
            r@ == Self::name_text(),
    ;
}

/// Not connected.
#[derive(Debug, Clone, Copy, PartialEq, Eq)]
pub struct Disconnected;

/// Connected, not yet authenticated.
#[derive(Debug, Clone, Copy, PartialEq, Eq)]
pub struct Connected;

/// Authenticated: messages can be sent.
#[derive(Debug, Clone, Copy, PartialEq, Eq)]
pub struct Authenticated;

impl sealed::Sealed for Disconnected {
}

impl sealed::Sealed for Connected {
}

impl sealed::Sealed for Authenticated {
}

impl ConnectionState for Disconnected {
    const NAME: &'static str = "disconnected";

    open spec fn name_text() -> Seq<char> {
        "disconnected"@
    }

    fn name() -> (r: &'static str) {
        let r = Self::NAME;
        proof {
            reveal_strlit("disconnected");
        }
        r
    }
}

impl ConnectionState for Connected {
    const NAME: &'static str = "connected";

    open spec fn name_text() -> Seq<char> {
        "connected"@
    }

    fn name() -> (r: &'static str) {
        let r = Self::NAME;
        proof {
            reveal_strlit("connected");
        }
        r
    }
}

impl ConnectionState for Authenticated {
    const NAME: &'static str = "authenticated";

    open spec fn name_text() -> Seq<char> {
        "authenticated"@
    }

    fn name() -> (r: &'static str) {
        let r = Self::NAME;
        proof {
            reveal_strlit("authenticated");
        }
        r
    }
}

/// Why authentication failed.
#[derive(Debug, Clone, Copy, PartialEq, Eq, Structural)]
pub enum AuthError {
    /// The token is empty.
    EmptyToken,
}

impl AuthError {
    /// The error message, as the `Display` form shows it.
    pub fn message(&self) -> (r: String)
        ensures
            r@ == "authentication token must not be empty"@,
    {
        owned("authentication token must not be empty")
    }
}

/// A connection to an endpoint, in the state `S`, with the number of
/// messages sent so far.
pub struct Connection<S: ConnectionState> {
    endpoint: String,
    sent: usize,
    _state: PhantomData<S>,
}

impl<S: ConnectionState> Connection<S> {
    /// The endpoint.
    pub closed spec fn endpoint_spec(&self) -> Seq<char> {
        self.endpoint@
    }

    /// The number of messages sent so far.
    pub closed spec fn sent_spec(&self) -> nat {
        self.sent as nat
    }

    /// The endpoint, readable in every state.
    pub fn endpoint(&self) -> (r: &str)
        ensures
            r@ == self.endpoint_spec(),
    {
        self.endpoint.as_str()
    }

    /// The name of the current state.
    pub fn state_name(&self) -> (r: &'static str)
        ensures
            r == S::NAME,
            r@ == S::name_text(),
    {
        S::name()
    }
}

impl Connection<Disconnected> {
    /// A connection that has not connected yet.
    pub fn new(endpoint: &str) -> (c: Self)
        ensures
            c.endpoint_spec() == endpoint@,
            c.sent_spec() == 0,
    {
        Connection { endpoint: owned(endpoint), sent: 0, _state: PhantomData }
    }

    /// Connects.
    pub fn connect(self) -> (c: Connection<Connected>)
        ensures
            c.endpoint_spec() == self.endpoint_spec(),
            c.sent_spec() == self.sent_spec(),
    {
        Connection { endpoint: self.endpoint, sent: self.sent, _state: PhantomData }
    }
}

impl Connection<Connected> {
    /// Authenticates with a token; an empty token is refused.
    pub fn authenticate(self, token: &str) -> (r: Result<Connection<Authenticated>, AuthError>)
        ensures
            token@.len() == 0 <==> r is Err,
            r matches Err(e) ==> e == AuthError::EmptyToken,
            r matches Ok(c) ==> c.endpoint_spec() == self.endpoint_spec() && c.sent_spec()
                == self.sent_spec(),
    {
        if token.is_empty() {
            return Err(AuthError::EmptyToken);
        }
        Ok(Connection { endpoint: self.endpoint, sent: self.sent, _state: PhantomData })
    }

    /// Disconnects.
    pub fn disconnect(self) -> (c: Connection<Disconnected>)
        ensures
            c.endpoint_spec() == self.endpoint_spec(),
            c.sent_spec() == self.sent_spec(),
    {
        Connection { endpoint: self.endpoint, sent: self.sent, _state: PhantomData }
    }
}

impl Connection<Authenticated> {
    /// Sends a message; returns the number sent so far.
    pub fn send(&mut self, _message: &str) -> (n: usize)
        requires
            old(self).sent_spec() < usize::MAX,
        ensures
            final(self).sent_spec() == old(self).sent_spec() + 1,
            final(self).endpoint_spec() == old(self).endpoint_spec(),
            n == final(self).sent_spec(),
    {
        self.sent = self.sent + 1;
        self.sent
    }

    /// The number of messages sent so far.
    pub fn sent_count(&self) -> (n: usize)
        ensures
            n == self.sent_spec(),
    {
        self.sent
    }

    /// Logs out, keeping the count.
    pub fn logout(self) -> (c: Connection<Connected>)
        ensures
            c.endpoint_spec() == self.endpoint_spec(),
            c.sent_spec() == self.sent_spec(),
    {
        Connection { endpoint: self.endpoint, sent: self.sent, _state: PhantomData }
    }
}

} // verus!
