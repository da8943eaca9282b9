//! Bearer tokens for the cloud data API.
use vstd::prelude::*;

use crate::text::{concat, copy_opt, opt_chars};

verus! {

/// A bearer token that is set by hand.
#[derive(Debug)]
pub struct BearerAuth {
    token: Option<String>,
}

impl View for BearerAuth {
    type V = Option<Seq<char>>;

    closed spec fn view(&self) -> Option<Seq<char>> {
        opt_chars(self.token)
    }
}

impl Default for BearerAuth {
    fn default() -> (a: Self)
        ensures
            a@ is None,
    {
        BearerAuth { token: None }
    }
}

impl BearerAuth {
    /// A token, or none yet.
    pub fn new(token: Option<String>) -> (a: Self)
        ensures
            a@ == opt_chars(token),
    {
        BearerAuth { token }
    }

    /// Sets the token.
    pub fn set_token(&mut self, token: &str)
        ensures
            final(self)@ == Some(token@),
    {
        self.token = Some(token.to_owned());
    }

    /// The token, if one is set.
    pub fn token(&self) -> (r: Option<String>)
        ensures
            opt_chars(r) == self@,
    {
        copy_opt(&self.token)
    }

    /// The value of the `Authorization` header, if a token is set.
    pub fn authorization(&self) -> (r: Option<String>)
        ensures
            opt_chars(r) == (match self@ {
                Some(t) => Some("Bearer "@ + t),
                None => None,
            }),
    {
        match &self.token {
            Some(t) => Some(concat("Bearer ", t.as_str())),
            None => None,
        }
    }
}

} // verus!
