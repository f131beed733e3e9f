//! The state that an application shares with its handlers.

use crate::request::Request;
use vstd::prelude::*;

verus! {

/// The state of an application, as the router keeps it.
#[derive(Debug, Default, Clone, Copy)]
pub struct State<S>(pub S);

/// What a handler can take as its first argument: a value made from the
/// shared state and the request.
pub trait FromRequest<S>: Sized {
    /// Makes the value for one request.
    fn from_request(state: State<S>, request: Request) -> Self;
}

impl<S: Clone> FromRequest<S> for S {
    /// The state itself.
    fn from_request(state: State<S>, _request: Request) -> (own: Self)
        ensures
            own == state.0,
    {
        state.0
    }
}

impl<S> core::ops::Deref for State<S> {
    type Target = S;

    fn deref(&self) -> (inner: &S)
        ensures
            *inner == self.0,
    {
        &self.0
    }
}

} // verus!
