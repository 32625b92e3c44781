//! The polymorphic matcher capability and the mock registration surface.
//!
//! Heterogeneous matcher kinds are stored and invoked uniformly through the
//! [`Match`] trait; a [`Mock`] pairs one matcher with the (out-of-scope)
//! response behaviour it selects.

use vstd::prelude::*;

use crate::request::Request;

verus! {

/// The capability every matcher implements: a single boolean-returning
/// operation over an immutable request reference.
pub trait Match {
    /// The predicate this matcher decides, as a function of the request
    /// alone.
    spec fn spec_matches(&self, request: &Request) -> bool;

    /// Decide whether `request` satisfies this matcher. Matching never
    /// fails: the only answers are `true` and `false`, and the answer is a
    /// pure function of the request, so repeated calls on the same
    /// unmodified request agree.
    fn matches(&self, request: &Request) -> (r: bool)
        requires
            request.wf(),
        ensures
            r == self.spec_matches(request),
    ;
}

/// A registered mock: one matcher paired with a response behaviour. The
/// response side is an external collaborator; the only obligation here is to
/// accept an owned value implementing [`Match`] and to evaluate it.
pub struct Mock<M: Match> {
    /// The condition under which this mock applies to a request.
    pub matcher: M,
}

impl<M: Match> Mock<M> {
    /// Register `matcher` as the condition under which this mock applies.
    pub fn given(matcher: M) -> (r: Mock<M>)
        ensures
            r.matcher == matcher,
    {
        Mock { matcher }
    }

    /// Whether this mock applies to `request`.
    pub fn matches(&self, request: &Request) -> (r: bool)
        requires
            request.wf(),
        ensures
            r == self.matcher.spec_matches(request),
    {
        self.matcher.matches(request)
    }
}

} // verus!
