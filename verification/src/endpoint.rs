//! Endpoints: a transport together with the authority it stands for.

use vstd::prelude::*;

verus! {

/// Mathematical value of an [`Endpoint`].
pub struct EndpointView {
    pub name: Seq<char>,
    pub authority: Seq<char>,
    pub transport: u64,
    pub rewrites_authority: bool,
}

/// A transport and the authority that it stands for on that transport.
///
/// The transport itself is kept by whoever runs the engine; an endpoint only
/// holds the number under which it is found again. An endpoint never changes
/// once it is made.
#[derive(Debug)]
pub struct Endpoint {
    name: String,
    authority: String,
    transport: u64,
    rewrites_authority: bool,
}

impl View for Endpoint {
    type V = EndpointView;

    closed spec fn view(&self) -> EndpointView {
        EndpointView {
            name: self.name@,
            authority: self.authority@,
            transport: self.transport,
            rewrites_authority: self.rewrites_authority,
        }
    }
}

impl Clone for Endpoint {
    fn clone(&self) -> (r: Self)
        ensures
            r@ == self@,
    {
        Endpoint {
            name: self.name.clone(),
            authority: self.authority.clone(),
            transport: self.transport,
            rewrites_authority: self.rewrites_authority,
        }
    }
}

impl PartialEq for Endpoint {
    fn eq(&self, other: &Self) -> (r: bool) {
        self.name == other.name && self.authority == other.authority && self.transport
            == other.transport && self.rewrites_authority == other.rewrites_authority
    }
}

impl Eq for Endpoint {

}

impl vstd::std_specs::cmp::PartialEqSpecImpl for Endpoint {
    open spec fn obeys_eq_spec() -> bool {
        true
    }

    open spec fn eq_spec(&self, other: &Self) -> bool {
        self@ == other@
    }
}

impl Endpoint {
    /// The endpoint called `name` that stands for `authority` on the
    /// transport numbered `transport`. Messages that leave through it keep
    /// their source as it is.
    pub fn new(name: &str, authority: &str, transport: u64) -> (r: Endpoint)
        ensures
            r@ == (EndpointView {
                name: name@,
                authority: authority@,
                transport,
                rewrites_authority: false,
            }),
    {
        Endpoint {
            name: name.to_owned(),
            authority: authority.to_owned(),
            transport,
            rewrites_authority: false,
        }
    }

    /// As [`Endpoint::new`], for an endpoint that requires the source of
    /// every message leaving through it to be placed under its own
    /// authority.
    pub fn with_authority_rewriting(name: &str, authority: &str, transport: u64) -> (r: Endpoint)
        ensures
            r@ == (EndpointView {
                name: name@,
                authority: authority@,
                transport,
                rewrites_authority: true,
            }),
    {
        Endpoint {
            name: name.to_owned(),
            authority: authority.to_owned(),
            transport,
            rewrites_authority: true,
        }
    }

    pub fn name(&self) -> (r: &String)
        ensures
            r@ == self@.name,
    {
        &self.name
    }

    pub fn authority(&self) -> (r: &String)
        ensures
            r@ == self@.authority,
    {
        &self.authority
    }

    pub fn transport(&self) -> (r: u64)
        ensures
            r == self@.transport,
    {
        self.transport
    }

    pub fn rewrites_authority(&self) -> (r: bool)
        ensures
            r == self@.rewrites_authority,
    {
        self.rewrites_authority
    }

    /// Whether `self` and `other` are the same endpoint.
    pub fn same(&self, other: &Endpoint) -> (r: bool)
        ensures
            r == (self@ == other@),
    {
        *self == *other
    }
}

} // verus!
