//! Stable and tenant identities.

use vstd::prelude::*;

use crate::text::{blank, is_blank};

verus! {

/// Persistent identity for a domain entity.
#[derive(Debug, PartialEq, Eq, PartialOrd, Ord, Hash)]
pub struct StableId(pub(crate) String);

/// Tenant scope participating in runtime authorization decisions.
#[derive(Debug, PartialEq, Eq, Hash)]
pub struct TenantId(pub(crate) String);

/// Invalid stable or tenant identity.
#[derive(Clone, Copy, Debug, PartialEq, Eq, Structural)]
pub enum IdentityError {
    /// Empty identifiers are not valid persistence keys.
    Empty,
}

impl View for StableId {
    type V = Seq<char>;

    closed spec fn view(&self) -> Seq<char> {
        self.0@
    }
}

impl DeepView for StableId {
    type V = Seq<char>;

    open spec fn deep_view(&self) -> Seq<char> {
        self.view()
    }
}

impl View for TenantId {
    type V = Seq<char>;

    closed spec fn view(&self) -> Seq<char> {
        self.0@
    }
}

impl DeepView for TenantId {
    type V = Seq<char>;

    open spec fn deep_view(&self) -> Seq<char> {
        self.view()
    }
}

impl Clone for StableId {
    fn clone(&self) -> (r: Self)
        ensures
            r@ == self@,
    {
        StableId(self.0.clone())
    }
}

impl Clone for TenantId {
    fn clone(&self) -> (r: Self)
        ensures
            r@ == self@,
    {
        TenantId(self.0.clone())
    }
}

impl StableId {
    /// An identity that the runtime makes up itself.
    pub(crate) fn generated(value: String) -> (r: Self)
        ensures
            r@ == value@,
    {
        StableId(value)
    }

    /// Creates a stable identifier.
    pub fn new(value: String) -> (r: Result<Self, IdentityError>)
        ensures
            match r {
                Ok(id) => !is_blank(value@) && id@ == value@,
                Err(error) => is_blank(value@) && error == IdentityError::Empty,
            },
    {
        if blank(value.as_str()) {
            return Err(IdentityError::Empty);
        }
        Ok(StableId(value))
    }

    /// Returns the serialized identifier.
    pub fn as_str(&self) -> (r: &str)
        ensures
            r@ == self@,
    {
        self.0.as_str()
    }

    /// The identifier's text as a key.
    pub(crate) fn key(&self) -> (r: &String)
        ensures
            r@ == self@,
    {
        &self.0
    }

    /// A copy of the identifier's text.
    pub fn text(&self) -> (r: String)
        ensures
            r@ == self@,
    {
        self.0.clone()
    }

    /// Whether two identifiers are the same.
    pub fn same(&self, other: &StableId) -> (r: bool)
        ensures
            r == (self@ == other@),
    {
        self.0 == other.0
    }
}

impl TenantId {
    /// The tenant scope of a standalone agent.
    pub(crate) fn local() -> (r: Self)
        ensures
            r@ == "local"@,
    {
        TenantId("local".to_owned())
    }

    /// Creates a tenant scope.
    pub fn new(value: String) -> (r: Result<Self, IdentityError>)
        ensures
            match r {
                Ok(id) => !is_blank(value@) && id@ == value@,
                Err(error) => is_blank(value@) && error == IdentityError::Empty,
            },
    {
        if blank(value.as_str()) {
            return Err(IdentityError::Empty);
        }
        Ok(TenantId(value))
    }

    /// Returns the tenant identifier.
    pub fn as_str(&self) -> (r: &str)
        ensures
            r@ == self@,
    {
        self.0.as_str()
    }

    /// Whether two tenant scopes are the same.
    pub fn same(&self, other: &TenantId) -> (r: bool)
        ensures
            r == (self@ == other@),
    {
        self.0 == other.0
    }
}

} // verus!
