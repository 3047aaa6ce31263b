//! Name domains: the capability set that separates the namespaces an
//! identifier may live in. One identifier can denote a type-domain and a
//! value-domain entity in the same scope without conflict.

use vstd::prelude::*;

verus! {

/// A set over the three capabilities {Type, Value, Field}. The empty set is
/// the invalid domain.
#[derive(Clone, Copy, Debug, PartialEq, Eq, Structural, Hash)]
pub struct NameDomain {
    pub is_type: bool,
    pub is_value: bool,
    pub is_field: bool,
}

impl NameDomain {
    /// The empty (invalid) domain.
    pub open spec fn spec_invalid() -> NameDomain {
        NameDomain { is_type: false, is_value: false, is_field: false }
    }

    /// The domain of type-level names.
    pub open spec fn spec_type() -> NameDomain {
        NameDomain { is_type: true, is_value: false, is_field: false }
    }

    /// The domain of value-level names.
    pub open spec fn spec_value() -> NameDomain {
        NameDomain { is_type: false, is_value: true, is_field: false }
    }

    /// The domain of field names.
    pub open spec fn spec_field() -> NameDomain {
        NameDomain { is_type: false, is_value: false, is_field: true }
    }

    /// The capability-wise union of two domains.
    pub open spec fn spec_union(self, other: NameDomain) -> NameDomain {
        NameDomain {
            is_type: self.is_type || other.is_type,
            is_value: self.is_value || other.is_value,
            is_field: self.is_field || other.is_field,
        }
    }

    /// Whether the two domains share a capability.
    pub open spec fn spec_intersects(self, other: NameDomain) -> bool {
        ||| self.is_type && other.is_type
        ||| self.is_value && other.is_value
        ||| self.is_field && other.is_field
    }

    /// Whether the domain is empty.
    pub open spec fn spec_is_invalid(self) -> bool {
        self == NameDomain::spec_invalid()
    }

    /// The empty (invalid) domain.
    #[verifier::when_used_as_spec(spec_invalid)]
    pub fn invalid() -> (r: NameDomain)
        ensures
            r == NameDomain::spec_invalid(),
    {
        NameDomain { is_type: false, is_value: false, is_field: false }
    }

    /// The domain of type-level names.
    #[verifier::when_used_as_spec(spec_type)]
    pub fn type_dom() -> (r: NameDomain)
        ensures
            r == NameDomain::spec_type(),
    {
        NameDomain { is_type: true, is_value: false, is_field: false }
    }

    /// The domain of value-level names.
    #[verifier::when_used_as_spec(spec_value)]
    pub fn value_dom() -> (r: NameDomain)
        ensures
            r == NameDomain::spec_value(),
    {
        NameDomain { is_type: false, is_value: true, is_field: false }
    }

    /// The domain of field names.
    #[verifier::when_used_as_spec(spec_field)]
    pub fn field_dom() -> (r: NameDomain)
        ensures
            r == NameDomain::spec_field(),
    {
        NameDomain { is_type: false, is_value: false, is_field: true }
    }

    /// The capability-wise union of two domains.
    pub fn union(self, other: NameDomain) -> (r: NameDomain)
        ensures
            r == self.spec_union(other),
    {
        NameDomain {
            is_type: self.is_type || other.is_type,
            is_value: self.is_value || other.is_value,
            is_field: self.is_field || other.is_field,
        }
    }

    /// Whether the two domains share a capability.
    pub fn intersects(self, other: NameDomain) -> (r: bool)
        ensures
            r == self.spec_intersects(other),
    {
        (self.is_type && other.is_type) || (self.is_value && other.is_value) || (self.is_field
            && other.is_field)
    }

    /// Whether the domain is empty.
    pub fn is_invalid(self) -> (r: bool)
        ensures
            r == self.spec_is_invalid(),
    {
        !self.is_type && !self.is_value && !self.is_field
    }
}

impl Default for NameDomain {
    /// The default domain is the empty (invalid) one.
    fn default() -> (r: NameDomain)
        ensures
            r == NameDomain::spec_invalid(),
    {
        NameDomain::invalid()
    }
}

} // verus!
