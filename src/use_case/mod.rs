use vstd::prelude::*;

pub mod factory;
pub mod instance_factory;

verus! {

/// The secret half of a capability: whoever holds it may materialize the
/// pending data behind the matching public key.
#[derive(Hash, Clone, Copy)]
pub struct PrivateInstanceKey(pub u64);

impl PrivateInstanceKey {
    /// The raw key material.
    pub open spec fn value(self) -> u64 {
        self.0
    }
}

impl From<u64> for PrivateInstanceKey {
    fn from(value: u64) -> (r: Self)
        ensures
            r.value() == value,
    {
        Self(value)
    }
}

impl vstd::std_specs::convert::FromSpecImpl<u64> for PrivateInstanceKey {
    open spec fn obeys_from_spec() -> bool {
        true
    }

    open spec fn from_spec(v: u64) -> Self {
        PrivateInstanceKey(v)
    }
}

/// The shareable half of a capability, derived from the private key.
#[derive(Eq, Hash, Clone, Copy)]
pub struct PublicInstanceKey(pub u64);

impl PublicInstanceKey {
    /// The raw key value.
    pub open spec fn value(self) -> u64 {
        self.0
    }

    /// The raw key value, as used to index pending data.
    pub fn raw(&self) -> (r: u64)
        ensures
            r == self.value(),
    {
        self.0
    }
}

impl PartialEq for PublicInstanceKey {
    fn eq(&self, other: &PublicInstanceKey) -> (r: bool)
        ensures
            r == (*self == *other),
    {
        self.0 == other.0
    }
}

impl vstd::std_specs::cmp::PartialEqSpecImpl for PublicInstanceKey {
    open spec fn obeys_eq_spec() -> bool {
        true
    }

    open spec fn eq_spec(&self, other: &PublicInstanceKey) -> bool {
        self.0 == other.0
    }
}

impl From<u64> for PublicInstanceKey {
    fn from(value: u64) -> (r: Self)
        ensures
            r.value() == value,
    {
        Self(value)
    }
}

impl vstd::std_specs::convert::FromSpecImpl<u64> for PublicInstanceKey {
    open spec fn obeys_from_spec() -> bool {
        true
    }

    open spec fn from_spec(v: u64) -> Self {
        PublicInstanceKey(v)
    }
}

/// The logical, human-meaningful identity of a unit of produced work.
pub type InstanceId = String;

} // verus!
