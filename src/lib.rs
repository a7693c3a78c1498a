//! Capability-gated instantiation: a factory hands out a private key per
//! logical id and materializes the data behind the matching public key only
//! for holders of that private key; a broker holds such capabilities and
//! instantiates on behalf of its own callers.
use vstd::prelude::*;
use vstd::std_specs::cmp::PartialEqSpec;

pub mod use_case;

verus! {

/// Why an instantiation did not produce an object.
#[derive(Debug, Clone, Copy, PartialEq, Eq, Structural)]
pub enum GenerationError {
    /// The broker holds no capability for the requested logical id.
    InstanceFactoryNotRegistered,
    /// The public key has no pending-data slot, or no logical id, in the factory.
    FactoryNotRegistered,
    /// The slot holds no payload: never written, or already consumed.
    NoneData,
    /// The private key does not derive the public key.
    KeyMisMatch,
    /// The payload cannot be duplicated, so only the consuming path applies.
    NoClone,
}

/// A capability-gated store of pending data.
///
/// Every successful generation or confirmation requires a private key from
/// which the presented public key derives.
pub trait Factory {
    type PrivateInstanceKey;
    type PublicInstanceKey: PartialEq + From<u64>;
    type InstanceId;
    type Type;

    /// The public key that `gen_id` derives from `private_key`.
    spec fn derived_key(private_key: Self::PrivateInstanceKey) -> Self::PublicInstanceKey;

    /// Materializes the pending data without consuming it.
    fn generate_from_ref(
        &self,
        private_instance_key: &Self::PrivateInstanceKey,
        public_instance_key: &Self::PublicInstanceKey,
    ) -> (r: Result<Self::Type, GenerationError>)
        ensures
            r.is_ok() ==> Self::derived_key(*private_instance_key) == *public_instance_key,
    ;

    /// Materializes the pending data and empties its slot.
    fn generate_from_mut(
        &mut self,
        private_instance_key: &Self::PrivateInstanceKey,
        public_instance_key: &Self::PublicInstanceKey,
    ) -> (r: Result<Self::Type, GenerationError>)
        ensures
            r.is_ok() ==> Self::derived_key(*private_instance_key) == *public_instance_key,
    ;

    /// The logical id bound to a confirmed key pair.
    fn confirm(
        &self,
        private_instance_key: &Self::PrivateInstanceKey,
        public_instance_key: &Self::PublicInstanceKey,
    ) -> (r: Option<&Self::InstanceId>)
        ensures
            r.is_some() ==> Self::derived_key(*private_instance_key) == *public_instance_key,
    ;

    /// Whether `public_instance_key` derives from `private_instance_key`.
    fn confirm_key(
        private_instance_key: &Self::PrivateInstanceKey,
        public_instance_key: &Self::PublicInstanceKey,
    ) -> (r: bool)
        ensures
            Self::PublicInstanceKey::obeys_eq_spec() ==> r == Self::derived_key(
                *private_instance_key,
            ).eq_spec(public_instance_key),
    {
        Self::gen_id(private_instance_key) == *public_instance_key
    }

    /// Derives the public key of a private key.
    fn gen_id(private_key: &Self::PrivateInstanceKey) -> (r: Self::PublicInstanceKey)
        ensures
            r == Self::derived_key(*private_key),
    ;
}

/// A broker that holds capabilities obtained from a factory, indexed by the
/// factory's logical ids, and instantiates on behalf of its own callers.
pub trait InstanceFactory {
    type TargetFactory: Factory;

    /// Keeps the key pair under its logical id if `factory` confirms it.
    fn register(
        &mut self,
        factory: &Self::TargetFactory,
        target_private_instance_key: <Self::TargetFactory as Factory>::PrivateInstanceKey,
        target_public_instance_key: <Self::TargetFactory as Factory>::PublicInstanceKey,
    );

    /// Instantiates through the held capability without consuming the data.
    fn instanciate_template_from_ref(
        &self,
        target_id: <Self::TargetFactory as Factory>::InstanceId,
    ) -> Result<<Self::TargetFactory as Factory>::Type, GenerationError>;

    /// Instantiates through the held capability, consuming the data if it can.
    fn instanciate_template_from_mut(
        &mut self,
        target_id: <Self::TargetFactory as Factory>::InstanceId,
    ) -> Result<<Self::TargetFactory as Factory>::Type, GenerationError>;
}

} // verus!
