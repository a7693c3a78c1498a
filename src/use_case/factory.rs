use std::collections::HashMap;
use std::hash::DefaultHasher;
use std::hash::Hasher;

use rand::rngs::ThreadRng;
use rand::Rng;
use vstd::bytes::spec_u64_to_le_bytes;
use vstd::bytes::u64_to_le_bytes;
use vstd::prelude::*;
use vstd::std_specs::cmp::PartialEqSpec;
use vstd::std_specs::hash::DefaultHasherAdditionalSpecFns;

use super::InstanceId;
use super::PrivateInstanceKey;
use super::PublicInstanceKey;
use crate::Factory;
use crate::GenerationError;

verus! {

broadcast use vstd::std_specs::hash::group_hash_axioms;

#[verifier::external_type_specification]
#[verifier::external_body]
pub struct ExThreadRng(ThreadRng);

/// Relies on rand::rng: a handle to the calling thread's generator, which
/// panics only where the operating system cannot seed it.
#[verifier::external_body]
fn thread_rng() -> (r: ThreadRng) {
    rand::rng()
}

/// Relies on rand::Rng::random: a u64 drawn from the generator, of which
/// nothing is known in advance.
#[verifier::external_body]
fn draw_u64(rng: &mut ThreadRng) -> (r: u64) {
    rng.random::<u64>()
}

/// The kind of event a payload describes.
#[derive(Debug, Clone, Copy, PartialEq, Eq, Structural)]
pub enum Kind {
    Signal,
    Interrupt,
}

/// The payload held for a public key until it is materialized.
#[derive(Debug, Clone, Copy, PartialEq, Eq, Structural)]
pub struct TypeData(pub Kind, pub bool);

/// A materialized object. It has no public constructor: the only way to
/// obtain one is a successful generation by a factory.
pub struct Type {
    display_name: InstanceId,
    key: PublicInstanceKey,
    data: TypeData,
}

/// The contents of a `Type`: its logical id, its public key and its payload.
pub type TypeView = (Seq<char>, PublicInstanceKey, TypeData);

impl View for Type {
    type V = TypeView;

    closed spec fn view(&self) -> TypeView {
        (self.display_name@, self.key, self.data)
    }
}

impl Type {
    /// The logical id the object was issued under.
    pub fn display_name(&self) -> (r: &str)
        ensures
            r@ == self@.0,
    {
        self.display_name.as_str()
    }

    /// The public key the object was generated through.
    pub fn key(&self) -> (r: PublicInstanceKey)
        ensures
            r == self@.1,
    {
        self.key
    }

    /// The payload the object carries.
    pub fn data(&self) -> (r: TypeData)
        ensures
            r == self@.2,
    {
        self.data
    }
}

/// What a generation returns, with the object replaced by its contents.
pub open spec fn outcome_of(r: Result<Type, GenerationError>) -> Result<TypeView, GenerationError> {
    match r {
        Ok(t) => Ok(t@),
        Err(e) => Err(e),
    }
}

/// The digest from which a private key's public key is derived: the
/// standard library's default hasher fed the key's little-endian bytes.
pub open spec fn key_digest(private_key: u64) -> u64 {
    DefaultHasher::spec_finish(seq![spec_u64_to_le_bytes(private_key)])
}

/// The public key derived from a private key.
pub open spec fn derive_public(private_key: PrivateInstanceKey) -> PublicInstanceKey {
    PublicInstanceKey(key_digest(private_key.0))
}

/// A registration table, each logical id with its public key, in order of
/// registration.
pub type IdTable = Seq<(Seq<char>, PublicInstanceKey)>;

/// Whether `i` is the earliest registration in `ids` under `public_key`.
pub open spec fn is_first_for(ids: IdTable, public_key: PublicInstanceKey, i: int) -> bool {
    &&& 0 <= i < ids.len()
    &&& ids[i].1 == public_key
    &&& forall|j: int| 0 <= j < i ==> ids[j].1 != public_key
}

/// The logical id of the earliest registration under `public_key`, if any.
pub open spec fn first_id_for(ids: IdTable, public_key: PublicInstanceKey) -> Option<Seq<char>> {
    if exists|i: int| is_first_for(ids, public_key, i) {
        Some(ids[choose|i: int| is_first_for(ids, public_key, i)].0)
    } else {
        None
    }
}

/// Whether `ids` holds a registration under `id`.
pub open spec fn holds_id(ids: IdTable, id: Seq<char>) -> bool {
    exists|i: int| 0 <= i < ids.len() && ids[i].0 == id
}

/// No logical id is registered twice.
pub open spec fn ids_unique(ids: IdTable) -> bool {
    forall|i: int, j: int| 0 <= i < j < ids.len() ==> ids[i].0 != ids[j].0
}

/// A factory that issues key pairs for logical ids and keeps pending data
/// per public key.
pub struct ConcreteFactory<Data> {
    rng: ThreadRng,
    generation_map: HashMap<u64, Option<Data>>,
    id_map: Vec<(InstanceId, PublicInstanceKey)>,
}

impl ConcreteFactory<TypeData> {
    /// The pending-data slots, by raw public key: `None` for an empty slot.
    pub closed spec fn slots(&self) -> Map<u64, Option<TypeData>> {
        self.generation_map@
    }

    /// The registrations, in the order they were made.
    pub closed spec fn ids(&self) -> IdTable {
        self.id_map@.map_values(|e: (InstanceId, PublicInstanceKey)| (e.0@, e.1))
    }

    /// The factory's invariant: each logical id is registered at most once.
    pub open spec fn wf(&self) -> bool {
        ids_unique(self.ids())
    }

    /// The logical id that `public_key` is bound to, if any.
    pub open spec fn id_bound(&self, public_key: PublicInstanceKey) -> Option<Seq<char>> {
        first_id_for(self.ids(), public_key)
    }

    /// The logical id that a key pair confirms to, if any.
    pub open spec fn confirmed_id(
        &self,
        private_key: PrivateInstanceKey,
        public_key: PublicInstanceKey,
    ) -> Option<Seq<char>> {
        if derive_public(private_key) == public_key {
            self.id_bound(public_key)
        } else {
            None
        }
    }

    /// The result of a non-consuming generation with the given key pair.
    pub open spec fn ref_outcome(
        &self,
        private_key: PrivateInstanceKey,
        public_key: PublicInstanceKey,
    ) -> Result<TypeView, GenerationError> {
        if !self.slots().contains_key(public_key.0) {
            Err(GenerationError::FactoryNotRegistered)
        } else if self.id_bound(public_key).is_none() {
            Err(GenerationError::FactoryNotRegistered)
        } else if derive_public(private_key) != public_key {
            Err(GenerationError::KeyMisMatch)
        } else if self.slots()[public_key.0].is_none() {
            Err(GenerationError::NoneData)
        } else {
            Ok((self.id_bound(public_key).unwrap(), public_key, self.slots()[public_key.0].unwrap()))
        }
    }

    /// The result of a consuming generation with the given key pair.
    pub open spec fn mut_outcome(
        &self,
        private_key: PrivateInstanceKey,
        public_key: PublicInstanceKey,
    ) -> Result<TypeView, GenerationError> {
        if !self.slots().contains_key(public_key.0) {
            Err(GenerationError::FactoryNotRegistered)
        } else if self.id_bound(public_key).is_none() {
            Err(GenerationError::FactoryNotRegistered)
        } else if self.slots()[public_key.0].is_none() {
            Err(GenerationError::NoneData)
        } else if derive_public(private_key) != public_key {
            Err(GenerationError::KeyMisMatch)
        } else {
            Ok((self.id_bound(public_key).unwrap(), public_key, self.slots()[public_key.0].unwrap()))
        }
    }

    /// Both tables of `self` are those of `before`.
    pub open spec fn same_tables(&self, before: &Self) -> bool {
        &&& self.ids() == before.ids()
        &&& self.slots() == before.slots()
    }

    /// `self` is `before` with `instance_id` registered under the public key
    /// of `private_key`, whose slot is empty.
    pub open spec fn issued_from(
        &self,
        before: &Self,
        instance_id: Seq<char>,
        private_key: PrivateInstanceKey,
    ) -> bool {
        &&& self.ids() == before.ids().push((instance_id, derive_public(private_key)))
        &&& self.slots() == before.slots().insert(derive_public(private_key).0, None)
    }

    /// An empty factory drawing its keys from the thread's generator.
    pub fn new() -> (r: Self)
        ensures
            r.wf(),
            r.ids() == Seq::<(Seq<char>, PublicInstanceKey)>::empty(),
            r.slots() == Map::<u64, Option<TypeData>>::empty(),
    {
        let r = ConcreteFactory { rng: thread_rng(), generation_map: HashMap::new(), id_map: Vec::new() };
        assert(r.ids() =~= Seq::<(Seq<char>, PublicInstanceKey)>::empty());
        r
    }

    /// Registers `instance_id` with a private key made of `key_material`,
    /// unless the id is registered already.
    pub fn register_with_key(&mut self, instance_id: InstanceId, key_material: u64) -> (r: Option<
        PrivateInstanceKey,
    >)
        requires
            old(self).wf(),
        ensures
            final(self).wf(),
            r.is_some() == !holds_id(old(self).ids(), instance_id@),
            r.is_some() ==> r == Some(PrivateInstanceKey(key_material)) && final(self).issued_from(
                old(self),
                instance_id@,
                r.unwrap(),
            ),
            r.is_none() ==> final(self).same_tables(old(self)),
    {
        if self.position_of(&instance_id).is_some() {
            return None;
        }
        Some(self.issue(instance_id, key_material))
    }

    /// Registers `instance_id` with a freshly drawn private key, unless the id
    /// is registered already. The private key is handed out here only.
    pub fn register(&mut self, instance_id: InstanceId) -> (r: Option<PrivateInstanceKey>)
        requires
            old(self).wf(),
        ensures
            final(self).wf(),
            r.is_some() == !holds_id(old(self).ids(), instance_id@),
            r.is_some() ==> final(self).issued_from(old(self), instance_id@, r.unwrap()),
            r.is_none() ==> final(self).same_tables(old(self)),
    {
        if self.position_of(&instance_id).is_some() {
            return None;
        }
        let key_material = draw_u64(&mut self.rng);
        Some(self.issue(instance_id, key_material))
    }

    /// Records a registration known to be new.
    fn issue(&mut self, instance_id: InstanceId, key_material: u64) -> (r: PrivateInstanceKey)
        requires
            old(self).wf(),
            !holds_id(old(self).ids(), instance_id@),
        ensures
            final(self).wf(),
            r == PrivateInstanceKey(key_material),
            final(self).issued_from(old(self), instance_id@, r),
    {
        let private_key = PrivateInstanceKey::from(key_material);
        let public_key = Self::gen_id(&private_key);
        let ghost id_view = instance_id@;
        self.generation_map.insert(public_key.0, None);
        self.id_map.push((instance_id, public_key));
        assert(self.ids() =~= old(self).ids().push((id_view, public_key)));
        private_key
    }

    /// Stores `data` as the pending payload of `instance_key`, if the key pair
    /// confirms; does nothing otherwise.
    pub fn write_data(
        &mut self,
        secret_key: &PrivateInstanceKey,
        instance_key: &PublicInstanceKey,
        data: TypeData,
    )
        ensures
            final(self).ids() == old(self).ids(),
            final(self).slots() == if derive_public(*secret_key) == *instance_key {
                old(self).slots().insert(instance_key.0, Some(data))
            } else {
                old(self).slots()
            },
    {
        if Self::confirm_key(secret_key, instance_key) {
            self.generation_map.insert(instance_key.0, Some(data));
        }
    }

    /// The logical id of the earliest registration under `public_instance_key`.
    fn get_id(&self, public_instance_key: &PublicInstanceKey) -> (r: Option<&InstanceId>)
        ensures
            r.is_some() == self.id_bound(*public_instance_key).is_some(),
            r.is_some() ==> r.unwrap()@ == self.id_bound(*public_instance_key).unwrap(),
    {
        let ghost ids = self.ids();
        let mut i: usize = 0;
        while i < self.id_map.len()
            invariant
                0 <= i <= self.id_map@.len(),
                ids == self.ids(),
                ids.len() == self.id_map@.len(),
                forall|j: int| 0 <= j < i ==> ids[j].1 != *public_instance_key,
            decreases self.id_map@.len() - i,
        {
            if self.id_map[i].1 == *public_instance_key {
                assert(is_first_for(ids, *public_instance_key, i as int));
                let ghost c = choose|c: int| is_first_for(ids, *public_instance_key, c);
                assert(c == i as int) by {
                    if c < i as int {
                        assert(ids[c].1 != *public_instance_key);
                    } else if c > i as int {
                        assert(ids[i as int].1 != *public_instance_key);
                    }
                }
                return Some(&self.id_map[i].0);
            }
            i = i + 1;
        }
        None
    }

    /// The position of the registration under `instance_id`, if any.
    fn position_of(&self, instance_id: &InstanceId) -> (r: Option<usize>)
        ensures
            r.is_some() == holds_id(self.ids(), instance_id@),
            r.is_some() ==> r.unwrap() < self.ids().len() && self.ids()[r.unwrap() as int].0
                == instance_id@,
    {
        let ghost ids = self.ids();
        let mut i: usize = 0;
        while i < self.id_map.len()
            invariant
                0 <= i <= self.id_map@.len(),
                ids == self.ids(),
                ids.len() == self.id_map@.len(),
                forall|j: int| 0 <= j < i ==> ids[j].0 != instance_id@,
            decreases self.id_map@.len() - i,
        {
            if self.id_map[i].0 == *instance_id {
                assert(ids[i as int].0 == instance_id@);
                return Some(i);
            }
            i = i + 1;
        }
        None
    }
}

impl Factory for ConcreteFactory<TypeData> {
    type InstanceId = InstanceId;
    type PrivateInstanceKey = PrivateInstanceKey;
    type PublicInstanceKey = PublicInstanceKey;
    type Type = Type;

    open spec fn derived_key(private_key: PrivateInstanceKey) -> PublicInstanceKey {
        derive_public(private_key)
    }

    fn confirm(
        &self,
        private_instance_key: &PrivateInstanceKey,
        public_instance_key: &PublicInstanceKey,
    ) -> (r: Option<&InstanceId>)
        ensures
            r.is_some() == self.confirmed_id(*private_instance_key, *public_instance_key).is_some(),
            r.is_some() ==> r.unwrap()@ == self.confirmed_id(
                *private_instance_key,
                *public_instance_key,
            ).unwrap(),
    {
        if Self::confirm_key(private_instance_key, public_instance_key) {
            return self.get_id(public_instance_key);
        }
        None
    }

    fn generate_from_ref(
        &self,
        private_instance_key: &PrivateInstanceKey,
        public_instance_key: &PublicInstanceKey,
    ) -> (r: Result<Type, GenerationError>)
        ensures
            outcome_of(r) == self.ref_outcome(*private_instance_key, *public_instance_key),
    {
        let data = match self.generation_map.get(&public_instance_key.0) {
            Some(slot) => slot,
            None => return Err(GenerationError::FactoryNotRegistered),
        };
        let id = match self.get_id(public_instance_key) {
            Some(id) => id,
            None => return Err(GenerationError::FactoryNotRegistered),
        };
        if Self::confirm_key(private_instance_key, public_instance_key) {
            let data = match data {
                Some(d) => d.clone(),
                None => return Err(GenerationError::NoneData),
            };
            return Ok(Type { display_name: id.clone(), key: *public_instance_key, data });
        }
        Err(GenerationError::KeyMisMatch)
    }

    fn generate_from_mut(
        &mut self,
        private_instance_key: &PrivateInstanceKey,
        public_instance_key: &PublicInstanceKey,
    ) -> (r: Result<Type, GenerationError>)
        ensures
            outcome_of(r) == old(self).mut_outcome(*private_instance_key, *public_instance_key),
            final(self).ids() == old(self).ids(),
            final(self).slots() == if r.is_ok() {
                old(self).slots().insert(public_instance_key.0, None)
            } else {
                old(self).slots()
            },
    {
        let slot = match self.generation_map.get(&public_instance_key.0) {
            Some(slot) => slot,
            None => return Err(GenerationError::FactoryNotRegistered),
        };
        let id = match self.get_id(public_instance_key) {
            Some(id) => id.clone(),
            None => return Err(GenerationError::FactoryNotRegistered),
        };
        let data = match slot {
            Some(d) => d.clone(),
            None => return Err(GenerationError::NoneData),
        };
        if Self::confirm_key(private_instance_key, public_instance_key) {
            self.generation_map.insert(public_instance_key.0, None);
            return Ok(Type { display_name: id, key: *public_instance_key, data });
        }
        Err(GenerationError::KeyMisMatch)
    }

    fn gen_id(private_instance_key: &PrivateInstanceKey) -> (r: PublicInstanceKey) {
        let bytes = u64_to_le_bytes(private_instance_key.0);
        let mut hasher = DefaultHasher::new();
        hasher.write(bytes.as_slice());
        assert(hasher@ =~= seq![spec_u64_to_le_bytes(private_instance_key.0)]);
        PublicInstanceKey(hasher.finish())
    }
}

/// A private key never confirms the public key of another private key with
/// a different digest: `(k2, gen_id(k1))` confirms to no id.
pub proof fn lemma_other_key_does_not_confirm(
    factory: ConcreteFactory<TypeData>,
    k1: PrivateInstanceKey,
    k2: PrivateInstanceKey,
)
    requires
        key_digest(k2.0) != key_digest(k1.0),
    ensures
        factory.confirmed_id(k2, derive_public(k1)) == None::<Seq<char>>,
{
}

/// `confirm_key` accepts every private key together with the public key that
/// `gen_id` derives from it, and rejects it together with any other.
pub proof fn lemma_confirm_key_matches_derivation(k: PrivateInstanceKey, p: PublicInstanceKey)
    ensures
        <PublicInstanceKey as PartialEqSpec>::obeys_eq_spec(),
        ConcreteFactory::<TypeData>::derived_key(k).eq_spec(
            &ConcreteFactory::<TypeData>::derived_key(k),
        ),
        p != ConcreteFactory::<TypeData>::derived_key(k) ==> !ConcreteFactory::<
            TypeData,
        >::derived_key(k).eq_spec(&p),
{
}

/// After a consuming generation has succeeded, both generations with the same
/// key pair report that no data is left.
pub proof fn lemma_consumed_slot_yields_none_data(
    before: ConcreteFactory<TypeData>,
    after: ConcreteFactory<TypeData>,
    private_key: PrivateInstanceKey,
    public_key: PublicInstanceKey,
)
    requires
        before.mut_outcome(private_key, public_key).is_ok(),
        after.ids() == before.ids(),
        after.slots() == before.slots().insert(public_key.0, None),
    ensures
        after.mut_outcome(private_key, public_key) == Err::<TypeView, GenerationError>(
            GenerationError::NoneData,
        ),
        after.ref_outcome(private_key, public_key) == Err::<TypeView, GenerationError>(
            GenerationError::NoneData,
        ),
{
}

/// Once `instance_id` is issued, registering it again is rejected, and the
/// pair issued first still confirms, to `instance_id` itself unless an
/// earlier registration shares its public key.
pub proof fn lemma_reregistration_rejected(
    initial: ConcreteFactory<TypeData>,
    issued: ConcreteFactory<TypeData>,
    later: ConcreteFactory<TypeData>,
    instance_id: Seq<char>,
    private_key: PrivateInstanceKey,
)
    requires
        issued.issued_from(&initial, instance_id, private_key),
        later.same_tables(&issued),
    ensures
        holds_id(issued.ids(), instance_id),
        later.slots()[derive_public(private_key).0] == issued.slots()[derive_public(private_key).0],
        later.confirmed_id(private_key, derive_public(private_key)) == issued.confirmed_id(
            private_key,
            derive_public(private_key),
        ),
        later.confirmed_id(private_key, derive_public(private_key)).is_some(),
        (forall|i: int| 0 <= i < initial.ids().len() ==> initial.ids()[i].1 != derive_public(private_key))
            ==> later.confirmed_id(private_key, derive_public(private_key)) == Some(instance_id),
{
    let ids = issued.ids();
    let p = derive_public(private_key);
    let last = initial.ids().len() as int;
    assert(ids[last] == (instance_id, p));
    if exists|i: int| 0 <= i < last && ids[i].1 == p {
        let i0 = choose|i: int| 0 <= i < last && ids[i].1 == p;
        lemma_first_match_exists(ids, p, i0);
    } else {
        assert(is_first_for(ids, p, last));
        let c = choose|c: int| is_first_for(ids, p, c);
        assert(c == last);
    }
}

/// Where some entry of `ids` has `public_key`, the earliest one is first.
proof fn lemma_first_match_exists(ids: IdTable, public_key: PublicInstanceKey, i: int)
    requires
        0 <= i < ids.len(),
        ids[i].1 == public_key,
    ensures
        exists|c: int| is_first_for(ids, public_key, c),
    decreases i,
{
    if exists|j: int| 0 <= j < i && ids[j].1 == public_key {
        let j = choose|j: int| 0 <= j < i && ids[j].1 == public_key;
        lemma_first_match_exists(ids, public_key, j);
    } else {
        assert(is_first_for(ids, public_key, i));
    }
}

} // verus!
