use vstd::prelude::*;

use super::factory::outcome_of;
use super::factory::ConcreteFactory;
use super::factory::Type;
use super::factory::TypeData;
use super::InstanceId;
use super::PrivateInstanceKey;
use super::PublicInstanceKey;
use crate::Factory;
use crate::GenerationError;
use crate::InstanceFactory;

verus! {

/// A broker's table in the order of its entries: logical id, private key,
/// public key.
pub type PairTable = Seq<(Seq<char>, PrivateInstanceKey, PublicInstanceKey)>;

/// The key pair held for each logical id; a later entry for an id replaces
/// an earlier one.
pub open spec fn held_pairs(entries: PairTable) -> Map<Seq<char>, (PrivateInstanceKey, PublicInstanceKey)>
    decreases entries.len(),
{
    if entries.len() == 0 {
        Map::empty()
    } else {
        let e = entries.last();
        held_pairs(entries.drop_last()).insert(e.0, (e.1, e.2))
    }
}

/// Whether `i` is the last entry of `entries` for `id`.
pub open spec fn is_latest_for(entries: PairTable, id: Seq<char>, i: int) -> bool {
    &&& 0 <= i < entries.len()
    &&& entries[i].0 == id
    &&& forall|j: int| i < j < entries.len() ==> entries[j].0 != id
}

proof fn lemma_latest_entry_is_held(entries: PairTable, id: Seq<char>, i: int)
    requires
        is_latest_for(entries, id, i),
    ensures
        held_pairs(entries).contains_key(id),
        held_pairs(entries)[id] == (entries[i].1, entries[i].2),
    decreases entries.len(),
{
    if i < entries.len() - 1 {
        let prefix = entries.drop_last();
        assert(is_latest_for(prefix, id, i));
        lemma_latest_entry_is_held(prefix, id, i);
    }
}

proof fn lemma_absent_id_is_not_held(entries: PairTable, id: Seq<char>)
    requires
        forall|j: int| 0 <= j < entries.len() ==> entries[j].0 != id,
    ensures
        !held_pairs(entries).contains_key(id),
    decreases entries.len(),
{
    if entries.len() > 0 {
        lemma_absent_id_is_not_held(entries.drop_last(), id);
    }
}

proof fn lemma_replace_latest(
    entries: PairTable,
    i: int,
    e: (Seq<char>, PrivateInstanceKey, PublicInstanceKey),
)
    requires
        is_latest_for(entries, e.0, i),
    ensures
        held_pairs(entries.update(i, e)) == held_pairs(entries).insert(e.0, (e.1, e.2)),
    decreases entries.len(),
{
    let updated = entries.update(i, e);
    if i == entries.len() - 1 {
        assert(updated.drop_last() =~= entries.drop_last());
    } else {
        let prefix = entries.drop_last();
        assert(is_latest_for(prefix, e.0, i));
        lemma_replace_latest(prefix, i, e);
        assert(updated.drop_last() =~= prefix.update(i, e));
    }
    assert(held_pairs(updated) =~= held_pairs(entries).insert(e.0, (e.1, e.2)));
}

/// A broker over one bound factory: it keeps key pairs that a factory
/// confirmed, under their logical ids, and never hands a private key out.
pub struct ConcreteInstanceFactory<F: Factory> {
    factory: F,
    instanciation_lookup: Vec<(InstanceId, PrivateInstanceKey, PublicInstanceKey)>,
}

impl ConcreteInstanceFactory<ConcreteFactory<TypeData>> {
    /// The factory instantiation is delegated to.
    pub closed spec fn target(&self) -> ConcreteFactory<TypeData> {
        self.factory
    }

    /// The entries of the table, in the order they were made.
    pub closed spec fn entries(&self) -> PairTable {
        self.instanciation_lookup@.map_values(
            |e: (InstanceId, PrivateInstanceKey, PublicInstanceKey)| (e.0@, e.1, e.2),
        )
    }

    /// The key pair held for each logical id.
    pub open spec fn held(&self) -> Map<Seq<char>, (PrivateInstanceKey, PublicInstanceKey)> {
        held_pairs(self.entries())
    }

    /// A broker holding no capability, delegating to `factory`.
    pub fn new(factory: ConcreteFactory<TypeData>) -> (r: Self)
        ensures
            r.target() == factory,
            r.held() == Map::<Seq<char>, (PrivateInstanceKey, PublicInstanceKey)>::empty(),
    {
        let r = ConcreteInstanceFactory { factory, instanciation_lookup: Vec::new() };
        assert(r.entries() =~= Seq::<(Seq<char>, PrivateInstanceKey, PublicInstanceKey)>::empty());
        r
    }

    /// The factory instantiation is delegated to.
    pub fn factory(&self) -> (r: &ConcreteFactory<TypeData>)
        ensures
            *r == self.target(),
    {
        &self.factory
    }

    /// The position of the last entry for `target_id`, if any.
    fn latest_position(&self, target_id: &InstanceId) -> (r: Option<usize>)
        ensures
            r.is_some() ==> is_latest_for(self.entries(), target_id@, r.unwrap() as int),
            r.is_none() ==> forall|j: int|
                0 <= j < self.entries().len() ==> self.entries()[j].0 != target_id@,
    {
        let ghost entries = self.entries();
        let mut i: usize = self.instanciation_lookup.len();
        while i > 0
            invariant
                0 <= i <= self.instanciation_lookup@.len(),
                entries == self.entries(),
                entries.len() == self.instanciation_lookup@.len(),
                forall|j: int| i <= j < entries.len() ==> entries[j].0 != target_id@,
            decreases i,
        {
            i = i - 1;
            if self.instanciation_lookup[i].0 == *target_id {
                assert(entries[i as int].0 == target_id@);
                return Some(i);
            }
        }
        None
    }

    /// The key pair held for `target_id`, if any.
    fn held_pair(&self, target_id: &InstanceId) -> (r: Option<(PrivateInstanceKey, PublicInstanceKey)>)
        ensures
            r.is_some() == self.held().contains_key(target_id@),
            r.is_some() ==> r.unwrap() == self.held()[target_id@],
    {
        match self.latest_position(target_id) {
            Some(i) => {
                proof {
                    lemma_latest_entry_is_held(self.entries(), target_id@, i as int);
                }
                let entry = &self.instanciation_lookup[i];
                Some((entry.1, entry.2))
            },
            None => {
                proof {
                    lemma_absent_id_is_not_held(self.entries(), target_id@);
                }
                None
            },
        }
    }
}

impl InstanceFactory for ConcreteInstanceFactory<ConcreteFactory<TypeData>> {
    type TargetFactory = ConcreteFactory<TypeData>;

    fn instanciate_template_from_ref(&self, target_id: InstanceId) -> (r: Result<
        Type,
        GenerationError,
    >)
        ensures
            !self.held().contains_key(target_id@) ==> r == Err::<Type, GenerationError>(
                GenerationError::InstanceFactoryNotRegistered,
            ),
            self.held().contains_key(target_id@) ==> outcome_of(r) == self.target().ref_outcome(
                self.held()[target_id@].0,
                self.held()[target_id@].1,
            ),
    {
        let (key, target_key) = match self.held_pair(&target_id) {
            Some(pair) => pair,
            None => return Err(GenerationError::InstanceFactoryNotRegistered),
        };
        self.factory.generate_from_ref(&key, &target_key)
    }

    fn instanciate_template_from_mut(&mut self, target_id: InstanceId) -> (r: Result<
        Type,
        GenerationError,
    >)
        ensures
            final(self).held() == old(self).held(),
            final(self).target().ids() == old(self).target().ids(),
            !old(self).held().contains_key(target_id@) ==> r == Err::<Type, GenerationError>(
                GenerationError::InstanceFactoryNotRegistered,
            ) && final(self).target().slots() == old(self).target().slots(),
            old(self).held().contains_key(target_id@) ==> ({
                let (key, target_key) = old(self).held()[target_id@];
                let taken = old(self).target().mut_outcome(key, target_key);
                if taken.is_ok() {
                    &&& outcome_of(r) == taken
                    &&& final(self).target().slots() == old(self).target().slots().insert(
                        target_key.0,
                        None,
                    )
                } else {
                    &&& outcome_of(r) == old(self).target().ref_outcome(key, target_key)
                    &&& final(self).target().slots() == old(self).target().slots()
                }
            }),
    {
        let (key, target_key) = match self.held_pair(&target_id) {
            Some(pair) => pair,
            None => return Err(GenerationError::InstanceFactoryNotRegistered),
        };
        match self.factory.generate_from_mut(&key, &target_key) {
            Ok(t) => Ok(t),
            Err(_) => self.factory.generate_from_ref(&key, &target_key),
        }
    }

    fn register(
        &mut self,
        factory: &ConcreteFactory<TypeData>,
        target_private_instance_key: PrivateInstanceKey,
        target_public_instance_key: PublicInstanceKey,
    )
        ensures
            final(self).target() == old(self).target(),
            final(self).held() == match factory.confirmed_id(
                target_private_instance_key,
                target_public_instance_key,
            ) {
                Some(id) => old(self).held().insert(
                    id,
                    (target_private_instance_key, target_public_instance_key),
                ),
                None => old(self).held(),
            },
    {
        if let Some(id) = factory.confirm(&target_private_instance_key, &target_public_instance_key) {
            let id = id.clone();
            let ghost id_view = id@;
            let entry = (id, target_private_instance_key, target_public_instance_key);
            let ghost entry_view = (id_view, target_private_instance_key, target_public_instance_key);
            match self.latest_position(&entry.0) {
                Some(i) => {
                    proof {
                        lemma_replace_latest(self.entries(), i as int, entry_view);
                    }
                    self.instanciation_lookup.set(i, entry);
                    assert(self.entries() =~= old(self).entries().update(i as int, entry_view));
                },
                None => {
                    self.instanciation_lookup.push(entry);
                    assert(self.entries().drop_last() =~= old(self).entries());
                },
            }
        }
    }
}

} // verus!
