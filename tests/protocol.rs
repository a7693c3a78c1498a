use std::hash::DefaultHasher;
use std::hash::Hash;
use std::hash::Hasher;

use capability_factory::use_case::factory::ConcreteFactory;
use capability_factory::use_case::factory::Kind;
use capability_factory::use_case::factory::TypeData;
use capability_factory::use_case::instance_factory::ConcreteInstanceFactory;
use capability_factory::use_case::PrivateInstanceKey;
use capability_factory::use_case::PublicInstanceKey;
use capability_factory::Factory;
use capability_factory::GenerationError;
use capability_factory::InstanceFactory;

fn std_digest(v: u64) -> u64 {
    let mut h = DefaultHasher::new();
    v.hash(&mut h);
    h.finish()
}

fn issued(f: &mut ConcreteFactory<TypeData>, id: &str, material: u64) -> (PrivateInstanceKey, PublicInstanceKey) {
    let k = f.register_with_key(id.to_string(), material).expect("fresh id");
    let p = ConcreteFactory::gen_id(&k);
    (k, p)
}

#[test]
fn scenario_job_one() {
    let mut f = ConcreteFactory::new();
    let k1 = f.register("job-1".to_string()).expect("fresh id");
    let p1 = ConcreteFactory::gen_id(&k1);
    let payload = TypeData(Kind::Signal, true);
    f.write_data(&k1, &p1, payload);
    let t = f.generate_from_ref(&k1, &p1).ok().expect("materialized");
    assert_eq!(t.display_name(), "job-1");
    assert!(t.key() == p1);
    assert_eq!(t.data(), payload);
    let once = f.generate_from_mut(&k1, &p1).ok().expect("taken once");
    assert_eq!(once.data(), payload);
    assert_eq!(once.display_name(), "job-1");
    assert_eq!(f.generate_from_mut(&k1, &p1).err(), Some(GenerationError::NoneData));
}

#[test]
fn gen_id_is_the_default_hasher_digest() {
    for v in [0u64, 1, 7, 42, u64::MAX] {
        let p = ConcreteFactory::gen_id(&PrivateInstanceKey::from(v));
        assert_eq!(p.raw(), std_digest(v));
        assert_ne!(p.raw(), v);
    }
}

#[test]
fn gen_id_is_stable() {
    let k = PrivateInstanceKey::from(99);
    assert!(ConcreteFactory::gen_id(&k) == ConcreteFactory::gen_id(&k));
}

#[test]
fn distinct_keys_derive_distinct_public_keys() {
    let a = ConcreteFactory::gen_id(&PrivateInstanceKey::from(1));
    let b = ConcreteFactory::gen_id(&PrivateInstanceKey::from(2));
    assert!(a != b);
    assert!(!ConcreteFactory::confirm_key(&PrivateInstanceKey::from(2), &a));
}

#[test]
fn drawn_keys_do_not_collide() {
    let mut f = ConcreteFactory::new();
    let mut publics: Vec<u64> = Vec::new();
    for i in 0..64 {
        let k = f.register(format!("id-{}", i)).expect("fresh id");
        let p = ConcreteFactory::gen_id(&k);
        assert!(ConcreteFactory::confirm_key(&k, &p));
        assert!(!publics.contains(&p.raw()));
        publics.push(p.raw());
    }
}

#[test]
fn confirm_key_matches_derivation() {
    let k = PrivateInstanceKey::from(5);
    let p = ConcreteFactory::gen_id(&k);
    assert!(ConcreteFactory::confirm_key(&k, &p));
    assert!(!ConcreteFactory::confirm_key(&k, &PublicInstanceKey::from(p.raw().wrapping_add(1))));
    assert!(!ConcreteFactory::confirm_key(&k, &PublicInstanceKey::from(5)));
}

#[test]
fn consumption_is_one_time() {
    let mut f = ConcreteFactory::new();
    let (k, p) = issued(&mut f, "ticket", 11);
    f.write_data(&k, &p, TypeData(Kind::Interrupt, false));
    assert!(f.generate_from_mut(&k, &p).is_ok());
    assert_eq!(f.generate_from_mut(&k, &p).err(), Some(GenerationError::NoneData));
    assert_eq!(f.generate_from_ref(&k, &p).err(), Some(GenerationError::NoneData));
}

#[test]
fn reference_generation_is_repeatable() {
    let mut f = ConcreteFactory::new();
    let (k, p) = issued(&mut f, "durable", 12);
    f.write_data(&k, &p, TypeData(Kind::Signal, false));
    for _ in 0..3 {
        let t = f.generate_from_ref(&k, &p).ok().expect("still there");
        assert_eq!(t.data(), TypeData(Kind::Signal, false));
    }
    assert!(f.generate_from_mut(&k, &p).is_ok());
}

#[test]
fn reregistration_is_rejected() {
    let mut f = ConcreteFactory::new();
    let k = f.register("job".to_string()).expect("fresh id");
    let p = ConcreteFactory::gen_id(&k);
    assert!(f.register("job".to_string()).is_none());
    assert!(f.register_with_key("job".to_string(), 3).is_none());
    assert_eq!(f.confirm(&k, &p).map(|s| s.as_str()), Some("job"));
    f.write_data(&k, &p, TypeData(Kind::Signal, true));
    assert_eq!(f.generate_from_ref(&k, &p).ok().map(|t| t.data()), Some(TypeData(Kind::Signal, true)));
}

#[test]
fn register_with_key_hands_out_that_key() {
    let mut f = ConcreteFactory::new();
    let k = f.register_with_key("a".to_string(), 77).expect("fresh id");
    let p = ConcreteFactory::gen_id(&k);
    assert!(p == ConcreteFactory::gen_id(&PrivateInstanceKey::from(77)));
    assert_eq!(f.confirm(&PrivateInstanceKey::from(77), &p).map(|s| s.as_str()), Some("a"));
}

#[test]
fn confirm_rejects_mismatched_and_unknown_pairs() {
    let mut f = ConcreteFactory::new();
    let (k, p) = issued(&mut f, "x", 21);
    assert!(f.confirm(&PrivateInstanceKey::from(22), &p).is_none());
    let stray = PrivateInstanceKey::from(23);
    assert!(f.confirm(&stray, &ConcreteFactory::gen_id(&stray)).is_none());
    assert_eq!(f.confirm(&k, &p).map(|s| s.as_str()), Some("x"));
}

#[test]
fn unknown_public_key_is_not_registered() {
    let mut f = ConcreteFactory::new();
    let k = PrivateInstanceKey::from(31);
    let p = ConcreteFactory::gen_id(&k);
    assert_eq!(f.generate_from_ref(&k, &p).err(), Some(GenerationError::FactoryNotRegistered));
    assert_eq!(f.generate_from_mut(&k, &p).err(), Some(GenerationError::FactoryNotRegistered));
}

#[test]
fn data_written_for_an_unregistered_key_stays_unreachable() {
    let mut f = ConcreteFactory::new();
    let k = PrivateInstanceKey::from(32);
    let p = ConcreteFactory::gen_id(&k);
    f.write_data(&k, &p, TypeData(Kind::Signal, true));
    assert_eq!(f.generate_from_ref(&k, &p).err(), Some(GenerationError::FactoryNotRegistered));
    assert_eq!(f.generate_from_mut(&k, &p).err(), Some(GenerationError::FactoryNotRegistered));
}

#[test]
fn never_written_slot_has_no_data() {
    let mut f = ConcreteFactory::new();
    let (k, p) = issued(&mut f, "empty", 41);
    assert_eq!(f.generate_from_ref(&k, &p).err(), Some(GenerationError::NoneData));
    assert_eq!(f.generate_from_mut(&k, &p).err(), Some(GenerationError::NoneData));
}

#[test]
fn wrong_private_key_is_a_mismatch_and_consumes_nothing() {
    let mut f = ConcreteFactory::new();
    let (k, p) = issued(&mut f, "guarded", 51);
    f.write_data(&k, &p, TypeData(Kind::Interrupt, true));
    let thief = PrivateInstanceKey::from(52);
    assert_eq!(f.generate_from_ref(&thief, &p).err(), Some(GenerationError::KeyMisMatch));
    assert_eq!(f.generate_from_mut(&thief, &p).err(), Some(GenerationError::KeyMisMatch));
    assert_eq!(f.generate_from_mut(&k, &p).ok().map(|t| t.data()), Some(TypeData(Kind::Interrupt, true)));
}

#[test]
fn write_data_with_wrong_key_is_ignored() {
    let mut f = ConcreteFactory::new();
    let (k, p) = issued(&mut f, "w", 61);
    f.write_data(&PrivateInstanceKey::from(62), &p, TypeData(Kind::Signal, true));
    assert_eq!(f.generate_from_ref(&k, &p).err(), Some(GenerationError::NoneData));
    f.write_data(&k, &p, TypeData(Kind::Signal, true));
    f.write_data(&k, &p, TypeData(Kind::Interrupt, false));
    assert_eq!(f.generate_from_ref(&k, &p).ok().map(|t| t.data()), Some(TypeData(Kind::Interrupt, false)));
}

#[test]
fn broker_filters_invalid_capabilities() {
    let mut f = ConcreteFactory::new();
    let (k, p) = issued(&mut f, "svc", 71);
    f.write_data(&k, &p, TypeData(Kind::Signal, true));
    let mut confirmer = ConcreteFactory::new();
    issued(&mut confirmer, "svc", 71);
    let mut broker = ConcreteInstanceFactory::new(f);
    broker.register(&confirmer, PrivateInstanceKey::from(72), p);
    assert_eq!(broker.instanciate_template_from_ref("svc".to_string()).err(), Some(GenerationError::InstanceFactoryNotRegistered));
    assert_eq!(broker.instanciate_template_from_mut("svc".to_string()).err(), Some(GenerationError::InstanceFactoryNotRegistered));
    broker.register(&ConcreteFactory::new(), k, p);
    assert_eq!(broker.instanciate_template_from_ref("svc".to_string()).err(), Some(GenerationError::InstanceFactoryNotRegistered));
}

#[test]
fn broker_delegates_transparently() {
    let mut f = ConcreteFactory::new();
    let (k, p) = issued(&mut f, "job-1", 81);
    f.write_data(&k, &p, TypeData(Kind::Interrupt, true));
    let direct = f.generate_from_ref(&k, &p).ok().expect("materialized");
    let mut confirmer = ConcreteFactory::new();
    issued(&mut confirmer, "job-1", 81);
    let mut broker = ConcreteInstanceFactory::new(f);
    broker.register(&confirmer, k, p);
    let via = broker.instanciate_template_from_ref("job-1".to_string()).ok().expect("delegated");
    assert_eq!(via.display_name(), direct.display_name());
    assert!(via.key() == direct.key());
    assert_eq!(via.data(), direct.data());
    let taken = broker.instanciate_template_from_mut("job-1".to_string()).ok().expect("taken");
    assert_eq!(taken.data(), TypeData(Kind::Interrupt, true));
    assert_eq!(broker.instanciate_template_from_mut("job-1".to_string()).err(), Some(GenerationError::NoneData));
    assert_eq!(broker.factory().generate_from_ref(&k, &p).err(), Some(GenerationError::NoneData));
}

#[test]
fn broker_surfaces_the_factory_error() {
    let mut confirmer = ConcreteFactory::new();
    let (k, p) = issued(&mut confirmer, "elsewhere", 91);
    let mut broker = ConcreteInstanceFactory::new(ConcreteFactory::new());
    broker.register(&confirmer, k, p);
    assert_eq!(broker.instanciate_template_from_ref("elsewhere".to_string()).err(), Some(GenerationError::FactoryNotRegistered));
    assert_eq!(broker.instanciate_template_from_mut("elsewhere".to_string()).err(), Some(GenerationError::FactoryNotRegistered));
}

#[test]
fn broker_reregistration_replaces_the_pair() {
    let mut f = ConcreteFactory::new();
    let (k, p) = issued(&mut f, "r", 101);
    f.write_data(&k, &p, TypeData(Kind::Signal, false));
    let mut confirmer = ConcreteFactory::new();
    issued(&mut confirmer, "r", 101);
    let mut broker = ConcreteInstanceFactory::new(f);
    broker.register(&confirmer, k, p);
    broker.register(&confirmer, k, p);
    assert_eq!(broker.instanciate_template_from_ref("r".to_string()).ok().map(|t| t.data()), Some(TypeData(Kind::Signal, false)));
    let mut other = ConcreteFactory::new();
    let (k2, p2) = issued(&mut other, "r", 102);
    broker.register(&other, k2, p2);
    assert_eq!(broker.instanciate_template_from_ref("r".to_string()).err(), Some(GenerationError::FactoryNotRegistered));
}
