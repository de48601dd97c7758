use bevy_integrator::state_map::StateMap;
use bevy_integrator::{IntegratorError, Joint, JointState, Operation, Scalar, State, Stateful};

#[derive(Clone, Copy, Debug, PartialEq)]
struct Real(f64);

impl Scalar for Real {
    fn of(n: u8) -> Real {
        Real(n as f64)
    }

    fn sum(self, rhs: Real) -> Real {
        Real(self.0 + rhs.0)
    }

    fn product(self, rhs: Real) -> Real {
        Real(self.0 * rhs.0)
    }

    fn quotient(self, rhs: Real) -> Real {
        Real(self.0 / rhs.0)
    }

    fn from_u8(n: u8) -> Real {
        Real(n as f64)
    }

    fn plus(self, rhs: Real) -> Real {
        Real(self.0 + rhs.0)
    }

    fn times(self, rhs: Real) -> Real {
        Real(self.0 * rhs.0)
    }

    fn over(self, rhs: Real) -> Real {
        Real(self.0 / rhs.0)
    }

    fn sum_associative(_a: Real, _b: Real, _c: Real) {}

    fn sum_commutative(_a: Real, _b: Real) {}

    fn sum_zero(_a: Real) {}

    fn product_associative(_a: Real, _b: Real, _c: Real) {}

    fn product_distributes(_a: Real, _b: Real, _k: Real) {}

    fn product_zero(_a: Real) {}

    fn quotient_zero(_n: u8) {}
}

type Body = Joint<Real>;
type Pair = JointState<Real>;

fn pair(position: f64, velocity: f64) -> Pair {
    JointState { position: Real(position), velocity: Real(velocity) }
}

fn collection(entries: &[(u64, f64, f64)]) -> StateMap<Body> {
    let mut map = StateMap::new();
    for (entity, position, velocity) in entries {
        map.insert(*entity, pair(*position, *velocity));
    }
    map
}

fn entry(map: &StateMap<Body>, entity: u64) -> (f64, f64) {
    let s = map.get(&entity).expect("the entity has a state");
    (s.position.0, s.velocity.0)
}

fn same(a: &StateMap<Body>, b: &StateMap<Body>) -> bool {
    a.len() == b.len() && a.0.keys().all(|e| b.get(e).is_some() && entry(a, *e) == entry(b, *e))
}

#[test]
fn scalar_operations_compute() {
    assert_eq!(Real::from_u8(6), Real(6.0));
    assert_eq!(Real(1.5).plus(Real(2.25)), Real(3.75));
    assert_eq!(Real(1.5).times(Real(4.0)), Real(6.0));
    assert_eq!(Real(0.3).over(Real::from_u8(2)), Real(0.15));
}

#[test]
fn joint_state_adds_componentwise() {
    let s = pair(1.0, 2.0).add(pair(0.5, -4.0));
    assert_eq!((s.position, s.velocity), (Real(1.5), Real(-2.0)));
}

#[test]
fn joint_state_scales_componentwise() {
    let s = pair(1.0, -2.0).mul(Real(0.5));
    assert_eq!((s.position, s.velocity), (Real(0.5), Real(-1.0)));
}

#[test]
fn joint_state_add_assign_accumulates() {
    let mut s = pair(1.0, 2.0);
    s.add_assign(&pair(0.25, 0.5));
    s.add_assign(&pair(0.25, 0.5));
    assert_eq!((s.position, s.velocity), (Real(1.5), Real(3.0)));
}

#[test]
fn joint_state_round_trips() {
    let mut joint = Joint {
        position: Real(0.5),
        velocity: Real(0.0),
        acceleration: Real(2.0),
        force: Real(1.0),
        mass: Real(3.0),
    };
    joint.set_state(&pair(1.5, -2.0));
    let s = joint.get_state();
    assert_eq!((s.position, s.velocity), (Real(1.5), Real(-2.0)));
    assert_eq!(joint.acceleration, Real(2.0));
    assert_eq!(joint.force, Real(1.0));
    assert_eq!(joint.mass, Real(3.0));
}

#[test]
fn joint_dstate_is_velocity_and_acceleration() {
    let mut joint = Joint {
        position: Real(0.5),
        velocity: Real(4.0),
        acceleration: Real(2.0),
        force: Real(1.0),
        mass: Real(1.0),
    };
    let d = joint.get_dstate();
    assert_eq!((d.position, d.velocity), (Real(4.0), Real(2.0)));
    joint.set_dstate(pair(-1.0, 7.0));
    assert_eq!(joint.velocity, Real(-1.0));
    assert_eq!(joint.acceleration, Real(7.0));
    assert_eq!(joint.position, Real(0.5));
    let d = joint.get_dstate();
    assert_eq!((d.position, d.velocity), (Real(-1.0), Real(7.0)));
}

#[test]
fn joint_reset_clears_accumulators_only() {
    let mut joint = Joint {
        position: Real(0.5),
        velocity: Real(4.0),
        acceleration: Real(2.0),
        force: Real(1.0),
        mass: Real(3.0),
    };
    joint.reset();
    assert_eq!(joint.acceleration, Real(0.0));
    assert_eq!(joint.force, Real(0.0));
    assert_eq!(joint.position, Real(0.5));
    assert_eq!(joint.velocity, Real(4.0));
    assert_eq!(joint.mass, Real(3.0));
}

#[test]
fn new_collection_is_empty() {
    let map: StateMap<Body> = StateMap::new();
    assert_eq!(map.len(), 0);
    assert!(map.get(&1).is_none());
}

#[test]
fn insert_then_get() {
    let mut map: StateMap<Body> = StateMap::new();
    map.insert(7, pair(1.0, 2.0));
    map.insert(9, pair(3.0, 4.0));
    assert_eq!(map.len(), 2);
    assert_eq!(entry(&map, 7), (1.0, 2.0));
    assert_eq!(entry(&map, 9), (3.0, 4.0));
    assert!(map.get(&8).is_none());
}

#[test]
fn insert_replaces_an_earlier_state() {
    let mut map: StateMap<Body> = StateMap::new();
    map.insert(7, pair(1.0, 2.0));
    map.insert(7, pair(5.0, 6.0));
    assert_eq!(map.len(), 1);
    assert_eq!(entry(&map, 7), (5.0, 6.0));
}

#[test]
fn clone_keeps_every_entry() {
    let map = collection(&[(1, 1.0, 2.0), (2, 3.0, 4.0)]);
    let copy = map.clone();
    assert!(same(&map, &copy));
    assert_eq!(entry(&copy, 2), (3.0, 4.0));
}

#[test]
fn add_is_pointwise() {
    let a = collection(&[(1, 1.0, 2.0), (2, 3.0, 4.0)]);
    let b = collection(&[(2, 0.5, 0.25), (1, 10.0, 20.0)]);
    let sum = a.add(&b).expect("the keys match");
    assert_eq!(sum.len(), 2);
    assert_eq!(entry(&sum, 1), (11.0, 22.0));
    assert_eq!(entry(&sum, 2), (3.5, 4.25));
    assert_eq!(entry(&a, 1), (1.0, 2.0));
    assert_eq!(entry(&b, 1), (10.0, 20.0));
}

#[test]
fn add_of_empty_collections_is_empty() {
    let a: StateMap<Body> = StateMap::new();
    let b: StateMap<Body> = StateMap::new();
    assert_eq!(a.add(&b).expect("both are empty").len(), 0);
}

#[test]
fn mul_is_pointwise() {
    let a = collection(&[(1, 1.0, 2.0), (2, 3.0, -4.0)]);
    let scaled = a.mul(Real(0.5));
    assert_eq!(scaled.len(), 2);
    assert_eq!(entry(&scaled, 1), (0.5, 1.0));
    assert_eq!(entry(&scaled, 2), (1.5, -2.0));
    assert_eq!(entry(&a, 2), (3.0, -4.0));
}

#[test]
fn add_with_disjoint_keys_is_a_key_mismatch() {
    let a = collection(&[(1, 1.0, 2.0), (2, 3.0, 4.0)]);
    let b = collection(&[(3, 1.0, 2.0), (4, 3.0, 4.0)]);
    match a.add(&b) {
        Err(IntegratorError::KeyMismatch { entity, operation }) => {
            assert_eq!(operation, Operation::Add);
            assert!((1..=4).contains(&entity));
        }
        _ => panic!("disjoint keys must not add"),
    }
}

#[test]
fn add_with_a_key_missing_on_the_right_names_it() {
    let a = collection(&[(1, 1.0, 2.0), (2, 3.0, 4.0)]);
    let b = collection(&[(1, 1.0, 2.0)]);
    assert_eq!(
        a.add(&b).err(),
        Some(IntegratorError::KeyMismatch { entity: 2, operation: Operation::Add })
    );
}

#[test]
fn add_with_a_key_missing_on_the_left_names_it() {
    let a = collection(&[(1, 1.0, 2.0)]);
    let b = collection(&[(1, 1.0, 2.0), (5, 3.0, 4.0)]);
    assert_eq!(
        a.add(&b).err(),
        Some(IntegratorError::KeyMismatch { entity: 5, operation: Operation::Add })
    );
}

#[test]
fn add_with_swapped_key_names_one_of_the_two() {
    let a = collection(&[(1, 1.0, 2.0), (2, 1.0, 2.0)]);
    let b = collection(&[(1, 1.0, 2.0), (3, 3.0, 4.0)]);
    match a.add(&b) {
        Err(IntegratorError::KeyMismatch { entity, operation: Operation::Add }) => {
            assert!(entity == 2 || entity == 3);
        }
        _ => panic!("the keys differ"),
    }
}

#[test]
fn missing_from_finds_what_the_other_lacks() {
    let a = collection(&[(1, 1.0, 2.0), (2, 3.0, 4.0)]);
    let b = collection(&[(1, 0.0, 0.0), (3, 0.0, 0.0)]);
    assert_eq!(a.missing_from(&b), Some(2));
    assert_eq!(b.missing_from(&a), Some(3));
    assert_eq!(a.missing_from(&a), None);
    let wider = collection(&[(1, 0.0, 0.0), (2, 0.0, 0.0), (3, 0.0, 0.0)]);
    assert_eq!(a.missing_from(&wider), None);
}

#[test]
fn mismatch_is_none_exactly_for_equal_keys() {
    let a = collection(&[(1, 1.0, 2.0), (2, 3.0, 4.0)]);
    let b = collection(&[(2, 0.0, 0.0), (1, 0.0, 0.0)]);
    let wider = collection(&[(1, 0.0, 0.0), (2, 0.0, 0.0), (3, 0.0, 0.0)]);
    assert_eq!(a.mismatch(&b), None);
    assert_eq!(a.mismatch(&wider), Some(3));
    assert_eq!(wider.mismatch(&a), Some(3));
}

#[test]
fn addition_is_associative() {
    let a = collection(&[(1, 1.0, 2.0), (2, 3.0, 4.0)]);
    let b = collection(&[(1, 0.5, 0.25), (2, -8.0, 16.0)]);
    let c = collection(&[(1, -3.0, 7.0), (2, 0.125, 1.0)]);
    let left = a.add(&b).unwrap().add(&c).unwrap();
    let right = a.add(&b.add(&c).unwrap()).unwrap();
    assert!(same(&left, &right));
    assert_eq!(entry(&left, 1), (-1.5, 9.25));
}

#[test]
fn addition_is_commutative() {
    let a = collection(&[(1, 1.0, 2.0), (2, 3.0, 4.0)]);
    let b = collection(&[(1, 0.5, 0.25), (2, -8.0, 16.0)]);
    assert!(same(&a.add(&b).unwrap(), &b.add(&a).unwrap()));
}

#[test]
fn scaling_distributes_over_addition() {
    let a = collection(&[(1, 1.0, 2.0), (2, 3.0, 4.0)]);
    let b = collection(&[(1, 0.5, 0.25), (2, -8.0, 16.0)]);
    let p = Real(0.75);
    let left = a.add(&b).unwrap().mul(p);
    let right = a.mul(p).add(&b.mul(p)).unwrap();
    assert!(same(&left, &right));
    assert_eq!(entry(&left, 2), (-3.75, 15.0));
}

#[test]
fn scaling_by_a_product_is_scaling_twice() {
    let a = collection(&[(1, 1.0, 2.0), (2, 3.0, -4.0)]);
    let (p, q) = (Real(0.5), Real(-6.0));
    let left = a.mul(p.times(q));
    let right = a.mul(p).mul(q);
    assert!(same(&left, &right));
    assert_eq!(entry(&left, 2), (-9.0, 12.0));
}

#[test]
fn adding_a_zero_collection_changes_nothing() {
    let a = collection(&[(1, 1.0, 2.0), (2, 3.0, -4.0)]);
    let zero = a.mul(Real::from_u8(0));
    assert_eq!(entry(&zero, 1), (0.0, 0.0));
    assert!(same(&a.add(&zero).unwrap(), &a));
}
