use flecs_ecs::id::{ecs_first, ecs_id_match, ecs_is_pair, ecs_pair, ecs_second, ECS_WILDCARD};

#[test]
fn pair_round_trip() {
    let p = ecs_pair(20, 30);
    assert!(ecs_is_pair(p));
    assert_eq!(ecs_first(p), 20);
    assert_eq!(ecs_second(p), 30);
    assert_eq!(p, 0x8000_0014_0000_001e);
}

#[test]
fn pair_is_directed() {
    assert_ne!(ecs_pair(20, 30), ecs_pair(30, 20));
}

#[test]
fn wildcard_matches_pairs_of_a_relationship() {
    assert!(ecs_id_match(ecs_pair(20, 30), ecs_pair(20, ECS_WILDCARD)));
    assert!(!ecs_id_match(ecs_pair(21, 30), ecs_pair(20, ECS_WILDCARD)));
    assert!(!ecs_id_match(20, ecs_pair(20, ECS_WILDCARD)));
}

#[test]
fn pair_elements_at_the_edges_of_their_ranges() {
    use_edges();
}

fn use_edges() {
    let first_max = flecs_ecs::id::ECS_MAX_FIRST;
    let second_max = flecs_ecs::id::ECS_ENTITY_MASK;
    let p = ecs_pair(first_max, second_max);
    assert!(ecs_is_pair(p));
    assert_eq!(ecs_first(p), first_max);
    assert_eq!(ecs_second(p), second_max);
    assert_eq!(p, 0x8fff_ffff_ffff_ffff);
    let q = ecs_pair(1, 1);
    assert_eq!(q, 0x8000_0001_0000_0001);
    assert_eq!((ecs_first(q), ecs_second(q)), (1, 1));
    assert!(!ecs_is_pair(first_max));
    assert!(!ecs_is_pair(0));
    assert_eq!(ecs_second(ecs_pair(1, second_max + 1)), 0);
}

#[test]
fn patterns_match_as_wildcards_say() {
    let any = flecs_ecs::id::ECS_ANY;
    assert!(ecs_id_match(20, 20));
    assert!(!ecs_id_match(20, 21));
    assert!(ecs_id_match(20, ECS_WILDCARD));
    assert!(ecs_id_match(20, any));
    assert!(!ecs_id_match(ecs_pair(20, 30), ECS_WILDCARD));
    assert!(ecs_id_match(ecs_pair(20, 30), ecs_pair(ECS_WILDCARD, 30)));
    assert!(!ecs_id_match(ecs_pair(20, 31), ecs_pair(ECS_WILDCARD, 30)));
    assert!(ecs_id_match(ecs_pair(20, 30), ecs_pair(ECS_WILDCARD, ECS_WILDCARD)));
    assert!(ecs_id_match(ecs_pair(20, 30), ecs_pair(any, any)));
    assert!(ecs_id_match(ecs_pair(20, 30), ecs_pair(20, 30)));
    assert!(!ecs_id_match(ecs_pair(20, 30), ecs_pair(30, 20)));
    assert!(flecs_ecs::id::ecs_is_wild(ECS_WILDCARD));
    assert!(!flecs_ecs::id::ecs_is_wild(20));
    let e = flecs_ecs::Entity::new(7);
    assert_eq!(e.id(), 7);
    assert_eq!(flecs_ecs::Entity::null().id(), 0);
}
