use aftiktuna::base::EntityId;
use aftiktuna::base::position::{Blockage, Occupant, Placement, Pos, blockage_message, check_is_blocked};
use aftiktuna::command::game::{
    Inaccessible, Mover, Obstacles, cannot_reach_message, check_accessible, check_adjacent_accessible,
    targets_by_proximity, targets_in_room,
};
use aftiktuna::sorting::stable_order;

fn e(n: u64) -> EntityId {
    EntityId(n)
}

fn pos(coord: u32) -> Pos {
    Pos::new(e(100), coord, 10)
}

fn occupant(n: u64, coord: u32, blocks: bool) -> Occupant {
    Occupant { entity: e(n), placement: Placement::from_parts(pos(coord), None, false), blocks_opponent: blocks }
}

fn crew_member(coord: u32) -> Mover {
    Mover { entity: e(1), is_crew_member: true, is_hostile: false, pos: Some(pos(coord)) }
}

fn no_obstacles() -> Obstacles {
    Obstacles { hostiles: vec![], crew: vec![], occupants: vec![] }
}

#[test]
fn a_hostile_in_the_way_blocks_a_crew_member() {
    let obstacles = Obstacles { hostiles: vec![occupant(5, 3, true)], crew: vec![], occupants: vec![] };
    assert_eq!(
        check_accessible(&crew_member(1), Some(pos(6)), true, &obstacles),
        Err(Inaccessible::Blocked(Blockage::Hostile(e(5))))
    );
    // The hostile is behind the target: the way is open.
    assert_eq!(check_accessible(&crew_member(1), Some(pos(2)), false, &obstacles), Ok(()));
    // A hostile that does not block opponents lets the crew member pass.
    let calm = Obstacles { hostiles: vec![occupant(5, 3, false)], crew: vec![], occupants: vec![] };
    assert_eq!(check_accessible(&crew_member(1), Some(pos(6)), false, &calm), Ok(()));
}

#[test]
fn things_that_take_space_can_be_pushed() {
    let crowded = Obstacles { hostiles: vec![], crew: vec![], occupants: vec![occupant(6, 4, false), occupant(7, 4, false)] };
    assert_eq!(
        check_accessible(&crew_member(1), Some(pos(4)), false, &crowded),
        Err(Inaccessible::Blocked(Blockage::TakesSpace(e(6), e(7))))
    );
    assert_eq!(check_accessible(&crew_member(1), Some(pos(4)), true, &crowded), Ok(()));
    assert_eq!(
        check_is_blocked(e(1), true, false, pos(1), pos(4), &vec![], &vec![], &crowded.occupants),
        Err(Blockage::TakesSpace(e(6), e(7)))
    );
}

#[test]
fn targets_elsewhere_are_not_here() {
    let elsewhere = Pos::new(e(200), 2, 10);
    assert_eq!(check_accessible(&crew_member(1), Some(elsewhere), true, &no_obstacles()), Err(Inaccessible::NotHere));
    assert_eq!(check_accessible(&crew_member(1), None, true, &no_obstacles()), Err(Inaccessible::NotHere));
    let unplaced = Mover { entity: e(1), is_crew_member: true, is_hostile: false, pos: None };
    assert_eq!(check_accessible(&unplaced, Some(pos(2)), true, &no_obstacles()), Err(Inaccessible::NotHere));
    assert_eq!(
        check_adjacent_accessible(&crew_member(1), Some(Placement::from_parts(elsewhere, None, false)), &no_obstacles()),
        Err(Inaccessible::NotHere)
    );
}

#[test]
fn adjacent_access_stops_beside_the_target() {
    // The target stands at 6 with a hostile at 6 too: the step beside the target, 5, is clear.
    let target = Placement::from_parts(pos(6), None, false);
    let obstacles = Obstacles { hostiles: vec![occupant(5, 6, true)], crew: vec![], occupants: vec![] };
    assert_eq!(check_adjacent_accessible(&crew_member(1), Some(target), &obstacles), Ok(()));
    let obstacles = Obstacles { hostiles: vec![occupant(5, 4, true)], crew: vec![], occupants: vec![] };
    assert_eq!(
        check_adjacent_accessible(&crew_member(1), Some(target), &obstacles),
        Err(Inaccessible::Blocked(Blockage::Hostile(e(5))))
    );
    // Things that take space are never pushed for adjacent access.
    let crowded = Obstacles { hostiles: vec![], crew: vec![], occupants: vec![occupant(6, 5, false), occupant(7, 5, false)] };
    assert_eq!(
        check_adjacent_accessible(&crew_member(1), Some(target), &crowded),
        Err(Inaccessible::Blocked(Blockage::TakesSpace(e(6), e(7))))
    );
}

#[test]
fn access_messages() {
    assert_eq!(cannot_reach_message("Mint", "the door"), "Mint can not reach the door from here.");
    assert_eq!(blockage_message(Blockage::Hostile(e(5)), "the goblin", ""), "the goblin is in the way.");
    assert_eq!(
        blockage_message(Blockage::TakesSpace(e(6), e(7)), "Cerulean", "the crate"),
        "Cerulean and the crate are in the way."
    );
}

#[test]
fn stable_order_sorts_by_key_keeping_ties_in_place() {
    assert_eq!(stable_order(&vec![3, 1, 2, 1, 0]), vec![4, 1, 3, 2, 0]);
    assert_eq!(stable_order(&vec![]), Vec::<usize>::new());
    assert_eq!(stable_order(&vec![7, 7, 7]), vec![0, 1, 2]);
}

#[test]
fn targets_by_proximity_lists_the_closest_first() {
    let here = pos(4);
    let candidates = vec![
        ("crowbar".to_string(), e(1), pos(8)),
        ("knife".to_string(), e(2), pos(3)),
        ("sword".to_string(), e(3), Pos::new(e(200), 4, 10)),
        ("bat".to_string(), e(4), pos(5)),
        ("blowtorch".to_string(), e(5), pos(4)),
    ];
    assert_eq!(
        targets_by_proximity(here, &candidates),
        vec![
            ("blowtorch".to_string(), e(5)),
            ("knife".to_string(), e(2)),
            ("bat".to_string(), e(4)),
            ("crowbar".to_string(), e(1)),
        ]
    );
    assert_eq!(
        targets_in_room(e(100), &candidates),
        vec![
            ("crowbar".to_string(), e(1)),
            ("knife".to_string(), e(2)),
            ("bat".to_string(), e(4)),
            ("blowtorch".to_string(), e(5)),
        ]
    );
}
