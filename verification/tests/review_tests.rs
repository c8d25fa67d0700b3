use aftiktuna::action::combat::{AttackEffect, hit_effect_from_roll, stun_from_roll};
use aftiktuna::base::EntityId;
use aftiktuna::base::status::{CreatureAttribute, Stats};
use aftiktuna::dialogue::{
    CrewTalkFacts, EncounterFacts, HuntTaskFacts, NpcFacts, NpcPromptAction, marks_name_known, pick_encounter_dialogue,
    pick_npc_prompt, uses_key_in,
};

fn e(n: u64) -> EntityId {
    EntityId(n)
}

#[test]
fn stun_by_roll() {
    assert!(stun_from_roll(12, 12));
    assert!(!stun_from_roll(11, 12));
    assert_eq!(hit_effect_from_roll(true, true, false, true, 1, 12), Some(AttackEffect::Killed));
    assert_eq!(hit_effect_from_roll(false, true, false, true, 15, 12), Some(AttackEffect::Stunned));
    assert_eq!(hit_effect_from_roll(false, true, false, true, 5, 12), None);
    assert_eq!(hit_effect_from_roll(false, false, false, true, 20, 12), None);
    assert_eq!(hit_effect_from_roll(false, true, true, true, 20, 12), None);
    assert_eq!(hit_effect_from_roll(false, true, false, false, 20, 12), None);
}

#[test]
fn attributes_add_two_to_the_stat_sum() {
    let mut stats = Stats::new(5, 5, 5, 5);
    CreatureAttribute::Muscular.adjust_stats(&mut stats);
    assert_eq!(stats, Stats::new(8, 5, 5, 4));
    let mut high = Stats::new(i16::MAX - 3, 0, 0, i16::MIN + 1);
    CreatureAttribute::Muscular.adjust_stats(&mut high);
    assert_eq!(high, Stats::new(i16::MAX, 0, 0, i16::MIN));
}

fn encounter() -> EncounterFacts {
    EncounterFacts {
        controlled: e(1),
        player_area: Some(e(100)),
        encounter_areas: vec![e(100), e(200), e(100)],
        background_areas: vec![e(200), e(100)],
        area_is_safe: true,
        crew: vec![
            CrewTalkFacts { entity: e(1), area: e(100), badly_hurt: true, talked_about_badly_hurt: Some(false) },
            CrewTalkFacts { entity: e(2), area: e(100), badly_hurt: true, talked_about_badly_hurt: Some(false) },
            CrewTalkFacts { entity: e(3), area: e(100), badly_hurt: true, talked_about_badly_hurt: Some(true) },
            CrewTalkFacts { entity: e(4), area: e(200), badly_hurt: true, talked_about_badly_hurt: Some(false) },
        ],
        talked_about_enough_fuel: false,
        holds_enough_fuel: true,
    }
}

#[test]
fn encounter_dialogues_in_the_players_area() {
    let plan = pick_encounter_dialogue(&encounter()).unwrap();
    assert_eq!(plan.encounters, vec![0, 2]);
    assert_eq!(plan.background, vec![1]);
    assert!(plan.obtained_enough_fuel);
    assert_eq!(plan.speakers, vec![1, 2]);
    assert_eq!(plan.badly_hurt_talks, vec![1]);

    let mut unsafe_area = encounter();
    unsafe_area.area_is_safe = false;
    let plan = pick_encounter_dialogue(&unsafe_area).unwrap();
    assert_eq!(plan.encounters, vec![0, 2]);
    assert!(!plan.obtained_enough_fuel);
    assert!(plan.speakers.is_empty());
    assert!(plan.badly_hurt_talks.is_empty());

    let mut talked = encounter();
    talked.talked_about_enough_fuel = true;
    assert!(!pick_encounter_dialogue(&talked).unwrap().obtained_enough_fuel);

    let mut nowhere = encounter();
    nowhere.player_area = None;
    assert!(pick_encounter_dialogue(&nowhere).is_none());
}

fn npc() -> NpcFacts {
    NpcFacts {
        npc_name: "the hunter".to_owned(),
        crew_name: "Mint".to_owned(),
        hunt_task: None,
        reward_text: Some("a medkit".to_owned()),
        talk: None,
        passenger_requesting: false,
        recruitable: None,
        shopkeeper: false,
    }
}

fn task(fulfilled: bool) -> HuntTaskFacts {
    HuntTaskFacts {
        fulfilled,
        task_dialogue: None,
        already_completed_dialogue: None,
        target_label: "the goblin".to_owned(),
    }
}

#[test]
fn npc_prompts_follow_the_order_of_checks() {
    let mut f = npc();
    f.hunt_task = Some(task(false));
    f.talk = Some("talk/id".to_owned());
    let p = pick_npc_prompt(&f).unwrap();
    assert!(p.task_presented && !p.task_completed);
    assert!(matches!(&p.action, NpcPromptAction::Message(m)
        if m == "the hunter asks Mint to hunt down the goblin nearby and offers a medkit as reward."));

    let mut f = npc();
    f.hunt_task = Some(task(true));
    f.reward_text = None;
    let p = pick_npc_prompt(&f).unwrap();
    assert!(!p.task_presented && p.task_completed);
    assert!(matches!(&p.action, NpcPromptAction::Message(m)
        if m == "the hunter was going to ask for help with the goblin, but since it has already been taken care of, the hunter gives Mint ??? as reward."));

    let mut f = npc();
    let mut t = task(true);
    t.already_completed_dialogue = Some("done/id".to_owned());
    f.hunt_task = Some(t);
    assert!(matches!(&pick_npc_prompt(&f).unwrap().action, NpcPromptAction::Dialogue(d) if d == "done/id"));

    let mut f = npc();
    f.talk = Some("talk/id".to_owned());
    f.shopkeeper = true;
    assert!(matches!(&pick_npc_prompt(&f).unwrap().action, NpcPromptAction::Dialogue(d) if d == "talk/id"));

    let mut f = npc();
    f.passenger_requesting = true;
    f.recruitable = Some(true);
    let p = pick_npc_prompt(&f).unwrap();
    assert!(p.passenger_decision);
    assert!(matches!(&p.action, NpcPromptAction::Dialogue(d) if d == "core/passenger/request"));

    let mut f = npc();
    f.recruitable = Some(true);
    assert!(matches!(pick_npc_prompt(&f).unwrap().action, NpcPromptAction::RecruitRequest));
    f.recruitable = Some(false);
    assert!(matches!(&pick_npc_prompt(&f).unwrap().action, NpcPromptAction::Dialogue(d) if d == "core/recruit/hint"));

    let mut f = npc();
    f.shopkeeper = true;
    assert!(matches!(pick_npc_prompt(&f).unwrap().action, NpcPromptAction::Trade));
    assert!(pick_npc_prompt(&npc()).is_none());
}

#[test]
fn resolving_name_makes_it_known() {
    assert!(uses_key_in("Hello, I am {name}.", "name"));
    assert!(!uses_key_in("Hello, {the_target}.", "name"));
    assert!(!uses_key_in("{name", "name"));
    assert!(uses_key_in("{the_target} and {name}", "name"));
    assert!(marks_name_known("I am {name}.", true));
    assert!(!marks_name_known("I am {name}.", false));
}

#[test]
fn a_single_location_then_nothing() {
    let mut rng = rand::rng();
    let mut tracker = aftiktuna::area::LocationTracker::single("x".to_owned());
    assert!(!tracker.is_at_fortuna());
    assert!(matches!(tracker.next(&mut rng), aftiktuna::area::PickResult::Location(l) if l == "x"));
    assert!(!tracker.is_at_fortuna());
    assert!(matches!(tracker.next(&mut rng), aftiktuna::area::PickResult::Nothing));
    assert!(tracker.is_at_fortuna());
    assert!(matches!(tracker.next(&mut rng), aftiktuna::area::PickResult::Nothing));
}
