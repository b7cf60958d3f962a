use rpg_battle::character::{Character, Stats};
use rpg_battle::monster::Monster;
use rpg_battle::rng::ScriptedRandom;
use rpg_battle::stage::{
    is_stage_unlocked, run_stage, stage_status, start_stage, Stage, StageOutcome, StageStatus,
};

fn hero() -> Character {
    Character {
        name: String::from("hero"),
        lv: 1,
        hp: 50,
        max_hp: 50,
        stats: Stats { min_attack: 5, max_attack: 5, min_recovery: 1, max_recovery: 3 },
        exp: 0,
        stages_cleared: Vec::new(),
        current_stage: None,
    }
}

fn forest_monster(hp: u32, min_attack: u32, max_attack: u32, boss: bool) -> Monster {
    Monster {
        name: String::from(if boss { "forest boss" } else { "forest dweller" }),
        hp,
        max_hp: hp,
        min_attack,
        max_attack,
        exp: 0,
        stage: 1,
        boss,
    }
}

#[test]
fn unlock_is_exactly_the_level_bar() {
    // the volcano stage demands level 8
    assert_eq!(Stage::Volcano.required_level(), 8);
    assert!(!is_stage_unlocked(Stage::Volcano, 7));
    assert!(is_stage_unlocked(Stage::Volcano, 8));
    assert!(is_stage_unlocked(Stage::Volcano, 9));
}

#[test]
fn stage_identifiers_and_counts() {
    assert_eq!(Stage::Forest.stage_id(), 1);
    assert_eq!(Stage::Cave.stage_id(), 2);
    assert_eq!(Stage::Ruins.stage_id(), 3);
    assert_eq!(Stage::Volcano.stage_id(), 4);
    assert_eq!(Stage::Castle.stage_id(), 5);
    assert_eq!(Stage::Forest.battle_count(), 2);
    assert_eq!(Stage::Castle.battle_count(), 5);
    assert_eq!(Stage::from_id(3), Some(Stage::Ruins));
    assert_eq!(Stage::from_id(0), None);
    assert_eq!(Stage::from_id(6), None);
}

#[test]
fn status_walks_the_machine() {
    let mut c = hero();
    assert_eq!(stage_status(&c, Stage::Cave), StageStatus::Locked);
    c.lv = 3;
    assert_eq!(stage_status(&c, Stage::Cave), StageStatus::Unlocked);
    start_stage(&mut c, Stage::Cave);
    assert_eq!(c.current_stage, Some(2));
    assert_eq!(stage_status(&c, Stage::Cave), StageStatus::InProgress);
    c.current_stage = None;
    c.record_clear(2);
    assert_eq!(stage_status(&c, Stage::Cave), StageStatus::Cleared);
}

#[test]
fn cleared_set_never_duplicates() {
    let mut c = hero();
    c.record_clear(3);
    c.record_clear(3);
    c.record_clear(3);
    assert_eq!(c.stages_cleared.len(), 1);
    assert!(c.has_cleared(3));
    assert!(!c.has_cleared(1));
}

#[test]
fn cleared_set_full_at_five_in_any_order() {
    let mut c = hero();
    for id in [4u32, 1, 5, 3, 2] {
        assert!(c.stages_cleared.len() < 5);
        assert!(!c.campaign_complete());
        c.record_clear(id);
    }
    assert_eq!(c.stages_cleared.len(), 5);
    assert!(c.campaign_complete());
    for id in 1..=5u32 {
        assert!(c.has_cleared(id));
    }
    // recording again changes nothing
    c.record_clear(2);
    assert_eq!(c.stages_cleared.len(), 5);
}

#[test]
fn stage_cleared_end_to_end() {
    let mut c = hero();
    let catalog = vec![forest_monster(5, 0, 0, false), forest_monster(5, 0, 0, true)];
    // two picks, two one-blow battles, then the one-blow boss fight
    let script = vec![0, 0, 1, 5, 1, 5, 1, 5];
    let mut rng = ScriptedRandom::new(script);
    let out = run_stage(&mut c, &catalog, Stage::Forest, &mut rng);
    assert_eq!(out, StageOutcome::Cleared);
    assert_eq!(c.stages_cleared, vec![1]);
    assert_eq!(c.current_stage, None);
    assert_eq!(c.hp, c.max_hp);
}

#[test]
fn stage_defeat_returns_without_a_clear() {
    let mut c = hero();
    let catalog = vec![forest_monster(100, 60, 60, false), forest_monster(5, 0, 0, true)];
    // one pick, one blow, then a lethal riposte
    let script = vec![0, 0, 1, 5, 60];
    let mut rng = ScriptedRandom::new(script);
    let out = run_stage(&mut c, &catalog, Stage::Forest, &mut rng);
    assert_eq!(out, StageOutcome::Failed);
    assert!(c.stages_cleared.is_empty());
    assert_eq!(c.current_stage, None);
    assert_eq!(c.hp, c.max_hp);
    assert_eq!(c.exp, 0);
}

#[test]
fn missing_boss_aborts_without_a_clear() {
    let mut c = hero();
    // ordinary battles all won, but no boss stands in the catalog
    let catalog = vec![forest_monster(5, 0, 0, false)];
    let script = vec![0, 0, 1, 5, 1, 5];
    let mut rng = ScriptedRandom::new(script);
    let out = run_stage(&mut c, &catalog, Stage::Forest, &mut rng);
    assert_eq!(out, StageOutcome::BossMissing);
    assert!(c.stages_cleared.is_empty());
    assert_eq!(c.current_stage, None);
    assert_eq!(c.hp, c.max_hp);
}

#[test]
fn empty_stage_pool_reaches_the_boss_directly() {
    let mut c = hero();
    // the catalog has only the boss: no ordinary battles can be drawn
    let catalog = vec![forest_monster(5, 0, 0, true)];
    let script = vec![1, 5];
    let mut rng = ScriptedRandom::new(script);
    let out = run_stage(&mut c, &catalog, Stage::Forest, &mut rng);
    assert_eq!(out, StageOutcome::Cleared);
    assert_eq!(c.stages_cleared, vec![1]);
}
