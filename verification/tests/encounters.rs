use rpg_battle::encounter::{
    choose_monsters, choose_stage_monsters, encounter_pool, find_boss, find_monster_by_name,
};
use rpg_battle::monster::Monster;
use rpg_battle::rng::ScriptedRandom;

fn named(name: &str, stage: u32, boss: bool, exp: u32) -> Monster {
    Monster {
        name: String::from(name),
        hp: 10,
        max_hp: 10,
        min_attack: 1,
        max_attack: 2,
        exp,
        stage,
        boss,
    }
}

fn count_name(pool: &[String], name: &str) -> usize {
    pool.iter().filter(|s| s.as_str() == name).count()
}

#[test]
fn pool_follows_the_rarity_table() {
    let pool = encounter_pool();
    assert_eq!(pool.len(), 39);
    // commons five times, mid tier three, scarce two, the rare one once
    for name in ["goblin", "wolf", "slime", "bat", "zombie"] {
        assert_eq!(count_name(&pool, name), 5);
    }
    for name in ["skeleton", "orc", "harpy"] {
        assert_eq!(count_name(&pool, name), 3);
    }
    for name in ["minotaur", "troll"] {
        assert_eq!(count_name(&pool, name), 2);
    }
    assert_eq!(count_name(&pool, "dragon"), 1);
}

#[test]
fn name_resolution_finds_the_first_entry() {
    let catalog = vec![named("goblin", 1, false, 3), named("wolf", 1, false, 4), named(
        "goblin", 2, false, 9,
    )];
    let hit = find_monster_by_name(&catalog, &String::from("goblin")).expect("present");
    assert_eq!(hit.exp, 3);
    assert!(find_monster_by_name(&catalog, &String::from("dragon")).is_none());
}

#[test]
fn unmatched_draws_are_skipped_silently() {
    // the first five pool slots name the goblin, the next five the wolf
    let catalog = vec![named("goblin", 1, false, 3)];
    let mut rng = ScriptedRandom::new(vec![5, 6, 7, 8, 9, 5, 6, 7, 8, 9]);
    let sel = choose_monsters(&catalog, &mut rng);
    assert!(sel.is_empty());
}

#[test]
fn matched_draws_fill_all_ten_slots() {
    let catalog = vec![named("goblin", 1, false, 3)];
    let mut rng = ScriptedRandom::new(vec![0, 1, 2, 3, 4, 0, 1, 2, 3, 4]);
    let sel = choose_monsters(&catalog, &mut rng);
    assert_eq!(sel.len(), 10);
    for m in &sel {
        assert_eq!(m.name, "goblin");
        assert_eq!(m.exp, 3);
    }
}

#[test]
fn stage_draws_respect_the_filter() {
    let catalog = vec![
        named("goblin", 1, false, 3),
        named("dragon", 1, true, 50),
        named("wolf", 2, false, 4),
    ];
    let mut rng = ScriptedRandom::new(vec![0, 0, 0]);
    let sel = choose_stage_monsters(&catalog, 1, 3, &mut rng);
    assert_eq!(sel.len(), 3);
    for m in &sel {
        assert_eq!(m.name, "goblin");
        assert_eq!(m.stage, 1);
        assert!(!m.boss);
    }
}

#[test]
fn empty_stage_filter_yields_an_empty_list() {
    let catalog = vec![named("dragon", 1, true, 50), named("wolf", 2, false, 4)];
    let mut rng = ScriptedRandom::new(vec![0, 0, 0]);
    let sel = choose_stage_monsters(&catalog, 1, 3, &mut rng);
    assert!(sel.is_empty());
}

#[test]
fn boss_lookup_reports_presence_and_absence() {
    let catalog = vec![named("goblin", 1, false, 3), named("dragon", 1, true, 50)];
    let boss = find_boss(&catalog, 1).expect("the stage has a boss");
    assert_eq!(boss.name, "dragon");
    assert!(boss.boss);
    assert!(find_boss(&catalog, 2).is_none());
}
