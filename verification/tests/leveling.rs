use rpg_battle::character::{Character, Stats};
use rpg_battle::progression::check_level_up;
use rpg_battle::rng::ScriptedRandom;

fn fresh(exp: u64) -> Character {
    Character {
        name: String::from("hero"),
        lv: 1,
        hp: 50,
        max_hp: 50,
        stats: Stats { min_attack: 2, max_attack: 5, min_recovery: 1, max_recovery: 3 },
        exp,
        stages_cleared: Vec::new(),
        current_stage: None,
    }
}

#[test]
fn no_level_up_below_threshold() {
    // the level-1 threshold is 20
    let mut c = fresh(19);
    let mut rng = ScriptedRandom::new(vec![]);
    check_level_up(&mut c, &mut rng);
    assert_eq!(c.lv, 1);
    assert_eq!(c.exp, 19);
    assert_eq!(c.max_hp, 50);
    assert_eq!(c.hp, 50);
    assert_eq!(c.stats.min_attack, 2);
}

#[test]
fn single_level_up() {
    let mut c = fresh(20);
    // one level: vitality +7, attack +2, recovery +3
    let mut rng = ScriptedRandom::new(vec![7, 2, 3]);
    check_level_up(&mut c, &mut rng);
    assert_eq!(c.lv, 2);
    assert_eq!(c.exp, 0);
    assert_eq!(c.max_hp, 57);
    assert_eq!(c.hp, 57);
    assert_eq!(c.stats.min_attack, 4);
    assert_eq!(c.stats.max_attack, 7);
    assert_eq!(c.stats.min_recovery, 4);
    assert_eq!(c.stats.max_recovery, 6);
}

#[test]
fn two_thresholds_crossed_at_once() {
    // 73 = 20 (level 1) + 48 (level 2) + 5 leftover
    let mut c = fresh(73);
    let mut rng = ScriptedRandom::new(vec![5, 1, 1, 10, 3, 3]);
    check_level_up(&mut c, &mut rng);
    assert_eq!(c.lv, 3);
    assert_eq!(c.exp, 5);
    assert!(c.exp < 81);  // leftover sits below the level-3 threshold
    assert_eq!(c.max_hp, 65);
    assert_eq!(c.hp, 65);
    assert_eq!(c.stats.min_attack, 6);
    assert_eq!(c.stats.max_attack, 9);
    assert_eq!(c.stats.min_recovery, 5);
    assert_eq!(c.stats.max_recovery, 7);
}

#[test]
fn range_widths_are_preserved() {
    let mut c = fresh(73);
    let atk_width = c.stats.max_attack - c.stats.min_attack;
    let rec_width = c.stats.max_recovery - c.stats.min_recovery;
    let mut rng = ScriptedRandom::new(vec![9, 3, 2, 6, 1, 1]);
    check_level_up(&mut c, &mut rng);
    assert_eq!(c.stats.max_attack - c.stats.min_attack, atk_width);
    assert_eq!(c.stats.max_recovery - c.stats.min_recovery, rec_width);
}

#[test]
fn drained_script_still_levels_within_ranges() {
    // an exhausted script falls back to the low end of each range
    let mut c = fresh(20);
    let mut rng = ScriptedRandom::new(vec![]);
    check_level_up(&mut c, &mut rng);
    assert_eq!(c.lv, 2);
    assert_eq!(c.max_hp, 55);
    assert_eq!(c.stats.min_attack, 3);
    assert_eq!(c.stats.min_recovery, 2);
}
