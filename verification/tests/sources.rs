use rpg_battle::character::Character;
use rpg_battle::rng::{RandomSource, ScriptedRandom, SeededRandom, ThreadRandom};

#[test]
fn new_character_starts_at_the_fixed_baseline() {
    let c = Character::new(String::from("hero"));
    assert_eq!(c.name, "hero");
    assert_eq!(c.lv, 1);
    assert_eq!(c.hp, 50);
    assert_eq!(c.max_hp, 50);
    assert_eq!(c.stats.min_attack, 2);
    assert_eq!(c.stats.max_attack, 5);
    assert_eq!(c.stats.min_recovery, 1);
    assert_eq!(c.stats.max_recovery, 3);
    assert_eq!(c.exp, 0);
    assert!(c.stages_cleared.is_empty());
    assert_eq!(c.current_stage, None);
}

#[test]
fn seeded_source_stays_in_range() {
    let mut rng = SeededRandom::new(42);
    for _ in 0..200 {
        let v = rng.range(5, 10);
        assert!((5..=10).contains(&v));
        let i = rng.pick(7);
        assert!(i < 7);
    }
}

#[test]
fn seeded_source_replays_from_the_same_seed() {
    let mut a = SeededRandom::new(987654321);
    let mut b = SeededRandom::new(987654321);
    for _ in 0..100 {
        assert_eq!(a.range(0, 1000), b.range(0, 1000));
        assert_eq!(a.coin(), b.coin());
    }
}

#[test]
fn thread_source_stays_in_range() {
    let mut rng = ThreadRandom::new();
    assert_eq!(rng.range(7, 7), 7);
    assert_eq!(rng.pick(1), 0);
    for _ in 0..100 {
        let v = rng.range(3, 5);
        assert!((3..=5).contains(&v));
        let i = rng.pick(4);
        assert!(i < 4);
    }
}

#[test]
fn scripted_source_clamps_into_the_asked_range() {
    let mut rng = ScriptedRandom::new(vec![0, 99, 7]);
    assert_eq!(rng.range(5, 10), 5);  // below the range: the low end
    assert_eq!(rng.range(5, 10), 10);  // above the range: the high end
    assert_eq!(rng.range(5, 10), 7);  // inside: as scripted
    assert_eq!(rng.range(5, 10), 5);  // drained: the low end
}
