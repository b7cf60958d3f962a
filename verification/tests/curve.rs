use rpg_battle::progression::required_exp_to_level_up;

#[test]
fn required_exp_exact_values() {
    // floor(10 * lv^1.5 + 10 * lv)
    assert_eq!(required_exp_to_level_up(1), 20);
    assert_eq!(required_exp_to_level_up(2), 48);
    assert_eq!(required_exp_to_level_up(3), 81);
    assert_eq!(required_exp_to_level_up(4), 120);
    assert_eq!(required_exp_to_level_up(10), 416);
}

#[test]
fn required_exp_of_level_zero() {
    assert_eq!(required_exp_to_level_up(0), 0);
}

#[test]
fn required_exp_strictly_increasing_sample() {
    let mut prev = required_exp_to_level_up(1);
    for lv in 2..200u32 {
        let cur = required_exp_to_level_up(lv);
        assert!(cur > prev, "curve must strictly increase at level {}", lv);
        prev = cur;
    }
}

#[test]
fn required_exp_total_at_the_top() {
    // the whole u32 range is accepted and the curve still increases
    let near_top = required_exp_to_level_up(u32::MAX - 1);
    let top = required_exp_to_level_up(u32::MAX);
    assert!(top > near_top);
}
