use vstd::prelude::*;
use crate::math::{
    lemma_sqrt_floor_lt, lemma_sqrt_floor_monotone, lemma_sqrt_floor_of_square_le,
    lemma_sqrt_floor_unique, isqrt_u128, sqrt_floor,
};
use crate::character::Character;
use crate::rng::RandomSource;

verus! {

/// Experience that must be accumulated to leave `lv`:
/// `floor(10 * lv^1.5 + 10 * lv)`.
pub open spec fn required_exp_spec(lv: nat) -> nat {
    10 * lv + sqrt_floor(100 * (lv * lv * lv))
}

/// The threshold to leave level 1 is 20.
pub proof fn lemma_required_exp_at_one()
    ensures
        required_exp_spec(1) == 20,
{
    assert(1nat * 1nat == 1nat);
    assert(100 * (1nat * (1nat * 1nat)) == 100nat);
    assert(10nat * 10nat == 100nat);
    assert(11nat * 11nat == 121nat);
    lemma_sqrt_floor_unique(100, 10);
    assert(required_exp_spec(1) == 10 * 1nat + sqrt_floor(100 * (1nat * 1nat * 1nat)));
    assert(100 * (1nat * 1nat * 1nat) == 100nat);
}

/// The curve is strictly increasing in the level.
pub proof fn lemma_required_exp_strictly_increasing(lv: nat)
    ensures
        required_exp_spec(lv) < required_exp_spec(lv + 1),
{
    assert(100 * (lv * lv * lv) <= 100 * ((lv + 1) * ((lv + 1) * (lv + 1)))) by (nonlinear_arith);
    assert(100 * ((lv + 1) * ((lv + 1) * (lv + 1))) == 100 * ((lv + 1) * (lv + 1) * (lv + 1)));
    lemma_sqrt_floor_monotone(100 * (lv * lv * lv), 100 * ((lv + 1) * (lv + 1) * (lv + 1)));
}

/// At and above level 1 the threshold is at least twenty times the level.
pub proof fn lemma_required_exp_ge(lv: nat)
    requires
        1 <= lv,
    ensures
        20 * lv <= required_exp_spec(lv),
{
    assert((10 * lv) * (10 * lv) <= 100 * (lv * lv * lv)) by (nonlinear_arith)
        requires 1 <= lv,
    ;
    lemma_sqrt_floor_of_square_le(10 * lv, 100 * (lv * lv * lv));
}

/// For any level a `u32` can carry, the threshold stays below 2^53.
pub proof fn lemma_required_exp_bound(lv: nat)
    requires
        lv <= 0xffff_ffff,
    ensures
        required_exp_spec(lv) < 0x20_0000_0000_0000,
{
    assert(100 * (lv * lv * lv) < 0x10_0000_0000_0000nat * 0x10_0000_0000_0000nat)
        by (nonlinear_arith)
        requires lv <= 0xffff_ffffnat,
    ;
    lemma_sqrt_floor_lt(100 * (lv * lv * lv), 0x10_0000_0000_0000);
}

/// The threshold for the current level, computed exactly.
pub fn required_exp_to_level_up(current_lv: u32) -> (r: u64)
    ensures
        r == required_exp_spec(current_lv as nat),
{
    let lv: u128 = current_lv as u128;
    proof {
        assert((lv as int) * (lv as int) < 0x1_0000_0000_0000_0000int) by (nonlinear_arith)
            requires lv < 0x1_0000_0000u128,
        ;
        assert((lv as int) * (lv as int) * (lv as int) < 0x1_0000_0000_0000_0000_0000_0000int)
            by (nonlinear_arith)
            requires lv < 0x1_0000_0000u128,
        ;
    }
    let cube: u128 = lv * lv * lv;
    let radicand: u128 = 100 * cube;
    let root: u128 = isqrt_u128(radicand);
    proof {
        assert(radicand < 0x80_0000_0000_0000_0000_0000_0000u128);
        assert((radicand as int) < 0x10_0000_0000_0000int * 0x10_0000_0000_0000int)
            by (nonlinear_arith)
            requires radicand < 0x80_0000_0000_0000_0000_0000_0000u128,
        ;
        lemma_sqrt_floor_lt(radicand as nat, 0x10_0000_0000_0000);
        assert(radicand as nat == 100 * ((current_lv as nat) * (current_lv as nat) * (current_lv
            as nat)));
    }
    10 * (current_lv as u64) + (root as u64)
}

/// The level and the leftover experience once every crossed threshold has
/// been consumed, starting from level `lv` with accumulator `exp`.
pub open spec fn levels_after(lv: nat, exp: nat) -> (nat, nat)
    decreases exp,
{
    if 1 <= lv && required_exp_spec(lv) <= exp {
        levels_after(lv + 1, (exp - required_exp_spec(lv)) as nat)
    } else {
        (lv, exp)
    }
}

pub open spec fn level_after(lv: nat, exp: nat) -> nat {
    levels_after(lv, exp).0
}

pub open spec fn exp_after(lv: nat, exp: nat) -> nat {
    levels_after(lv, exp).1
}

/// Leveling crosses exactly the thresholds the accumulator covers: it never
/// stops while a threshold is reached, it consumes at least twenty points
/// per level gained, and the leftover sits below the next threshold.
pub proof fn lemma_levels_after_settles(lv: nat, exp: nat)
    requires
        1 <= lv,
    ensures
        lv <= level_after(lv, exp),
        exp_after(lv, exp) < required_exp_spec(level_after(lv, exp)),
        exp_after(lv, exp) + 20 * (level_after(lv, exp) - lv) <= exp,
        exp < required_exp_spec(lv) ==> level_after(lv, exp) == lv && exp_after(lv, exp) == exp,
        required_exp_spec(lv) <= exp ==> lv + 1 <= level_after(lv, exp),
    decreases exp,
{
    lemma_required_exp_ge(lv);
    if required_exp_spec(lv) <= exp {
        lemma_levels_after_settles(lv + 1, (exp - required_exp_spec(lv)) as nat);
    }
}

/// Machine-size limits: one round of leveling from accumulator `e` must not
/// push the level or any grown stat past `u32`.
pub open spec fn growth_fits(c: Character, e: nat) -> bool {
    let g = level_after(c.lv as nat, e) - c.lv;
    &&& level_after(c.lv as nat, e) <= u32::MAX
    &&& c.max_hp + 10 * g <= u32::MAX
    &&& c.stats.max_attack + 3 * g <= u32::MAX
    &&& c.stats.max_recovery + 3 * g <= u32::MAX
}

/// How one call of `check_level_up` may change a character: the level and
/// the leftover experience are exact; each level gained adds 5..=10 vitality
/// and shifts each stat range up by 1..=3 without changing its width.
pub open spec fn growth_ok(pre: Character, post: Character) -> bool {
    let l0 = pre.lv as nat;
    let e0 = pre.exp as nat;
    let g = level_after(l0, e0) - l0;
    &&& post.lv as nat == level_after(l0, e0)
    &&& post.exp as nat == exp_after(l0, e0)
    &&& pre.max_hp + 5 * g <= post.max_hp <= pre.max_hp + 10 * g
    &&& pre.stats.min_attack + g <= post.stats.min_attack <= pre.stats.min_attack + 3 * g
    &&& post.stats.max_attack - post.stats.min_attack == pre.stats.max_attack
        - pre.stats.min_attack
    &&& post.stats.min_attack - pre.stats.min_attack == post.stats.max_attack
        - pre.stats.max_attack
    &&& pre.stats.min_recovery + g <= post.stats.min_recovery <= pre.stats.min_recovery + 3 * g
    &&& post.stats.max_recovery - post.stats.min_recovery == pre.stats.max_recovery
        - pre.stats.min_recovery
    &&& (1 <= g ==> post.hp == post.max_hp)
    &&& (g == 0 ==> post == pre)
    &&& post.max_hp >= pre.max_hp
    &&& post.name == pre.name
    &&& post.stages_cleared == pre.stages_cleared
    &&& post.current_stage == pre.current_stage
}

/// Consume every threshold the accumulator covers: raise the level once per
/// threshold, growing vitality by a draw from [5, 10] and shifting each stat
/// range up by a draw from [1, 3], and reset vitality to the new maximum.
pub fn check_level_up<R: RandomSource>(c: &mut Character, rng: &mut R)
    requires
        1 <= old(c).lv,
        old(c).stats.wf(),
        old(c).hp <= old(c).max_hp,
        growth_fits(*old(c), old(c).exp as nat),
    ensures
        growth_ok(*old(c), *final(c)),
        final(c).stats.wf(),
        final(c).hp <= final(c).max_hp,
        1 <= final(c).lv,
        (final(c).exp as nat) < required_exp_spec(final(c).lv as nat),
{
    proof {
        lemma_levels_after_settles(old(c).lv as nat, old(c).exp as nat);
    }
    loop
        invariant
            1 <= c.lv,
            c.stats.wf(),
            c.hp <= c.max_hp,
            old(c).lv <= c.lv,
            levels_after(c.lv as nat, c.exp as nat) == levels_after(
                old(c).lv as nat,
                old(c).exp as nat,
            ),
            growth_fits(*old(c), old(c).exp as nat),
            old(c).max_hp + 5 * (c.lv - old(c).lv) <= c.max_hp <= old(c).max_hp + 10 * (c.lv - old(
                c,
            ).lv),
            old(c).stats.min_attack + (c.lv - old(c).lv) <= c.stats.min_attack <= old(
                c,
            ).stats.min_attack + 3 * (c.lv - old(c).lv),
            c.stats.max_attack - c.stats.min_attack == old(c).stats.max_attack - old(
                c,
            ).stats.min_attack,
            c.stats.min_attack - old(c).stats.min_attack == c.stats.max_attack - old(
                c,
            ).stats.max_attack,
            old(c).stats.min_recovery + (c.lv - old(c).lv) <= c.stats.min_recovery <= old(
                c,
            ).stats.min_recovery + 3 * (c.lv - old(c).lv),
            c.stats.max_recovery - c.stats.min_recovery == old(c).stats.max_recovery - old(
                c,
            ).stats.min_recovery,
            old(c).lv < c.lv ==> c.hp == c.max_hp,
            old(c).lv == c.lv ==> *c == *old(c),
            c.name == old(c).name,
            c.stages_cleared == old(c).stages_cleared,
            c.current_stage == old(c).current_stage,
        ensures
            (c.exp as nat) < required_exp_spec(c.lv as nat),
            levels_after(c.lv as nat, c.exp as nat) == levels_after(
                old(c).lv as nat,
                old(c).exp as nat,
            ),
            old(c).lv <= c.lv,
            levels_after(c.lv as nat, c.exp as nat) == (c.lv as nat, c.exp as nat),
            old(c).max_hp + 5 * (c.lv - old(c).lv) <= c.max_hp <= old(c).max_hp + 10 * (c.lv - old(
                c,
            ).lv),
            old(c).stats.min_attack + (c.lv - old(c).lv) <= c.stats.min_attack <= old(
                c,
            ).stats.min_attack + 3 * (c.lv - old(c).lv),
            c.stats.max_attack - c.stats.min_attack == old(c).stats.max_attack - old(
                c,
            ).stats.min_attack,
            c.stats.min_attack - old(c).stats.min_attack == c.stats.max_attack - old(
                c,
            ).stats.max_attack,
            old(c).stats.min_recovery + (c.lv - old(c).lv) <= c.stats.min_recovery <= old(
                c,
            ).stats.min_recovery + 3 * (c.lv - old(c).lv),
            c.stats.max_recovery - c.stats.min_recovery == old(c).stats.max_recovery - old(
                c,
            ).stats.min_recovery,
            old(c).lv < c.lv ==> c.hp == c.max_hp,
            old(c).lv == c.lv ==> *c == *old(c),
            1 <= c.lv,
            c.stats.wf(),
            c.hp <= c.max_hp,
            c.name == old(c).name,
            c.stages_cleared == old(c).stages_cleared,
            c.current_stage == old(c).current_stage,
        decreases c.exp,
    {
        let need = required_exp_to_level_up(c.lv);
        proof {
            lemma_levels_after_settles(c.lv as nat, c.exp as nat);
        }
        if c.exp < need {
            break;
        }
        c.exp = c.exp - need;
        c.lv = c.lv + 1;
        let hp_gain = rng.range(5, 10);
        c.max_hp = c.max_hp + hp_gain;
        c.hp = c.max_hp;
        let atk_gain = rng.range(1, 3);
        c.stats.min_attack = c.stats.min_attack + atk_gain;
        c.stats.max_attack = c.stats.max_attack + atk_gain;
        let rec_gain = rng.range(1, 3);
        c.stats.min_recovery = c.stats.min_recovery + rec_gain;
        c.stats.max_recovery = c.stats.max_recovery + rec_gain;
    }
}

} // verus!
