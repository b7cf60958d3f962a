use vstd::prelude::*;
use crate::character::Character;
use crate::monster::Monster;
use crate::progression::{
    check_level_up, growth_fits, growth_ok, lemma_required_exp_bound, level_after,
};
use crate::rng::RandomSource;

verus! {

/// Defensive cap on the length of one fight. Recovery can offset damage, so
/// without a cap an adversarial sequence of draws could spin forever; a fight
/// that somehow outlasts the cap is abandoned and leaves the character
/// untouched.
pub const MAX_BATTLE_TURNS: u32 = 1000000;

#[derive(Clone, Copy, PartialEq, Eq, Structural, Debug)]
pub enum BattleOutcome {
    Victory,
    Defeat,
}

/// One semantic narration event: who acted, with what magnitude, and the
/// acted-on side's vitality right after.
#[derive(Clone, Copy, PartialEq, Eq, Structural, Debug)]
pub enum BattleEvent {
    CharacterAttack { damage: u32, monster_hp: u32 },
    CharacterHeal { amount: u32, character_hp: u32 },
    MonsterAttack { damage: u32, character_hp: u32 },
}

/// The resolution of one encounter: the outcome, both sides' vitality at the
/// moment of resolution (before the victor's restoration), and the full turn
/// narration.
pub struct BattleReport {
    pub outcome: BattleOutcome,
    pub character_hp: u32,
    pub monster_hp: u32,
    pub events: Vec<BattleEvent>,
}

/// Damage saturates at zero: the struck side's vitality never goes negative.
pub fn apply_damage(hp: u32, damage: u32) -> (r: u32)
    ensures
        r as int == vstd::math::max(0, hp - damage),
{
    hp.saturating_sub(damage)
}

/// Recovery is capped: vitality never exceeds the maximum.
pub fn apply_recovery(hp: u32, amount: u32, max_hp: u32) -> (r: u32)
    requires
        hp <= max_hp,
    ensures
        r as int == vstd::math::min(max_hp as int, hp + amount),
{
    if amount >= max_hp - hp {
        max_hp
    } else {
        hp + amount
    }
}

/// The pair of vitalities after one event.
pub open spec fn next_hps(c_hp: nat, m_hp: nat, ev: BattleEvent) -> (nat, nat) {
    match ev {
        BattleEvent::CharacterAttack { monster_hp, .. } => (c_hp, monster_hp as nat),
        BattleEvent::CharacterHeal { character_hp, .. } => (character_hp as nat, m_hp),
        BattleEvent::MonsterAttack { character_hp, .. } => (character_hp as nat, m_hp),
    }
}

/// One event is a legal move from the given vitalities: the magnitude lies in
/// the mover's range, damage saturates at zero, recovery is capped at the
/// maximum, and the right side moved.
pub open spec fn event_valid(
    c: Character,
    m: Monster,
    c_hp: nat,
    m_hp: nat,
    ev: BattleEvent,
    char_turn: bool,
) -> bool {
    match ev {
        BattleEvent::CharacterAttack { damage, monster_hp } => {
            &&& char_turn
            &&& c.stats.min_attack <= damage <= c.stats.max_attack
            &&& monster_hp as int == vstd::math::max(0, m_hp - damage)
        },
        BattleEvent::CharacterHeal { amount, character_hp } => {
            &&& char_turn
            &&& c.stats.min_recovery <= amount <= c.stats.max_recovery
            &&& character_hp as int == vstd::math::min(c.max_hp as int, c_hp + amount)
        },
        BattleEvent::MonsterAttack { damage, character_hp } => {
            &&& !char_turn
            &&& m.min_attack <= damage <= m.max_attack
            &&& character_hp as int == vstd::math::max(0, c_hp - damage)
        },
    }
}

/// A legal narration from the given vitalities: every event is a legal move
/// from the state the previous events produced, the sides alternate starting
/// with `char_turn`, and no move is made once a side is down.
pub open spec fn events_ok(
    c: Character,
    m: Monster,
    c_hp: nat,
    m_hp: nat,
    evs: Seq<BattleEvent>,
    char_turn: bool,
) -> bool
    decreases evs.len(),
{
    evs.len() == 0 || {
        &&& 0 < c_hp && 0 < m_hp
        &&& event_valid(c, m, c_hp, m_hp, evs[0], char_turn)
        &&& events_ok(
            c,
            m,
            next_hps(c_hp, m_hp, evs[0]).0,
            next_hps(c_hp, m_hp, evs[0]).1,
            evs.drop_first(),
            !char_turn,
        )
    }
}

/// The vitalities a narration ends in.
pub open spec fn hps_after(c_hp: nat, m_hp: nat, evs: Seq<BattleEvent>) -> (nat, nat)
    decreases evs.len(),
{
    if evs.len() == 0 {
        (c_hp, m_hp)
    } else {
        hps_after(
            next_hps(c_hp, m_hp, evs[0]).0,
            next_hps(c_hp, m_hp, evs[0]).1,
            evs.drop_first(),
        )
    }
}

/// Whose turn it is once `n` alternating events have passed.
pub open spec fn turn_after(t0: bool, n: nat) -> bool {
    if n % 2 == 0 {
        t0
    } else {
        !t0
    }
}

/// Appending one legal move keeps a narration legal.
proof fn lemma_events_ok_push(
    c: Character,
    m: Monster,
    c_hp: nat,
    m_hp: nat,
    evs: Seq<BattleEvent>,
    ev: BattleEvent,
    t0: bool,
)
    requires
        events_ok(c, m, c_hp, m_hp, evs, t0),
        0 < hps_after(c_hp, m_hp, evs).0,
        0 < hps_after(c_hp, m_hp, evs).1,
        event_valid(
            c,
            m,
            hps_after(c_hp, m_hp, evs).0,
            hps_after(c_hp, m_hp, evs).1,
            ev,
            turn_after(t0, evs.len()),
        ),
    ensures
        events_ok(c, m, c_hp, m_hp, evs.push(ev), t0),
        hps_after(c_hp, m_hp, evs.push(ev)) == next_hps(
            hps_after(c_hp, m_hp, evs).0,
            hps_after(c_hp, m_hp, evs).1,
            ev,
        ),
    decreases evs.len(),
{
    if evs.len() == 0 {
        let nh = next_hps(c_hp, m_hp, ev);
        assert(evs.push(ev)[0] == ev);
        assert(evs.push(ev).drop_first() =~= Seq::<BattleEvent>::empty());
        assert(hps_after(c_hp, m_hp, evs) == (c_hp, m_hp));
        assert(events_ok(c, m, nh.0, nh.1, evs.push(ev).drop_first(), !t0));
        assert(hps_after(nh.0, nh.1, evs.push(ev).drop_first()) == nh);
        assert(events_ok(c, m, c_hp, m_hp, evs.push(ev), t0));
        assert(hps_after(c_hp, m_hp, evs.push(ev)) == nh);
    } else {
        let rest = evs.drop_first();
        let h1 = next_hps(c_hp, m_hp, evs[0]).0;
        let k1 = next_hps(c_hp, m_hp, evs[0]).1;
        assert(evs.push(ev)[0] == evs[0]);
        assert(evs.push(ev).drop_first() =~= rest.push(ev));
        assert(hps_after(c_hp, m_hp, evs) == hps_after(h1, k1, rest));
        assert(rest.len() == evs.len() - 1);
        assert(turn_after(!t0, rest.len()) == turn_after(t0, evs.len()));
        lemma_events_ok_push(c, m, h1, k1, rest, ev, !t0);
        assert(hps_after(c_hp, m_hp, evs.push(ev)) == hps_after(h1, k1, rest.push(ev)));
    }
}

/// The character after a victory worth `reward` experience: the reward is
/// banked, every threshold it covers is consumed by leveling, and vitality is
/// fully restored.
pub open spec fn victory_commit(pre: Character, reward: u32, post: Character) -> bool {
    let gained = Character { exp: (pre.exp + reward) as u64, ..pre };
    &&& (level_after(gained.lv as nat, gained.exp as nat) == gained.lv as nat ==> post
        == Character { hp: gained.max_hp, ..gained })
    &&& (level_after(gained.lv as nat, gained.exp as nat) != gained.lv as nat ==> growth_ok(
        gained,
        post,
    ))
    &&& post.hp == post.max_hp
}

/// Resolve one encounter.
///
/// Each turn the character either attacks or recovers, with an even chance;
/// if the monster survives (or was not attacked) it strikes back. The fight
/// ends in `Victory` the moment the monster's vitality reaches zero, and in
/// `Defeat` the moment the character's does. Victory banks the monster's
/// experience reward, levels the character through every threshold the
/// accumulator now covers, and restores vitality to the (possibly new)
/// maximum; defeat leaves the character at zero vitality and touches nothing
/// else. `None` is the defensive turn-cap outcome: the character is left
/// exactly as it was.
pub fn battle<R: RandomSource>(c: &mut Character, m: &Monster, rng: &mut R) -> (rep: Option<
    BattleReport,
>)
    requires
        old(c).wf(),
        m.wf(),
        0 < old(c).hp,
        0 < m.hp,
        growth_fits(*old(c), old(c).exp as nat + m.exp as nat),
    ensures
        final(c).wf(),
        final(c).name == old(c).name,
        final(c).stages_cleared == old(c).stages_cleared,
        final(c).current_stage == old(c).current_stage,
        final(c).lv >= old(c).lv,
        final(c).max_hp >= old(c).max_hp,
        final(c).stats.wf(),
        rep is None ==> *final(c) == *old(c),
        match rep {
            Some(r) => {
                &&& events_ok(*old(c), *m, old(c).hp as nat, m.hp as nat, r.events@, true)
                &&& hps_after(old(c).hp as nat, m.hp as nat, r.events@) == (
                    r.character_hp as nat,
                    r.monster_hp as nat,
                )
                &&& (r.outcome is Victory <==> r.monster_hp == 0)
                &&& (r.outcome is Defeat <==> r.character_hp == 0)
                &&& (r.outcome is Victory ==> 0 < r.character_hp && victory_commit(
                    *old(c),
                    m.exp,
                    *final(c),
                ))
                &&& (r.outcome is Defeat ==> 0 < r.monster_hp && *final(c) == Character {
                    hp: 0u32,
                    ..*old(c)
                })
            },
            None => *final(c) == *old(c),
        },
{
    let mut c_hp: u32 = c.hp;
    let mut m_hp: u32 = m.hp;
    let mut events: Vec<BattleEvent> = Vec::new();
    let mut turns_left: u32 = MAX_BATTLE_TURNS;
    let mut outcome: Option<BattleOutcome> = None;
    loop
        invariant_except_break
            outcome is None,
            0 < c_hp,
            0 < m_hp,
            events@.len() % 2 == 0,
        invariant
            *c == *old(c),
            old(c).wf(),
            m.wf(),
            c_hp <= old(c).max_hp,
            events_ok(*old(c), *m, old(c).hp as nat, m.hp as nat, events@, true),
            hps_after(old(c).hp as nat, m.hp as nat, events@) == (c_hp as nat, m_hp as nat),
        ensures
            *c == *old(c),
            c_hp <= old(c).max_hp,
            events_ok(*old(c), *m, old(c).hp as nat, m.hp as nat, events@, true),
            hps_after(old(c).hp as nat, m.hp as nat, events@) == (c_hp as nat, m_hp as nat),
            match outcome {
                Some(BattleOutcome::Victory) => m_hp == 0 && 0 < c_hp,
                Some(BattleOutcome::Defeat) => c_hp == 0 && 0 < m_hp,
                None => 0 < c_hp && 0 < m_hp,
            },
        decreases turns_left,
    {
        if turns_left == 0 {
            break;
        }
        turns_left = turns_left - 1;
        if rng.coin() {
            let damage = rng.range(c.stats.min_attack, c.stats.max_attack);
            let new_m_hp = apply_damage(m_hp, damage);
            let ev = BattleEvent::CharacterAttack { damage, monster_hp: new_m_hp };
            proof {
                lemma_events_ok_push(*old(c), *m, old(c).hp as nat, m.hp as nat, events@, ev, true);
            }
            events.push(ev);
            m_hp = new_m_hp;
            if m_hp == 0 {
                outcome = Some(BattleOutcome::Victory);
                break;
            }
        } else {
            let amount = rng.range(c.stats.min_recovery, c.stats.max_recovery);
            let new_c_hp = apply_recovery(c_hp, amount, c.max_hp);
            let ev = BattleEvent::CharacterHeal { amount, character_hp: new_c_hp };
            proof {
                lemma_events_ok_push(*old(c), *m, old(c).hp as nat, m.hp as nat, events@, ev, true);
            }
            events.push(ev);
            c_hp = new_c_hp;
        }
        let damage = rng.range(m.min_attack, m.max_attack);
        let new_c_hp = apply_damage(c_hp, damage);
        let ev = BattleEvent::MonsterAttack { damage, character_hp: new_c_hp };
        proof {
            lemma_events_ok_push(*old(c), *m, old(c).hp as nat, m.hp as nat, events@, ev, true);
        }
        events.push(ev);
        c_hp = new_c_hp;
        if c_hp == 0 {
            outcome = Some(BattleOutcome::Defeat);
            break;
        }
    }
    match outcome {
        None => None,
        Some(BattleOutcome::Victory) => {
            proof {
                lemma_required_exp_bound(old(c).lv as nat);
            }
            c.exp = c.exp + (m.exp as u64);
            check_level_up(c, rng);
            c.hp = c.max_hp;
            Some(
                BattleReport {
                    outcome: BattleOutcome::Victory,
                    character_hp: c_hp,
                    monster_hp: m_hp,
                    events,
                },
            )
        },
        Some(BattleOutcome::Defeat) => {
            c.hp = 0;
            Some(
                BattleReport {
                    outcome: BattleOutcome::Defeat,
                    character_hp: c_hp,
                    monster_hp: m_hp,
                    events,
                },
            )
        },
    }
}

} // verus!
