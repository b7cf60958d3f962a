use vstd::prelude::*;
use crate::battle::{battle, victory_commit, BattleOutcome};
use crate::character::Character;
use crate::encounter::{boss_monster, choose_stage_monsters, find_boss};
use crate::monster::Monster;
use crate::progression::{
    exp_after, growth_fits, lemma_levels_after_settles, lemma_required_exp_bound, level_after,
    required_exp_spec,
};
use crate::rng::RandomSource;

verus! {

/// The five campaign stages, in order.
#[derive(Clone, Copy, PartialEq, Eq, Structural, Debug)]
pub enum Stage {
    Forest,
    Cave,
    Ruins,
    Volcano,
    Castle,
}

impl Stage {
    pub open spec fn spec_id(&self) -> u32 {
        match self {
            Stage::Forest => 1,
            Stage::Cave => 2,
            Stage::Ruins => 3,
            Stage::Volcano => 4,
            Stage::Castle => 5,
        }
    }

    /// The identifier the cleared set and the current-stage field carry.
    pub fn stage_id(&self) -> (id: u32)
        ensures
            id == self.spec_id(),
            1 <= id <= 5,
    {
        match self {
            Stage::Forest => 1,
            Stage::Cave => 2,
            Stage::Ruins => 3,
            Stage::Volcano => 4,
            Stage::Castle => 5,
        }
    }

    pub open spec fn spec_required_level(&self) -> u32 {
        match self {
            Stage::Forest => 1,
            Stage::Cave => 3,
            Stage::Ruins => 5,
            Stage::Volcano => 8,
            Stage::Castle => 12,
        }
    }

    /// The character level that unlocks the stage.
    pub fn required_level(&self) -> (lv: u32)
        ensures
            lv == self.spec_required_level(),
    {
        match self {
            Stage::Forest => 1,
            Stage::Cave => 3,
            Stage::Ruins => 5,
            Stage::Volcano => 8,
            Stage::Castle => 12,
        }
    }

    pub open spec fn spec_battle_count(&self) -> nat {
        match self {
            Stage::Forest => 2,
            Stage::Cave => 3,
            Stage::Ruins => 3,
            Stage::Volcano => 4,
            Stage::Castle => 5,
        }
    }

    /// How many ordinary battles the stage holds; the boss fight comes on
    /// top and is not counted here.
    pub fn battle_count(&self) -> (n: usize)
        ensures
            n == self.spec_battle_count(),
    {
        match self {
            Stage::Forest => 2,
            Stage::Cave => 3,
            Stage::Ruins => 3,
            Stage::Volcano => 4,
            Stage::Castle => 5,
        }
    }

    /// The display name of the stage.
    pub fn display_name(&self) -> (name: &'static str)
        ensures
            name@ == self.spec_display_name(),
    {
        match self {
            Stage::Forest => "Forest",
            Stage::Cave => "Cave",
            Stage::Ruins => "Ruins",
            Stage::Volcano => "Volcano",
            Stage::Castle => "Castle",
        }
    }

    pub open spec fn spec_display_name(&self) -> Seq<char> {
        match self {
            Stage::Forest => "Forest"@,
            Stage::Cave => "Cave"@,
            Stage::Ruins => "Ruins"@,
            Stage::Volcano => "Volcano"@,
            Stage::Castle => "Castle"@,
        }
    }

    /// The stage carrying an identifier, if it is one of the five.
    pub fn from_id(id: u32) -> (s: Option<Stage>)
        ensures
            s is Some <==> 1 <= id <= 5,
            match s {
                Some(st) => st.spec_id() == id,
                None => true,
            },
    {
        if id == 1 {
            Some(Stage::Forest)
        } else if id == 2 {
            Some(Stage::Cave)
        } else if id == 3 {
            Some(Stage::Ruins)
        } else if id == 4 {
            Some(Stage::Volcano)
        } else if id == 5 {
            Some(Stage::Castle)
        } else {
            None
        }
    }
}

/// A stage unlocks exactly when the character's level reaches its bar.
pub fn is_stage_unlocked(stage: Stage, lv: u32) -> (b: bool)
    ensures
        b == (lv >= stage.spec_required_level()),
{
    lv >= stage.required_level()
}

/// Where one stage stands for one character.
#[derive(Clone, Copy, PartialEq, Eq, Structural, Debug)]
pub enum StageStatus {
    Locked,
    Unlocked,
    InProgress,
    Cleared,
}

/// The status the record implies: cleared stays cleared, the recorded
/// current stage is in progress, and otherwise the level decides between
/// unlocked and locked.
pub open spec fn status_of(c: Character, stage: Stage) -> StageStatus {
    if c.cleared_set().contains(stage.spec_id()) {
        StageStatus::Cleared
    } else if c.current_stage == Some(stage.spec_id()) {
        StageStatus::InProgress
    } else if c.lv >= stage.spec_required_level() {
        StageStatus::Unlocked
    } else {
        StageStatus::Locked
    }
}

/// Derive a stage's status from the character record.
pub fn stage_status(c: &Character, stage: Stage) -> (s: StageStatus)
    ensures
        s == status_of(*c, stage),
{
    let id = stage.stage_id();
    if c.has_cleared(id) {
        StageStatus::Cleared
    } else {
        let in_progress = match c.current_stage {
            Some(cur) => cur == id,
            None => false,
        };
        if in_progress {
            StageStatus::InProgress
        } else if is_stage_unlocked(stage, c.lv) {
            StageStatus::Unlocked
        } else {
            StageStatus::Locked
        }
    }
}

/// Enter a stage: the current-stage field records it, so an interrupted run
/// is visible in the persisted record.
pub fn start_stage(c: &mut Character, stage: Stage)
    requires
        old(c).wf(),
        old(c).lv >= stage.spec_required_level(),
    ensures
        final(c).wf(),
        *final(c) == (Character { current_stage: Some(stage.spec_id()), ..*old(c) }),
{
    let id = stage.stage_id();
    c.current_stage = Some(id);
}

/// The largest experience reward in the catalog.
pub open spec fn max_reward(ms: Seq<Monster>) -> nat
    decreases ms.len(),
{
    if ms.len() == 0 {
        0
    } else {
        let rest = max_reward(ms.drop_first());
        if ms[0].exp as nat >= rest {
            ms[0].exp as nat
        } else {
            rest
        }
    }
}

pub proof fn lemma_max_reward_ge(ms: Seq<Monster>, j: int)
    requires
        0 <= j < ms.len(),
    ensures
        ms[j].exp as nat <= max_reward(ms),
    decreases ms.len(),
{
    if j > 0 {
        lemma_max_reward_ge(ms.drop_first(), j - 1);
    }
}

/// Machine-size limits for a whole stage run: whatever `battles` fights are
/// won and in whatever order the rewards land, no stat can be pushed past
/// `u32`. Each level gained consumes at least twenty points of experience,
/// which bounds the growth by the experience mass the run can hand out.
pub open spec fn stage_growth_fits(c: Character, ms: Seq<Monster>, battles: nat) -> bool {
    let e = c.exp as nat + battles * max_reward(ms);
    &&& 20 * (c.lv as nat) + e <= 20 * (u32::MAX as nat)
    &&& 2 * (c.max_hp as nat) + e <= 2 * (u32::MAX as nat)
    &&& 20 * (c.stats.max_attack as nat) + 3 * e <= 20 * (u32::MAX as nat)
    &&& 20 * (c.stats.max_recovery as nat) + 3 * e <= 20 * (u32::MAX as nat)
}

/// One fight spends one of the budgeted battles: the pre-fight state can
/// absorb the reward, and both a victory and an untouched record keep the
/// remaining budget sound.
pub proof fn lemma_stage_step(c: Character, post: Character, ms: Seq<Monster>, b: nat, reward: u32)
    requires
        1 <= c.lv,
        (c.exp as nat) < required_exp_spec(c.lv as nat),
        stage_growth_fits(c, ms, b),
        1 <= b,
        reward as nat <= max_reward(ms),
    ensures
        c.exp as nat + reward as nat <= u64::MAX,
        growth_fits(c, c.exp as nat + reward as nat),
        stage_growth_fits(c, ms, (b - 1) as nat),
        victory_commit(c, reward, post) ==> stage_growth_fits(post, ms, (b - 1) as nat),
{
    let m = max_reward(ms);
    let e0 = c.exp as nat + reward as nat;
    lemma_required_exp_bound(c.lv as nat);
    assert(m <= b * m) by (nonlinear_arith)
        requires 1 <= b,
    ;
    assert(((b - 1) as nat) * m + m == b * m) by (nonlinear_arith)
        requires 1 <= b,
    ;
    lemma_levels_after_settles(c.lv as nat, e0);
    let l1 = level_after(c.lv as nat, e0);
    let e1 = exp_after(c.lv as nat, e0);
    let g = l1 - c.lv as nat;
    // the settle lemma: c.lv <= l1 and e1 + 20 * g <= e0
    assert(20 * l1 == 20 * (c.lv as nat) + 20 * g);
    assert(e0 <= c.exp as nat + b * m);
    assert(20 * l1 <= 20 * (c.lv as nat) + e0);
    assert(growth_fits(c, e0)) by {
        assert(20 * l1 <= 20 * (u32::MAX as nat));
        assert(2 * (c.max_hp as nat + 10 * g) == 2 * (c.max_hp as nat) + 20 * g);
        assert(2 * (c.max_hp as nat + 10 * g) <= 2 * (u32::MAX as nat));
        assert(20 * (c.stats.max_attack as nat + 3 * g) == 20 * (c.stats.max_attack as nat) + 3 * (
        20 * g));
        assert(20 * (c.stats.max_attack as nat + 3 * g) <= 20 * (u32::MAX as nat));
        assert(20 * (c.stats.max_recovery as nat + 3 * g) <= 20 * (u32::MAX as nat));
    }
    if victory_commit(c, reward, post) {
        let gained = Character { exp: (c.exp + reward) as u64, ..c };
        assert(gained.exp as nat == e0);
        if level_after(gained.lv as nat, gained.exp as nat) == gained.lv as nat {
            assert(post == Character { hp: gained.max_hp, ..gained });
            assert(post.exp as nat == e0);
            assert(stage_growth_fits(post, ms, (b - 1) as nat));
        } else {
            assert(post.lv as nat == l1);
            assert(post.exp as nat == e1);
            assert(post.max_hp as nat <= c.max_hp as nat + 10 * g);
            assert(post.stats.max_attack as nat <= c.stats.max_attack as nat + 3 * g);
            assert(post.stats.max_recovery as nat <= c.stats.max_recovery as nat + 3 * g);
            let e2 = post.exp as nat + ((b - 1) as nat) * m;
            assert(e1 + ((b - 1) as nat) * m + 20 * g <= e0 + ((b - 1) as nat) * m);
            assert(20 * (post.lv as nat) + e2 <= 20 * (c.lv as nat) + e0 + ((b - 1) as nat) * m);
            assert(20 * (post.lv as nat) + e2 <= 20 * (u32::MAX as nat));
            assert(2 * (post.max_hp as nat) + e2 <= 2 * (c.max_hp as nat) + 20 * g + e1 + ((b - 1)
                as nat) * m);
            assert(2 * (post.max_hp as nat) + e2 <= 2 * (u32::MAX as nat));
            assert(20 * (post.stats.max_attack as nat) + 3 * e2 <= 20 * (c.stats.max_attack as nat)
                + 3 * (20 * g) + 3 * e1 + 3 * (((b - 1) as nat) * m));
            assert(20 * (post.stats.max_attack as nat) + 3 * e2 <= 20 * (u32::MAX as nat));
            assert(20 * (post.stats.max_recovery as nat) + 3 * e2 <= 20 * (u32::MAX as nat));
            assert(stage_growth_fits(post, ms, (b - 1) as nat));
        }
    }
}

/// How a stage run ends.
#[derive(Clone, Copy, PartialEq, Eq, Structural, Debug)]
pub enum StageOutcome {
    Cleared,
    Failed,
    BossMissing,
}

/// Run one stage: its ordinary battles in sequence, then the boss.
///
/// A single defeat (or an abandoned fight) aborts the stage at once: vitality
/// is restored, the current-stage mark is dropped, and nothing is recorded as
/// cleared. Beating the boss records the stage in the cleared set; a catalog
/// without a boss for this stage aborts the run the same way a defeat does,
/// and reports it.
pub fn run_stage<R: RandomSource>(
    c: &mut Character,
    monsters: &Vec<Monster>,
    stage: Stage,
    rng: &mut R,
) -> (out: StageOutcome)
    requires
        old(c).wf(),
        old(c).hp == old(c).max_hp,
        old(c).lv >= stage.spec_required_level(),
        forall|j: int| 0 <= j < monsters@.len() ==> (#[trigger] monsters@[j]).wf(),
        forall|j: int| 0 <= j < monsters@.len() ==> 0 < (#[trigger] monsters@[j]).hp,
        stage_growth_fits(*old(c), monsters@, stage.spec_battle_count() + 1),
    ensures
        final(c).wf(),
        final(c).hp == final(c).max_hp,
        final(c).current_stage is None,
        final(c).lv >= old(c).lv,
        final(c).name == old(c).name,
        out is Cleared ==> final(c).cleared_set() =~= old(c).cleared_set().insert(stage.spec_id()),
        out is Failed ==> final(c).stages_cleared == old(c).stages_cleared,
        out is BossMissing ==> final(c).stages_cleared == old(c).stages_cleared && (forall|j: int|
            0 <= j < monsters@.len() ==> !boss_monster(#[trigger] monsters@[j], stage.spec_id())),
{
    let id = stage.stage_id();
    c.current_stage = Some(id);
    let count = stage.battle_count();
    let opponents = choose_stage_monsters(monsters, id, count, rng);
    let mut i: usize = 0;
    while i < opponents.len()
        invariant
            i <= opponents@.len(),
            opponents@.len() <= count,
            count == stage.spec_battle_count(),
            c.wf(),
            c.hp == c.max_hp,
            c.current_stage == Some(stage.spec_id()),
            c.stages_cleared == old(c).stages_cleared,
            c.name == old(c).name,
            old(c).lv <= c.lv,
            old(c).cleared_wf(),
            stage_growth_fits(*c, monsters@, (count + 1 - i) as nat),
            forall|j: int| 0 <= j < monsters@.len() ==> (#[trigger] monsters@[j]).wf(),
            forall|j: int| 0 <= j < monsters@.len() ==> 0 < (#[trigger] monsters@[j]).hp,
            forall|k: int| 0 <= k < opponents@.len() ==> monsters@.contains(
                #[trigger] opponents@[k],
            ),
        decreases opponents@.len() - i,
    {
        let ghost pre = *c;
        proof {
            assert(monsters@.contains(opponents@[i as int]));
            let j = choose|j: int|
                0 <= j < monsters@.len() && monsters@[j] == opponents@[i as int];
            lemma_max_reward_ge(monsters@, j);
            lemma_stage_step(
                pre,
                pre,
                monsters@,
                (count + 1 - i) as nat,
                opponents@[i as int].exp,
            );
        }
        let rep = battle(c, &opponents[i], rng);
        proof {
            lemma_stage_step(
                pre,
                *c,
                monsters@,
                (count + 1 - i) as nat,
                opponents@[i as int].exp,
            );
        }
        let mut won = false;
        match rep {
            Some(r) => {
                match r.outcome {
                    BattleOutcome::Victory => {
                        won = true;
                    },
                    BattleOutcome::Defeat => {},
                }
            },
            None => {},
        }
        if !won {
            c.hp = c.max_hp;
            c.current_stage = None;
            return StageOutcome::Failed;
        }
        i = i + 1;
    }
    match find_boss(monsters, id) {
        None => {
            c.current_stage = None;
            StageOutcome::BossMissing
        },
        Some(boss) => {
            let ghost pre = *c;
            proof {
                let j = choose|j: int|
                    0 <= j < monsters@.len() && boss_monster(monsters@[j], stage.spec_id())
                        && boss == monsters@[j];
                lemma_max_reward_ge(monsters@, j);
                lemma_stage_step(pre, pre, monsters@, (count + 1 - i) as nat, boss.exp);
            }
            let rep = battle(c, &boss, rng);
            proof {
                lemma_stage_step(pre, *c, monsters@, (count + 1 - i) as nat, boss.exp);
            }
            let mut won = false;
            match rep {
                Some(r) => {
                    match r.outcome {
                        BattleOutcome::Victory => {
                            won = true;
                        },
                        BattleOutcome::Defeat => {},
                    }
                },
                None => {},
            }
            if won {
                c.record_clear(id);
                c.current_stage = None;
                StageOutcome::Cleared
            } else {
                c.hp = c.max_hp;
                c.current_stage = None;
                StageOutcome::Failed
            }
        },
    }
}

} // verus!
