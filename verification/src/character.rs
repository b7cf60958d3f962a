use vstd::prelude::*;
use crate::progression::required_exp_spec;

verus! {

/// The grown stats of the character: both ranges are inclusive.
pub struct Stats {
    pub min_attack: u32,
    pub max_attack: u32,
    pub min_recovery: u32,
    pub max_recovery: u32,
}

impl Stats {
    pub open spec fn wf(&self) -> bool {
        &&& self.min_attack <= self.max_attack
        &&& self.min_recovery <= self.max_recovery
    }
}

/// The identifiers of the five campaign stages.
pub const FIRST_STAGE_ID: u32 = 1;
pub const LAST_STAGE_ID: u32 = 5;

/// The one persistent record of a run: level, vitality, stat ranges,
/// accumulated experience, and campaign progress.
pub struct Character {
    pub name: String,
    pub lv: u32,
    pub hp: u32,
    pub max_hp: u32,
    pub stats: Stats,
    pub exp: u64,
    pub stages_cleared: Vec<u32>,
    pub current_stage: Option<u32>,
}

impl Character {
    /// The cleared stages, as a set: the order of recording is immaterial.
    pub open spec fn cleared_set(&self) -> Set<u32> {
        self.stages_cleared@.to_set()
    }

    pub open spec fn cleared_wf(&self) -> bool {
        &&& self.stages_cleared@.no_duplicates()
        &&& forall|i: int|
            0 <= i < self.stages_cleared@.len() ==> FIRST_STAGE_ID <= #[trigger] self.stages_cleared@[i]
                <= LAST_STAGE_ID
    }

    /// Structural well-formedness: everything but the experience bound.
    pub open spec fn base_wf(&self) -> bool {
        &&& 1 <= self.lv
        &&& 1 <= self.max_hp
        &&& self.hp <= self.max_hp
        &&& self.stats.wf()
        &&& self.cleared_wf()
        &&& match self.current_stage {
            Some(id) => FIRST_STAGE_ID <= id <= LAST_STAGE_ID,
            None => true,
        }
    }

    /// Well-formedness. Leveling always settles the accumulator below the
    /// next threshold, so a character at rest carries less experience than
    /// the next level demands.
    pub open spec fn wf(&self) -> bool {
        &&& self.base_wf()
        &&& (self.exp as nat) < required_exp_spec(self.lv as nat)
    }

    /// A fresh level-1 character with the fixed starting stats.
    pub fn new(name: String) -> (c: Character)
        ensures
            c.wf(),
            c.name == name,
            c.lv == 1,
            c.hp == 50,
            c.max_hp == 50,
            c.stats.min_attack == 2,
            c.stats.max_attack == 5,
            c.stats.min_recovery == 1,
            c.stats.max_recovery == 3,
            c.exp == 0,
            c.stages_cleared@ =~= Seq::<u32>::empty(),
            c.current_stage is None,
    {
        proof {
            crate::progression::lemma_required_exp_at_one();
        }
        Character {
            name,
            lv: 1,
            hp: 50,
            max_hp: 50,
            stats: Stats { min_attack: 2, max_attack: 5, min_recovery: 1, max_recovery: 3 },
            exp: 0,
            stages_cleared: Vec::new(),
            current_stage: None,
        }
    }

    /// Whether the stage with this identifier has been cleared.
    pub fn has_cleared(&self, id: u32) -> (b: bool)
        ensures
            b == self.cleared_set().contains(id),
    {
        let mut i: usize = 0;
        while i < self.stages_cleared.len()
            invariant
                i <= self.stages_cleared@.len(),
                forall|j: int| 0 <= j < i ==> #[trigger] self.stages_cleared@[j] != id,
            decreases self.stages_cleared@.len() - i,
        {
            if self.stages_cleared[i] == id {
                assert(self.stages_cleared@.contains(id));
                return true;
            }
            i = i + 1;
        }
        proof {
            assert(!self.stages_cleared@.contains(id));
        }
        false
    }

    /// Whether every stage of the campaign has been cleared: with a
    /// well-formed record, a count of five is exactly the full set.
    pub fn campaign_complete(&self) -> (b: bool)
        requires
            self.cleared_wf(),
        ensures
            b == (self.cleared_set() =~= all_stage_ids()),
    {
        proof {
            lemma_cleared_full_iff_len_five(*self);
        }
        self.stages_cleared.len() == 5
    }

    /// Record a cleared stage; recording an already cleared stage changes
    /// nothing, so the record never holds duplicates.
    pub fn record_clear(&mut self, id: u32)
        requires
            old(self).cleared_wf(),
            FIRST_STAGE_ID <= id <= LAST_STAGE_ID,
        ensures
            final(self).cleared_set() =~= old(self).cleared_set().insert(id),
            final(self).cleared_wf(),
            old(self).cleared_set().contains(id) ==> final(self).stages_cleared == old(
                self,
            ).stages_cleared,
            final(self).name == old(self).name,
            final(self).lv == old(self).lv,
            final(self).hp == old(self).hp,
            final(self).max_hp == old(self).max_hp,
            final(self).stats == old(self).stats,
            final(self).exp == old(self).exp,
            final(self).current_stage == old(self).current_stage,
    {
        if !self.has_cleared(id) {
            let ghost before = self.stages_cleared@;
            self.stages_cleared.push(id);
            proof {
                lemma_to_set_push(before, id);
                assert(self.stages_cleared@.drop_last() =~= before);
            }
        } else {
            proof {
                assert(old(self).cleared_set().insert(id) =~= old(self).cleared_set());
            }
        }
    }
}

/// Appending to a sequence inserts into its set of elements.
pub proof fn lemma_to_set_push(s: Seq<u32>, v: u32)
    ensures
        s.push(v).to_set() =~= s.to_set().insert(v),
{
    assert forall|x: u32| s.push(v).to_set().contains(x) implies s.to_set().insert(v).contains(
        x,
    ) by {
        let i = choose|i: int| 0 <= i < s.push(v).len() && s.push(v)[i] == x;
        if i < s.len() {
            assert(s[i] == x);
        }
    }
    assert forall|x: u32| s.to_set().insert(v).contains(x) implies s.push(v).to_set().contains(
        x,
    ) by {
        if x == v {
            assert(s.push(v)[s.len() as int] == x);
        } else {
            let i = choose|i: int| 0 <= i < s.len() && s[i] == x;
            assert(s.push(v)[i] == x);
        }
    }
}

/// The cleared set of a well-formed record is full exactly when the record
/// holds five entries: five distinct identifiers drawn from 1..=5 must be
/// all of them, in whatever order they were recorded.
pub proof fn lemma_cleared_full_iff_len_five(c: Character)
    requires
        c.cleared_wf(),
    ensures
        c.stages_cleared@.len() == 5 <==> c.cleared_set() =~= all_stage_ids(),
{
    let s = c.stages_cleared@;
    s.unique_seq_to_set();
    assert(c.cleared_set().subset_of(all_stage_ids())) by {
        assert forall|x: u32| c.cleared_set().contains(x) implies all_stage_ids().contains(x) by {
            let i = choose|i: int| 0 <= i < s.len() && s[i] == x;
            assert(1 <= s[i] <= 5);
        }
    }
    assert(all_stage_ids().finite());
    assert(all_stage_ids().len() == 5) by {
        assert(all_stage_ids() =~= set![1u32].insert(2).insert(3).insert(4).insert(5));
    }
    if s.len() == 5 {
        vstd::set_lib::lemma_len_subset(c.cleared_set(), all_stage_ids());
        // equal cardinality inside a finite superset forces equality
        if !(c.cleared_set() =~= all_stage_ids()) {
            let missing = choose|x: u32| all_stage_ids().contains(x) && !c.cleared_set().contains(
                x,
            );
            assert(c.cleared_set().subset_of(all_stage_ids().remove(missing)));
            vstd::set_lib::lemma_len_subset(c.cleared_set(), all_stage_ids().remove(missing));
        }
    }
    if c.cleared_set() =~= all_stage_ids() {
        assert(s.len() == c.cleared_set().len());
    }
}

/// The identifiers of all five stages.
pub open spec fn all_stage_ids() -> Set<u32> {
    set![1u32, 2u32, 3u32, 4u32, 5u32]
}

} // verus!
