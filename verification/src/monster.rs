use vstd::prelude::*;

verus! {

/// An immutable monster template from the catalog; a battle works on a
/// private copy of its vitality and never changes the template.
pub struct Monster {
    pub name: String,
    pub hp: u32,
    pub max_hp: u32,
    pub min_attack: u32,
    pub max_attack: u32,
    pub exp: u32,
    pub stage: u32,
    pub boss: bool,
}

impl Monster {
    pub open spec fn wf(&self) -> bool {
        &&& self.hp <= self.max_hp
        &&& self.min_attack <= self.max_attack
    }

    /// An exact copy of the template.
    pub fn duplicate(&self) -> (m: Monster)
        ensures
            m == *self,
    {
        Monster {
            name: self.name.clone(),
            hp: self.hp,
            max_hp: self.max_hp,
            min_attack: self.min_attack,
            max_attack: self.max_attack,
            exp: self.exp,
            stage: self.stage,
            boss: self.boss,
        }
    }
}

} // verus!
