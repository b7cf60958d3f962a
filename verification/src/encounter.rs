use vstd::prelude::*;
use crate::monster::Monster;
use crate::rng::RandomSource;

verus! {

/// `name` repeated `k` times.
pub open spec fn repeat_one(name: Seq<char>, k: nat) -> Seq<Seq<char>>
    decreases k,
{
    if k == 0 {
        Seq::empty()
    } else {
        seq![name] + repeat_one(name, (k - 1) as nat)
    }
}

pub proof fn lemma_repeat_one_all(name: Seq<char>, k: nat)
    ensures
        repeat_one(name, k).len() == k,
        forall|i: int| 0 <= i < k ==> repeat_one(name, k)[i] == name,
    decreases k,
{
    if k > 0 {
        lemma_repeat_one_all(name, (k - 1) as nat);
    }
}

/// The fixed rarity table, flattened: each common name five times, each
/// mid-tier name three times, each scarce name twice, the one rare name once.
pub open spec fn pool_spec() -> Seq<Seq<char>> {
    repeat_one("goblin"@, 5) + repeat_one("wolf"@, 5) + repeat_one("slime"@, 5) + repeat_one(
        "bat"@,
        5,
    ) + repeat_one("zombie"@, 5) + repeat_one("skeleton"@, 3) + repeat_one("orc"@, 3) + repeat_one(
        "harpy"@,
        3,
    ) + repeat_one("minotaur"@, 2) + repeat_one("troll"@, 2) + repeat_one("dragon"@, 1)
}

pub proof fn lemma_pool_spec_len()
    ensures
        pool_spec().len() == 39,
{
    lemma_repeat_one_all("goblin"@, 5);
    lemma_repeat_one_all("wolf"@, 5);
    lemma_repeat_one_all("slime"@, 5);
    lemma_repeat_one_all("bat"@, 5);
    lemma_repeat_one_all("zombie"@, 5);
    lemma_repeat_one_all("skeleton"@, 3);
    lemma_repeat_one_all("orc"@, 3);
    lemma_repeat_one_all("harpy"@, 3);
    lemma_repeat_one_all("minotaur"@, 2);
    lemma_repeat_one_all("troll"@, 2);
    lemma_repeat_one_all("dragon"@, 1);
}

/// The views of a list of names.
pub open spec fn views_of(v: Seq<String>) -> Seq<Seq<char>> {
    v.map_values(|s: String| s@)
}

proof fn lemma_views_push(v: Seq<String>, x: String)
    ensures
        views_of(v.push(x)) =~= views_of(v).push(x@),
{
}

/// Append `name` to the pool `k` times.
fn push_repeat(pool: &mut Vec<String>, name: &str, k: usize)
    ensures
        views_of(final(pool)@) =~= views_of(old(pool)@) + repeat_one(name@, k as nat),
{
    let mut i: usize = 0;
    while i < k
        invariant
            i <= k,
            views_of(pool@) =~= views_of(old(pool)@) + repeat_one(name@, i as nat),
        decreases k - i,
    {
        let ghost before = pool@;
        pool.push(name.to_owned());
        proof {
            lemma_views_push(before, pool@.last());
            lemma_repeat_one_all(name@, i as nat);
            lemma_repeat_one_all(name@, (i + 1) as nat);
            assert(views_of(pool@) =~= views_of(old(pool)@) + repeat_one(name@, (i + 1) as nat));
        }
        i = i + 1;
    }
}

/// Build the flattened encounter pool of the rarity table.
pub fn encounter_pool() -> (pool: Vec<String>)
    ensures
        views_of(pool@) =~= pool_spec(),
        pool@.len() == 39,
{
    let mut pool: Vec<String> = Vec::new();
    push_repeat(&mut pool, "goblin", 5);
    push_repeat(&mut pool, "wolf", 5);
    push_repeat(&mut pool, "slime", 5);
    push_repeat(&mut pool, "bat", 5);
    push_repeat(&mut pool, "zombie", 5);
    push_repeat(&mut pool, "skeleton", 3);
    push_repeat(&mut pool, "orc", 3);
    push_repeat(&mut pool, "harpy", 3);
    push_repeat(&mut pool, "minotaur", 2);
    push_repeat(&mut pool, "troll", 2);
    push_repeat(&mut pool, "dragon", 1);
    proof {
        lemma_pool_spec_len();
        assert(views_of(pool@) =~= pool_spec());
    }
    pool
}

/// `j` indexes the first catalog entry with this name.
pub open spec fn first_match(ms: Seq<Monster>, name: Seq<char>, j: int) -> bool {
    &&& 0 <= j < ms.len()
    &&& ms[j].name@ == name
    &&& forall|k: int| 0 <= k < j ==> (#[trigger] ms[k]).name@ != name
}

/// Resolve a name against the catalog: the first entry that carries it.
pub fn find_monster_by_name(monsters: &Vec<Monster>, name: &String) -> (r: Option<Monster>)
    ensures
        match r {
            Some(m) => exists|j: int| #[trigger] first_match(monsters@, name@, j) && m
                == monsters@[j],
            None => forall|j: int| 0 <= j < monsters@.len() ==> (#[trigger] monsters@[j]).name@
                != name@,
        },
{
    let mut i: usize = 0;
    while i < monsters.len()
        invariant
            i <= monsters@.len(),
            forall|k: int| 0 <= k < i ==> (#[trigger] monsters@[k]).name@ != name@,
        decreases monsters@.len() - i,
    {
        if monsters[i].name == *name {
            let m = monsters[i].duplicate();
            proof {
                assert(first_match(monsters@, name@, i as int));
            }
            return Some(m);
        }
        i = i + 1;
    }
    None
}

/// A monster drawn by the rarity-table policy: a catalog entry, matched as
/// the first carrier of a name that stands in the flattened pool.
pub open spec fn chosen_from(ms: Seq<Monster>, m: Monster) -> bool {
    &&& pool_spec().contains(m.name@)
    &&& exists|j: int| #[trigger] first_match(ms, m.name@, j) && m == ms[j]
}

/// The catalog carries every name of the rarity table.
pub open spec fn catalog_covers_pool(ms: Seq<Monster>) -> bool {
    forall|n: Seq<char>|
        #[trigger] pool_spec().contains(n) ==> exists|j: int|
            0 <= j < ms.len() && (#[trigger] ms[j]).name@ == n
}

/// Draw ten names uniformly from the flattened rarity pool, resolving each
/// against the catalog; a name the catalog lacks spends its draw and yields
/// nothing, so the list may be shorter than ten.
pub fn choose_monsters<R: RandomSource>(monsters: &Vec<Monster>, rng: &mut R) -> (sel: Vec<Monster>)
    ensures
        sel@.len() <= 10,
        forall|i: int| 0 <= i < sel@.len() ==> chosen_from(monsters@, #[trigger] sel@[i]),
        catalog_covers_pool(monsters@) ==> sel@.len() == 10,
{
    let pool = encounter_pool();
    let mut sel: Vec<Monster> = Vec::new();
    let mut t: usize = 0;
    while t < 10
        invariant
            t <= 10,
            sel@.len() <= t,
            views_of(pool@) =~= pool_spec(),
            pool@.len() == 39,
            forall|i: int| 0 <= i < sel@.len() ==> chosen_from(monsters@, #[trigger] sel@[i]),
            catalog_covers_pool(monsters@) ==> sel@.len() == t,
        decreases 10 - t,
    {
        let idx = rng.pick(pool.len());
        proof {
            assert(views_of(pool@)[idx as int] == pool@[idx as int]@);
            assert(pool_spec().contains(pool@[idx as int]@));
        }
        match find_monster_by_name(monsters, &pool[idx]) {
            Some(m) => {
                sel.push(m);
            },
            None => {
                proof {
                    assert(!catalog_covers_pool(monsters@));
                }
            },
        }
        t = t + 1;
    }
    sel
}

/// An ordinary (non-boss) monster of the given stage.
pub open spec fn stage_monster(m: Monster, stage_id: u32) -> bool {
    m.stage == stage_id && !m.boss
}

/// The boss of the given stage.
pub open spec fn boss_monster(m: Monster, stage_id: u32) -> bool {
    m.stage == stage_id && m.boss
}

/// The catalog filtered to the ordinary monsters of one stage.
pub open spec fn stage_pool_spec(ms: Seq<Monster>, stage_id: u32) -> Seq<Monster> {
    ms.filter(|mm: Monster| stage_monster(mm, stage_id))
}

proof fn lemma_stage_pool_snoc(s: Seq<Monster>, m: Monster, stage_id: u32)
    ensures
        stage_monster(m, stage_id) ==> stage_pool_spec(s.push(m), stage_id) == stage_pool_spec(
            s,
            stage_id,
        ).push(m),
        !stage_monster(m, stage_id) ==> stage_pool_spec(s.push(m), stage_id) == stage_pool_spec(
            s,
            stage_id,
        ),
{
    reveal(Seq::filter);
    assert(s.push(m).drop_last() =~= s);
    assert(s.push(m).last() == m);
}

/// A catalog entry that fits the stage keeps the filtered pool non-empty.
proof fn lemma_stage_pool_complete(ms: Seq<Monster>, stage_id: u32, j: int)
    requires
        0 <= j < ms.len(),
        stage_monster(ms[j], stage_id),
    ensures
        0 < stage_pool_spec(ms, stage_id).len(),
    decreases ms.len(),
{
    reveal(Seq::filter);
    if j == ms.len() - 1 {
        assert(ms.last() == ms[j]);
    } else {
        lemma_stage_pool_complete(ms.drop_last(), stage_id, j);
        assert(ms.drop_last()[j] == ms[j]);
    }
}

/// Filter the catalog to the ordinary monsters of one stage.
pub fn stage_pool(monsters: &Vec<Monster>, stage_id: u32) -> (pool: Vec<Monster>)
    ensures
        pool@ == stage_pool_spec(monsters@, stage_id),
        forall|i: int| 0 <= i < pool@.len() ==> stage_monster(#[trigger] pool@[i], stage_id),
        forall|i: int| 0 <= i < pool@.len() ==> monsters@.contains(#[trigger] pool@[i]),
{
    let mut pool: Vec<Monster> = Vec::new();
    let mut k: usize = 0;
    proof {
        reveal(Seq::filter);
        assert(monsters@.subrange(0, 0) =~= Seq::<Monster>::empty());
        assert(pool@ == stage_pool_spec(monsters@.subrange(0, 0), stage_id));
    }
    while k < monsters.len()
        invariant
            k <= monsters@.len(),
            pool@ == stage_pool_spec(monsters@.subrange(0, k as int), stage_id),
            forall|i: int| 0 <= i < pool@.len() ==> stage_monster(#[trigger] pool@[i], stage_id),
            forall|i: int| 0 <= i < pool@.len() ==> monsters@.contains(#[trigger] pool@[i]),
        decreases monsters@.len() - k,
    {
        let ghost prefix = monsters@.subrange(0, k as int);
        proof {
            assert(monsters@.subrange(0, k as int + 1) =~= prefix.push(monsters@[k as int]));
            lemma_stage_pool_snoc(prefix, monsters@[k as int], stage_id);
        }
        if monsters[k].stage == stage_id && !monsters[k].boss {
            pool.push(monsters[k].duplicate());
        }
        k = k + 1;
    }
    proof {
        assert(monsters@.subrange(0, monsters@.len() as int) =~= monsters@);
    }
    pool
}

/// Draw `count` monsters uniformly, with replacement, from the stage's
/// filtered pool. An empty pool tolerated: the list comes back empty.
pub fn choose_stage_monsters<R: RandomSource>(
    monsters: &Vec<Monster>,
    stage_id: u32,
    count: usize,
    rng: &mut R,
) -> (sel: Vec<Monster>)
    ensures
        sel@.len() == count || sel@.len() == 0,
        (exists|j: int|
            0 <= j < monsters@.len() && stage_monster(#[trigger] monsters@[j], stage_id))
            ==> sel@.len() == count,
        forall|i: int| 0 <= i < sel@.len() ==> stage_monster(#[trigger] sel@[i], stage_id),
        forall|i: int| 0 <= i < sel@.len() ==> monsters@.contains(#[trigger] sel@[i]),
{
    let pool = stage_pool(monsters, stage_id);
    let mut sel: Vec<Monster> = Vec::new();
    if pool.len() == 0 {
        proof {
            assert forall|j: int|
                0 <= j < monsters@.len() implies !stage_monster(
                #[trigger] monsters@[j],
                stage_id,
            ) by {
                if stage_monster(monsters@[j], stage_id) {
                    lemma_stage_pool_complete(monsters@, stage_id, j);
                }
            }
        }
        return sel;
    }
    let mut t: usize = 0;
    while t < count
        invariant
            t <= count,
            sel@.len() == t,
            0 < pool@.len(),
            forall|i: int| 0 <= i < pool@.len() ==> stage_monster(#[trigger] pool@[i], stage_id),
            forall|i: int| 0 <= i < pool@.len() ==> monsters@.contains(#[trigger] pool@[i]),
            forall|i: int| 0 <= i < sel@.len() ==> stage_monster(#[trigger] sel@[i], stage_id),
            forall|i: int| 0 <= i < sel@.len() ==> monsters@.contains(#[trigger] sel@[i]),
        decreases count - t,
    {
        let idx = rng.pick(pool.len());
        sel.push(pool[idx].duplicate());
        t = t + 1;
    }
    sel
}

/// Find the stage's boss in the catalog; its absence is reported, not hidden.
pub fn find_boss(monsters: &Vec<Monster>, stage_id: u32) -> (r: Option<Monster>)
    ensures
        match r {
            Some(b) => exists|j: int|
                0 <= j < monsters@.len() && boss_monster(#[trigger] monsters@[j], stage_id) && b
                    == monsters@[j],
            None => forall|j: int|
                0 <= j < monsters@.len() ==> !boss_monster(#[trigger] monsters@[j], stage_id),
        },
{
    let mut i: usize = 0;
    while i < monsters.len()
        invariant
            i <= monsters@.len(),
            forall|k: int| 0 <= k < i ==> !boss_monster(#[trigger] monsters@[k], stage_id),
        decreases monsters@.len() - i,
    {
        if monsters[i].stage == stage_id && monsters[i].boss {
            return Some(monsters[i].duplicate());
        }
        i = i + 1;
    }
    None
}

} // verus!
