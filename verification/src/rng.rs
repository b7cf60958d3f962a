use vstd::prelude::*;

verus! {

/// Source of the random draws that battles, stat growth and encounter
/// selection consume. Injected so that a run can use real entropy while a
/// test replays a fixed sequence.
pub trait RandomSource {
    /// A draw from the inclusive range `[lo, hi]`.
    fn range(&mut self, lo: u32, hi: u32) -> (r: u32)
        requires
            lo <= hi,
        ensures
            lo <= r <= hi,
    ;

    /// An even chance, used to pick between attacking and recovering.
    fn coin(&mut self) -> (b: bool);

    /// An index below `n`.
    fn pick(&mut self, n: usize) -> (i: usize)
        requires
            1 <= n,
        ensures
            i < n,
    ;
}

/// Relies on rand::thread_rng and rand::Rng::gen_range: a sample from the
/// inclusive range `lo..=hi` lies in `[lo, hi]`, and the call panics only on
/// an empty range, which the precondition rules out.
#[verifier::external_body]
fn thread_range_u32(lo: u32, hi: u32) -> (r: u32)
    requires
        lo <= hi,
    ensures
        lo <= r <= hi,
{
    rand::Rng::gen_range(&mut rand::thread_rng(), lo..=hi)
}

/// Relies on rand::thread_rng and rand::Rng::gen_range: a sample from
/// `0..n` lies below `n`, and the call panics only on an empty range, which
/// the precondition rules out.
#[verifier::external_body]
fn thread_range_index(n: usize) -> (i: usize)
    requires
        1 <= n,
    ensures
        i < n,
{
    rand::Rng::gen_range(&mut rand::thread_rng(), 0..n)
}

/// The process-wide entropy source, for real runs.
pub struct ThreadRandom {}

impl ThreadRandom {
    pub fn new() -> (t: ThreadRandom) {
        ThreadRandom {  }
    }
}

impl RandomSource for ThreadRandom {
    fn range(&mut self, lo: u32, hi: u32) -> (r: u32) {
        thread_range_u32(lo, hi)
    }

    fn coin(&mut self) -> (b: bool) {
        thread_range_u32(0, 1) == 0
    }

    fn pick(&mut self, n: usize) -> (i: usize) {
        thread_range_index(n)
    }
}

pub const SEEDED_MUL: u64 = 6364136223846793005;
pub const SEEDED_INC: u64 = 1442695040888963407;

/// A small linear-congruential source: reproducible runs from a seed.
pub struct SeededRandom {
    pub state: u64,
}

impl SeededRandom {
    pub fn new(seed: u64) -> (s: SeededRandom)
        ensures
            s.state == seed,
    {
        SeededRandom { state: seed }
    }

    fn next_u32(&mut self) -> (x: u32) {
        self.state = self.state.wrapping_mul(SEEDED_MUL).wrapping_add(SEEDED_INC);
        (self.state % 0x1_0000_0000) as u32
    }
}

impl RandomSource for SeededRandom {
    fn range(&mut self, lo: u32, hi: u32) -> (r: u32) {
        let x = self.next_u32();
        if lo == 0 && hi == u32::MAX {
            x
        } else {
            let span = hi - lo + 1;
            lo + x % span
        }
    }

    fn coin(&mut self) -> (b: bool) {
        let x = self.next_u32();
        x % 2 == 0
    }

    fn pick(&mut self, n: usize) -> (i: usize) {
        let x = self.next_u32();
        (x as usize) % n
    }
}

/// A source that replays a fixed script of values; each draw is clamped
/// into the range it is asked for, and a drained script repeats the low end.
pub struct ScriptedRandom {
    pub values: Vec<u32>,
    pub pos: usize,
}

impl ScriptedRandom {
    pub fn new(values: Vec<u32>) -> (s: ScriptedRandom)
        ensures
            s.values@ == values@,
            s.pos == 0,
    {
        ScriptedRandom { values, pos: 0 }
    }

    fn next_or(&mut self, fallback: u32) -> (x: u32) {
        if self.pos < self.values.len() {
            let v = self.values[self.pos];
            self.pos = self.pos + 1;
            v
        } else {
            fallback
        }
    }
}

impl RandomSource for ScriptedRandom {
    fn range(&mut self, lo: u32, hi: u32) -> (r: u32) {
        let v = self.next_or(lo);
        if v < lo {
            lo
        } else if v > hi {
            hi
        } else {
            v
        }
    }

    fn coin(&mut self) -> (b: bool) {
        let v = self.next_or(0);
        v != 0
    }

    fn pick(&mut self, n: usize) -> (i: usize) {
        let v = self.next_or(0);
        (v as usize) % n
    }
}

} // verus!
