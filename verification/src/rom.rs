//! The per-challenge mixing-table (ROM) cache. The table itself is built
//! and owned by the unverified shell; the cache hands out one handle per
//! distinct seed, so every task and worker thread derived from challenges
//! with the same seed shares one table.

use vstd::prelude::*;

verus! {

/// A handle to one mixing table: an index into the shell's table arena.
#[derive(Debug, Clone, Copy, PartialEq, Eq, Structural)]
pub struct RomId {
    pub index: usize,
}

/// The parameters of the two-step ROM generator; they are constants of the
/// mining protocol and must match between miner and validator.
#[derive(Debug, Clone, Copy)]
pub struct RomParams {
    pub pre_size: usize,
    pub mixing_numbers: u32,
    pub final_size: usize,
}

/// The protocol's generator parameters: a 16 MiB pre-table, 4 mixing
/// numbers, a 1 GiB final table.
pub fn rom_params() -> (r: RomParams)
    ensures
        r.pre_size == 0x100_0000,
        r.mixing_numbers == 4,
        r.final_size == 0x4000_0000,
{
    RomParams { pre_size: 0x100_0000, mixing_numbers: 4, final_size: 0x4000_0000 }
}

/// The parameters of every digest call over a table; constants of the
/// mining protocol, like the generator parameters.
#[derive(Debug, Clone, Copy)]
pub struct HashParams {
    pub rounds: u32,
    pub digest_bits: u32,
}

/// The protocol's digest parameters: 8 rounds, a 256-bit (32-byte) digest.
pub fn hash_params() -> (r: HashParams)
    ensures
        r.rounds == 8,
        r.digest_bits == 256,
{
    HashParams { rounds: 8, digest_bits: 256 }
}

/// The seeds for which a table was already built, in build order; the
/// handle with index `i` stands for the table built from `seeds[i]`.
pub struct RomCache {
    pub seeds: Vec<String>,
}

/// No seed is built twice.
pub open spec fn cache_wf(c: RomCache) -> bool {
    forall|i: int, j: int|
        0 <= i < j < c.seeds@.len() ==> (#[trigger] c.seeds@[i])@ != (#[trigger] c.seeds@[j])@
}

/// Whether a table for `seed` was already built.
pub open spec fn cache_has(c: RomCache, seed: Seq<char>) -> bool {
    exists|i: int| 0 <= i < c.seeds@.len() && (#[trigger] c.seeds@[i])@ == seed
}

impl RomCache {
    /// An empty cache: nothing built yet.
    pub fn new() -> (r: RomCache)
        ensures
            cache_wf(r),
            r.seeds@.len() == 0,
    {
        RomCache { seeds: Vec::new() }
    }

    /// The handle for `seed`, and whether the shell must build a fresh
    /// table for it: true exactly on the first occurrence of a seed.
    pub fn rom_for_seed(&mut self, seed: &String) -> (r: (RomId, bool))
        requires
            cache_wf(*old(self)),
        ensures
            cache_wf(*final(self)),
            r.0.index < final(self).seeds@.len(),
            final(self).seeds@[r.0.index as int]@ == seed@,
            r.1 == !cache_has(*old(self), seed@),
            !r.1 ==> *final(self) == *old(self),
            r.1 ==> final(self).seeds@.len() == old(self).seeds@.len() + 1
                && r.0.index == old(self).seeds@.len()
                && (forall|i: int|
                    0 <= i < old(self).seeds@.len()
                        ==> final(self).seeds@[i] == old(self).seeds@[i]),
    {
        let n = self.seeds.len();
        let mut k: usize = 0;
        while k < n
            invariant
                0 <= k <= n,
                n == self.seeds@.len(),
                *self == *old(self),
                cache_wf(*self),
                forall|i: int| 0 <= i < k ==> (#[trigger] self.seeds@[i])@ != seed@,
            decreases n - k,
        {
            if self.seeds[k] == *seed {
                return (RomId { index: k }, false);
            }
            k += 1;
        }
        self.seeds.push(seed.clone());
        (RomId { index: n }, true)
    }
}

/// Handles do not alias across seeds: under the cache invariant, two
/// positions holding the same seed are one position, so all tasks of one
/// seed share one table and tables of distinct seeds are distinct.
pub proof fn lemma_rom_handle_unique(c: RomCache, i: int, j: int)
    requires
        cache_wf(c),
        0 <= i < c.seeds@.len(),
        0 <= j < c.seeds@.len(),
        c.seeds@[i]@ == c.seeds@[j]@,
    ensures
        i == j,
{
}

} // verus!
