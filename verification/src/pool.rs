//! The population: a fixed-size collection of candidates plus their shared
//! target, advanced one generation at a time by evaluate, truncate-select,
//! weighted-sample, crossover, mutate and wholesale replacement.

use vstd::prelude::*;
use vstd::seq_lib::group_to_multiset_ensures;
use crate::gene::{Gene, all_printable, circ_total, is_crossover_of, is_mutation_of};
use crate::rng::{make_weighted, random_usize_in, sample_weighted, weighted_count};

verus! {

/// A transient pairing of a candidate with its score, used only while
/// ranking a generation.
struct Mate {
    gene: Gene,
    total_difference: usize,
}

/// A ranked mate carries a valid candidate of the target's length whose
/// score is exactly its total circular distance to the target.
spec fn mate_ok(m: Mate, target: Gene) -> bool {
    &&& m.gene.wf()
    &&& m.gene@.len() == target@.len()
    &&& m.total_difference == circ_total(m.gene@, target@)
    &&& m.total_difference <= 47 * target@.len()
}

/// `m` is one of the mates of `pool`.
spec fn from_mates(m: Mate, pool: Seq<Mate>) -> bool {
    exists|j: int| 0 <= j < pool.len() && m == pool[j]
}

/// Ascending by total difference, i.e. descending by fitness.
spec fn mates_sorted(s: Seq<Mate>) -> bool {
    forall|i: int, j: int|
        0 <= i <= j < s.len() ==> (#[trigger] s[i]).total_difference
            <= (#[trigger] s[j]).total_difference
}

/// The data of each mate's candidate, in order.
spec fn mate_datas(s: Seq<Mate>) -> Seq<Seq<u8>> {
    s.map_values(|m: Mate| m.gene@)
}

/// The data of each candidate, in order.
pub open spec fn datas(s: Seq<Gene>) -> Seq<Seq<u8>> {
    s.map_values(|g: Gene| g@)
}

/// `d` is the data of one entry of `pool`.
pub open spec fn data_in(d: Seq<u8>, pool: Seq<Seq<u8>>) -> bool {
    exists|j: int| 0 <= j < pool.len() && d == #[trigger] pool[j]
}

/// `ranking` rearranges the candidates of `members` ascending by total
/// circular distance to `target` (descending by fitness; ties in any
/// order): the same data as a multiset, sorted.
pub open spec fn is_ranking(ranking: Seq<Seq<u8>>, members: Seq<Gene>, target: Seq<u8>) -> bool {
    &&& ranking.to_multiset() == datas(members).to_multiset()
    &&& forall|i: int, j: int|
        0 <= i <= j < ranking.len() ==> circ_total(#[trigger] ranking[i], target) <= circ_total(
            #[trigger] ranking[j],
            target,
        )
}

/// `child` descends from the breeding pool: it is a point mutation of a
/// single-point crossover of the data of two of its entries (the same entry
/// may be drawn twice).
pub open spec fn child_of(child: Seq<u8>, breeding: Seq<Seq<u8>>) -> bool {
    exists|a: Seq<u8>, b: Seq<u8>, mid: Seq<u8>|
        data_in(a, breeding) && data_in(b, breeding) && #[trigger] is_crossover_of(mid, a, b)
            && is_mutation_of(child, mid)
}

pub struct Pool {
    genes: Vec<Gene>,
    target: Gene,
}

impl Pool {
    /// The evolving candidates.
    pub closed spec fn members(&self) -> Seq<Gene> {
        self.genes@
    }

    /// The candidate every fitness evaluation scores against.
    pub closed spec fn target_gene(&self) -> Gene {
        self.target
    }

    /// The invariant construction establishes and every generation step
    /// keeps: the target is valid, every member is valid and of the target's
    /// length, and both are small enough for the scoring and sampling
    /// arithmetic of the machine.
    pub open spec fn wf(&self) -> bool {
        &&& self.target_gene().wf()
        &&& 47 * self.target_gene()@.len() <= usize::MAX
        &&& 10 * self.members().len() <= u32::MAX
        &&& forall|i: int| 0 <= i < self.members().len() ==> (#[trigger] self.members()[i]).wf()
        &&& forall|i: int|
            0 <= i < self.members().len() ==> (#[trigger] self.members()[i])@.len()
                == self.target_gene()@.len()
    }

    /// A population of exactly `pool_size` uniformly random printable
    /// candidates of the target's length.
    pub fn new(target: Gene, pool_size: usize) -> (r: Pool)
        requires
            target.wf(),
            47 * target@.len() <= usize::MAX,
            10 * pool_size <= u32::MAX,
        ensures
            r.wf(),
            r.members().len() == pool_size,
            r.target_gene() == target,
    {
        let tlen = target.len();
        let mut genes: Vec<Gene> = Vec::new();
        let mut i: usize = 0;
        while i < pool_size
            invariant
                i <= pool_size,
                genes@.len() == i,
                forall|j: int| 0 <= j < i ==> (#[trigger] genes@[j]).wf(),
                forall|j: int| 0 <= j < i ==> (#[trigger] genes@[j])@.len() == target@.len(),
                tlen == target@.len(),
            decreases pool_size - i,
        {
            genes.push(random_gene(tlen));
            i += 1;
        }
        Pool { genes, target }
    }

    /// How many candidates the population holds.
    pub fn size(&self) -> (r: usize)
        ensures
            r == self.members().len(),
    {
        self.genes.len()
    }

    /// An owned copy of the member at `i`.
    pub fn member_at(&self, i: usize) -> (r: Gene)
        requires
            i < self.members().len(),
        ensures
            r@ == self.members()[i as int]@,
    {
        self.genes[i].duplicate()
    }

    /// The member closest to the target, freshly re-scored; ties fall to
    /// whichever the scan meets first.
    pub fn get_best(&self) -> (r: Gene)
        requires
            self.wf(),
            self.members().len() > 0,
        ensures
            r.wf(),
            exists|i: int| 0 <= i < self.members().len() && r@ == (#[trigger] self.members()[i])@,
            forall|j: int|
                0 <= j < self.members().len() ==> circ_total(r@, self.target_gene()@)
                    <= circ_total((#[trigger] self.members()[j])@, self.target_gene()@),
    {
        let mut best_idx: usize = 0;
        let mut best_diff: usize =
            self.genes[0].calc_fitness(&self.target).unwrap().total_difference;
        let mut k: usize = 1;
        while k < self.genes.len()
            invariant
                self.wf(),
                self.members().len() > 0,
                k <= self.members().len(),
                best_idx < self.members().len(),
                best_diff == circ_total(self.members()[best_idx as int]@, self.target_gene()@),
                forall|j: int|
                    0 <= j < k ==> best_diff <= circ_total(
                        (#[trigger] self.members()[j])@,
                        self.target_gene()@,
                    ),
            decreases self.members().len() - k,
        {
            let f = self.genes[k].calc_fitness(&self.target).unwrap();
            if f.total_difference < best_diff {
                best_idx = k;
                best_diff = f.total_difference;
            }
            k += 1;
        }
        self.genes[best_idx].duplicate()
    }

    /// One generation step: score every member, keep the best tenth, draw
    /// parent pairs from it in proportion to their clamped scores, cross
    /// them over, mutate each child at a 10% per-byte rate, and replace the
    /// members with the children. The population size never changes, and
    /// every new member descends from the breeding pool: it is a mutated
    /// single-point crossover of two candidates among the best tenth of the
    /// old members ranked by fitness.
    pub fn natural_selection(&mut self)
        requires
            old(self).wf(),
            old(self).members().len() >= 10,
            old(self).target_gene()@.len() >= 2,
        ensures
            final(self).wf(),
            final(self).members().len() == old(self).members().len(),
            final(self).target_gene() == old(self).target_gene(),
            exists|ranking: Seq<Seq<u8>>|
                #[trigger] is_ranking(ranking, old(self).members(), old(self).target_gene()@)
                    && forall|i: int|
                    0 <= i < final(self).members().len() ==> child_of(
                        (#[trigger] final(self).members()[i])@,
                        ranking.take(old(self).members().len() as int / 10),
                    ),
    {
        let pop_size = self.genes.len();
        let tlen = self.target.len();

        // Evaluate every member against the target.
        let mut mating_pool: Vec<Mate> = Vec::new();
        let mut i: usize = 0;
        while i < pop_size
            invariant
                self.wf(),
                pop_size == self.members().len(),
                tlen == self.target_gene()@.len(),
                i <= pop_size,
                mating_pool@.len() == i,
                forall|j: int|
                    0 <= j < i ==> mate_ok(#[trigger] mating_pool@[j], self.target_gene()),
                forall|j: int|
                    0 <= j < i ==> (#[trigger] mating_pool@[j]).gene@ == self.members()[j]@,
            decreases pop_size - i,
        {
            let f = self.genes[i].calc_fitness(&self.target).unwrap();
            mating_pool.push(
                Mate { gene: self.genes[i].duplicate(), total_difference: f.total_difference },
            );
            i += 1;
        }

        // Rank by fitness (ascending distance) and keep the top tenth.
        let ghost evaluated = mating_pool@;
        let mut ranked = sort_mates(mating_pool);
        let ghost ranking = mate_datas(ranked@);
        let keep = pop_size / 10;
        proof {
            vstd::arithmetic::div_mod::lemma_fundamental_div_mod(pop_size as int, 10);
            vstd::arithmetic::div_mod::lemma_mod_bound(pop_size as int, 10);
            assert forall|k: int| 0 <= k < ranked@.len() implies mate_ok(
                #[trigger] ranked@[k],
                self.target_gene(),
            ) by {
                assert(from_mates(ranked@[k], evaluated));
                let j = choose|j: int| 0 <= j < evaluated.len() && ranked@[k] == evaluated[j];
                assert(mate_ok(evaluated[j], self.target_gene()));
            }
            assert(mate_datas(evaluated) =~= datas(self.members()));
            assert(is_ranking(ranking, self.members(), self.target_gene()@));
        }
        ranked.truncate(keep);
        let ghost breeding = ranking.take(keep as int);
        proof {
            assert forall|k: int| 0 <= k < ranked@.len() implies mate_ok(
                #[trigger] ranked@[k],
                self.target_gene(),
            ) && ranked@[k].gene@ == breeding[k] by {
                assert(from_mates(ranked@[k], evaluated));
                let j = choose|j: int| 0 <= j < evaluated.len() && ranked@[k] == evaluated[j];
                assert(mate_ok(evaluated[j], self.target_gene()));
            }
        }

        // Sampling weights: fitness in hundredths, clamped to [1, 100].
        let denom: usize = 47 * tlen;
        let mut weights: Vec<u32> = Vec::new();
        let mut k: usize = 0;
        while k < ranked.len()
            invariant
                k <= ranked@.len(),
                weights@.len() == k,
                tlen == self.target_gene()@.len(),
                tlen >= 2,
                denom == 47 * tlen,
                denom <= usize::MAX,
                forall|j: int|
                    0 <= j < ranked@.len() ==> mate_ok(#[trigger] ranked@[j], self.target_gene()),
                forall|j: int| 0 <= j < k ==> 1 <= #[trigger] weights@[j] <= 100,
            decreases ranked@.len() - k,
        {
            let w = weight_exec(ranked[k].total_difference, denom);
            weights.push(w);
            k += 1;
        }

        let table = make_weighted(&weights);

        // Reproduce: sample two parents per child, cross over, mutate.
        let mut children: Vec<Gene> = Vec::new();
        let mut c: usize = 0;
        while c < pop_size
            invariant
                c <= pop_size,
                children@.len() == c,
                tlen == self.target_gene()@.len(),
                tlen >= 2,
                ranked@.len() >= 1,
                ranked@.len() == breeding.len(),
                weighted_count(table) == ranked@.len(),
                forall|j: int|
                    0 <= j < ranked@.len() ==> mate_ok(#[trigger] ranked@[j], self.target_gene()),
                forall|j: int| 0 <= j < ranked@.len() ==> (#[trigger] ranked@[j]).gene@ == breeding[j],
                forall|j: int| 0 <= j < c ==> (#[trigger] children@[j]).wf(),
                forall|j: int|
                    0 <= j < c ==> (#[trigger] children@[j])@.len() == self.target_gene()@.len(),
                forall|j: int| 0 <= j < c ==> child_of((#[trigger] children@[j])@, breeding),
            decreases pop_size - c,
        {
            let p1 = sample_weighted(&table);
            let p2 = sample_weighted(&table);
            let mut child = ranked[p1].gene.crossover(&ranked[p2].gene).unwrap();
            let ghost father = ranked@[p1 as int].gene@;
            let ghost mother = ranked@[p2 as int].gene@;
            let ghost mid = child@;
            child.mutate(100);
            children.push(child);
            proof {
                assert(breeding[p1 as int] == father);
                assert(breeding[p2 as int] == mother);
                assert(data_in(father, breeding) && data_in(mother, breeding));
                assert(is_crossover_of(mid, father, mother));
                assert(is_mutation_of(child@, mid));
                assert(child_of(child@, breeding));
            }
            c += 1;
        }

        self.genes = children;
        proof {
            assert(is_ranking(ranking, old(self).members(), old(self).target_gene()@));
            assert(breeding =~= ranking.take(old(self).members().len() as int / 10));
            assert forall|i: int| 0 <= i < self.members().len() implies child_of(
                (#[trigger] self.members()[i])@,
                ranking.take(old(self).members().len() as int / 10),
            ) by {
                assert(child_of(self.members()[i]@, breeding));
            }
        }
    }
}

/// A fresh candidate of `len` uniformly random printable bytes.
fn random_gene(len: usize) -> (g: Gene)
    ensures
        g.wf(),
        g@.len() == len,
{
    let mut dna: Vec<u8> = Vec::new();
    let mut i: usize = 0;
    while i < len
        invariant
            i <= len,
            dna@.len() == i,
            all_printable(dna@),
        decreases len - i,
    {
        let b = random_usize_in(0x20, 0x7F);
        dna.push(b as u8);
        i += 1;
    }
    Gene::from_bytes(dna)
}

/// The reference weighting rule as exact integer arithmetic: the fitness
/// `1 - diff / denom` scaled to hundredths, rounded to the nearest (halves
/// up), then clamped to [1, 100] so every retained candidate keeps a
/// strictly positive sampling weight.
pub open spec fn weight_of(diff: int, denom: int) -> int
    recommends
        0 < denom,
        0 <= diff <= denom,
{
    let rounded = (200 * (denom - diff) + denom) / (2 * denom);
    if rounded < 1 {
        1
    } else if rounded > 100 {
        100
    } else {
        rounded
    }
}

fn weight_exec(diff: usize, denom: usize) -> (w: u32)
    requires
        0 < denom,
        diff <= denom,
    ensures
        1 <= w <= 100,
        w == weight_of(diff as int, denom as int),
{
    let num: u128 = 200u128 * ((denom - diff) as u128) + (denom as u128);
    let den: u128 = 2u128 * (denom as u128);
    let q = num / den;
    if q < 1 {
        1
    } else if q > 100 {
        100
    } else {
        q as u32
    }
}

/// Sorts mates ascending by total difference: a permutation of the given
/// mates' data (every element is one of the given mates), in sorted order.
fn sort_mates(src: Vec<Mate>) -> (r: Vec<Mate>)
    ensures
        r@.len() == src@.len(),
        mates_sorted(r@),
        forall|i: int| 0 <= i < r@.len() ==> from_mates(#[trigger] r@[i], src@),
        mate_datas(r@).to_multiset() == mate_datas(src@).to_multiset(),
{
    let ghost orig = src@;
    let mut rest = src;
    let mut dst: Vec<Mate> = Vec::new();
    proof {
        broadcast use group_to_multiset_ensures;

        assert(mate_datas(dst@).to_multiset().add(mate_datas(rest@).to_multiset()) =~= mate_datas(
            orig,
        ).to_multiset());
    }
    while rest.len() > 0
        invariant
            rest@.len() + dst@.len() == orig.len(),
            mates_sorted(dst@),
            forall|a: int| 0 <= a < dst@.len() ==> from_mates(#[trigger] dst@[a], orig),
            forall|b: int| 0 <= b < rest@.len() ==> from_mates(#[trigger] rest@[b], orig),
            forall|a: int, b: int|
                0 <= a < dst@.len() && 0 <= b < rest@.len() ==> (#[trigger] dst@[a]).total_difference
                    <= (#[trigger] rest@[b]).total_difference,
            mate_datas(dst@).to_multiset().add(mate_datas(rest@).to_multiset()) == mate_datas(
                orig,
            ).to_multiset(),
        decreases rest@.len(),
    {
        let mut min_idx: usize = 0;
        let mut k: usize = 1;
        while k < rest.len()
            invariant
                rest@.len() > 0,
                min_idx < rest@.len(),
                k <= rest@.len(),
                forall|t: int|
                    0 <= t < k ==> rest@[min_idx as int].total_difference
                        <= (#[trigger] rest@[t]).total_difference,
            decreases rest@.len() - k,
        {
            if rest[k].total_difference < rest[min_idx].total_difference {
                min_idx = k;
            }
            k += 1;
        }
        let ghost before = rest@;
        let ghost dst_before = dst@;
        let m = rest.remove(min_idx);
        dst.push(m);
        proof {
            broadcast use group_to_multiset_ensures;

            assert(mate_datas(rest@) =~= mate_datas(before).remove(min_idx as int));
            assert(mate_datas(dst@) =~= mate_datas(dst_before).push(m.gene@));
            assert(mate_datas(before)[min_idx as int] == m.gene@);
            assert(mate_datas(dst@).to_multiset().add(mate_datas(rest@).to_multiset())
                =~= mate_datas(orig).to_multiset());
        }
    }
    proof {
        assert(mate_datas(rest@) =~= Seq::<Seq<u8>>::empty());
        assert(mate_datas(dst@).to_multiset().add(Seq::<Seq<u8>>::empty().to_multiset())
            =~= mate_datas(dst@).to_multiset());
        assert(mate_datas(dst@).to_multiset() =~= mate_datas(orig).to_multiset());
    }
    dst
}

} // verus!


