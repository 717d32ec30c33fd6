//! The candidate representation: a fixed-length sequence of printable-ASCII
//! bytes, with its genetic operators (fitness scoring, single-point
//! crossover, point mutation).

use vstd::prelude::*;
use vstd::string::StrSliceExecFns;
use crate::rng::{random_usize_in, random_i32_in};

verus! {

/// One byte of candidate data lies in the printable-ASCII range.
pub open spec fn printable(b: u8) -> bool {
    0x20 <= b <= 0x7E
}

pub open spec fn all_printable(s: Seq<u8>) -> bool {
    forall|i: int| 0 <= i < s.len() ==> printable(#[trigger] s[i])
}

/// One character of a text can be stored as a printable-ASCII byte.
pub open spec fn printable_char(c: char) -> bool {
    0x20 <= c as int <= 0x7E
}

pub open spec fn all_printable_chars(s: Seq<char>) -> bool {
    forall|i: int| 0 <= i < s.len() ==> printable_char(#[trigger] s[i])
}

/// The bytes a text is stored as: one byte per character.
pub open spec fn bytes_of(text: Seq<char>) -> Seq<u8> {
    Seq::new(text.len(), |i: int| text[i] as u8)
}

/// The text a byte sequence decodes to: one character per byte
/// (exact for ASCII data).
pub open spec fn chars_of(bytes: Seq<u8>) -> Seq<char> {
    Seq::new(bytes.len(), |i: int| bytes[i] as char)
}

#[derive(Debug, Clone, Copy, PartialEq, Eq, Structural)]
pub enum GeneError {
    NotPrintableAscii,
    MismatchedTargetDNALength,
    MismatchedPartnerDNALength,
    CandidateTooShortForCrossover,
}

/// A candidate: an owned sequence of printable-ASCII bytes.
#[derive(Debug)]
pub struct Gene {
    dna: Vec<u8>,
}

impl View for Gene {
    type V = Seq<u8>;

    closed spec fn view(&self) -> Seq<u8> {
        self.dna@
    }
}

impl Gene {
    /// The invariant every constructor establishes and every operator keeps:
    /// all data bytes are printable ASCII.
    pub open spec fn wf(&self) -> bool {
        all_printable(self@)
    }

    pub fn is_printable_ascii(input: &str) -> (r: bool)
        ensures
            r == all_printable_chars(input@),
    {
        let len = input.unicode_len();
        let mut i: usize = 0;
        while i < len
            invariant
                i <= len,
                len == input@.len(),
                forall|j: int| 0 <= j < i ==> printable_char(#[trigger] input@[j]),
            decreases len - i,
        {
            let code = input.get_char(i) as u32;
            if code < 0x20 || code > 0x7E {
                return false;
            }
            i += 1;
        }
        true
    }

    /// Validated construction: an exact byte copy of `dna_init`, or
    /// `NotPrintableAscii` if any character falls outside the printable range.
    pub fn new(dna_init: &str) -> (r: Result<Gene, GeneError>)
        ensures
            all_printable_chars(dna_init@) <==> r is Ok,
            r matches Ok(g) ==> g@ == bytes_of(dna_init@) && g.wf(),
            r matches Err(e) ==> e == GeneError::NotPrintableAscii,
    {
        if !Self::is_printable_ascii(dna_init) {
            return Err(GeneError::NotPrintableAscii);
        }
        let len = dna_init.unicode_len();
        let mut dna: Vec<u8> = Vec::new();
        let mut i: usize = 0;
        while i < len
            invariant
                i <= len,
                len == dna_init@.len(),
                all_printable_chars(dna_init@),
                dna@.len() == i,
                forall|j: int| 0 <= j < i ==> dna@[j] == bytes_of(dna_init@)[j],
            decreases len - i,
        {
            let c = dna_init.get_char(i);
            dna.push(c as u8);
            i += 1;
        }
        let g = Gene { dna };
        proof {
            assert(g@ =~= bytes_of(dna_init@));
            assert forall|i: int| 0 <= i < g@.len() implies printable(#[trigger] g@[i]) by {
                let c = dna_init@[i];
                assert(printable_char(c));
            }
        }
        Ok(g)
    }

    /// Construction from bytes the caller has already validated.
    pub(crate) fn from_bytes(dna: Vec<u8>) -> (g: Gene)
        requires
            all_printable(dna@),
        ensures
            g@ == dna@,
            g.wf(),
    {
        Gene { dna }
    }

    /// The data as an owned byte vector.
    pub fn dna(&self) -> (r: Vec<u8>)
        ensures
            r@ == self@,
    {
        copy_bytes(&self.dna)
    }

    /// In-place re-assignment with the same validation as `new`; on failure
    /// the prior value is left unchanged.
    pub fn set_dna(&mut self, dna_edit: &str) -> (r: Result<(), GeneError>)
        ensures
            all_printable_chars(dna_edit@) <==> r is Ok,
            r is Ok ==> final(self)@ == bytes_of(dna_edit@) && final(self).wf(),
            r is Err ==> final(self)@ == old(self)@ && r == Result::<(), GeneError>::Err(
                GeneError::NotPrintableAscii,
            ),
    {
        match Self::new(dna_edit) {
            Ok(g) => {
                *self = g;
                Ok(())
            },
            Err(e) => Err(e),
        }
    }

    /// The decoded text of the data; every candidate the public operations
    /// can build is printable, so the placeholder branch for invalid bytes
    /// is unreachable through them.
    pub fn to_string(&self) -> (r: String)
        ensures
            self.wf() ==> r@ == chars_of(self@),
    {
        if bytes_printable(&self.dna) {
            string_from_ascii_bytes(&self.dna)
        } else {
            "DNA contains non-utf8 characters.".to_owned()
        }
    }

    pub fn len(&self) -> (r: usize)
        ensures
            r == self@.len(),
    {
        self.dna.len()
    }

    /// An owned copy of this candidate.
    pub fn duplicate(&self) -> (r: Gene)
        ensures
            r@ == self@,
    {
        Gene { dna: copy_bytes(&self.dna) }
    }
}

impl Default for Gene {
    /// The empty candidate.
    fn default() -> (r: Gene)
        ensures
            r@ == Seq::<u8>::empty(),
            r.wf(),
    {
        let g = Gene { dna: Vec::new() };
        proof {
            assert(g@ =~= Seq::<u8>::empty());
        }
        g
    }
}

fn bytes_printable(v: &Vec<u8>) -> (r: bool)
    ensures
        r == all_printable(v@),
{
    let mut i: usize = 0;
    while i < v.len()
        invariant
            i <= v@.len(),
            forall|j: int| 0 <= j < i ==> printable(#[trigger] v@[j]),
        decreases v@.len() - i,
    {
        let b = v[i];
        if b < 0x20 || b > 0x7E {
            return false;
        }
        i += 1;
    }
    true
}

fn copy_bytes(v: &Vec<u8>) -> (r: Vec<u8>)
    ensures
        r@ == v@,
{
    let mut r: Vec<u8> = Vec::new();
    let mut i: usize = 0;
    while i < v.len()
        invariant
            i <= v@.len(),
            r@.len() == i,
            forall|j: int| 0 <= j < i ==> r@[j] == v@[j],
        decreases v@.len() - i,
    {
        r.push(v[i]);
        i += 1;
    }
    proof {
        assert(r@ =~= v@);
    }
    r
}

/// Relies on String::from_utf8: bytes below 0x80 are single-byte UTF-8
/// scalars, so the decoded text holds one character per byte and the call
/// cannot fail.
#[verifier::external_body]
fn string_from_ascii_bytes(bytes: &Vec<u8>) -> (r: String)
    requires
        all_printable(bytes@),
    ensures
        r@ == chars_of(bytes@),
{
    String::from_utf8(bytes.clone()).unwrap()
}

/// The distance between two printable bytes around the circular 95-symbol
/// alphabet: 0x20 and 0x7E count as adjacent, not maximally far.
pub open spec fn circ_dist(a: u8, b: u8) -> int {
    let d = if a >= b {
        a - b
    } else {
        b - a
    };
    if 95 - d < d {
        95 - d
    } else {
        d
    }
}

/// The sum of circular distances over the first `n` positions.
pub open spec fn circ_total_upto(a: Seq<u8>, b: Seq<u8>, n: int) -> int
    decreases n,
{
    if n <= 0 {
        0
    } else {
        circ_total_upto(a, b, n - 1) + circ_dist(a[n - 1], b[n - 1])
    }
}

/// The total circular distance between two equal-length byte sequences: the
/// numerator of the fitness score `1 - total / (47 * len)`.
pub open spec fn circ_total(a: Seq<u8>, b: Seq<u8>) -> int {
    circ_total_upto(a, b, a.len() as int)
}

/// Each position contributes at most 47 (half the alphabet, rounded down).
pub proof fn lemma_circ_total_upto_bounds(a: Seq<u8>, b: Seq<u8>, n: int)
    requires
        all_printable(a),
        all_printable(b),
        0 <= n <= a.len(),
        n <= b.len(),
    ensures
        0 <= circ_total_upto(a, b, n) <= 47 * n,
    decreases n,
{
    if n > 0 {
        lemma_circ_total_upto_bounds(a, b, n - 1);
        assert(printable(a[n - 1]) && printable(b[n - 1]));
        assert(0 <= circ_dist(a[n - 1], b[n - 1]) <= 47);
    }
}

/// Law: scoring a candidate against itself gives zero total difference, so
/// its fitness is the perfect `1 - 0 / (47 * len) = 1`.
pub proof fn lemma_fitness_self_perfect(s: Seq<u8>)
    ensures
        circ_total(s, s) == 0,
{
    lemma_circ_total_upto_self(s, s.len() as int);
}

proof fn lemma_circ_total_upto_self(s: Seq<u8>, n: int)
    requires
        n <= s.len(),
    ensures
        circ_total_upto(s, s, n) == 0,
    decreases n,
{
    if n > 0 {
        lemma_circ_total_upto_self(s, n - 1);
    }
}

/// Law: the circular distance is symmetric, so two equal-length candidates
/// score the same against each other in either order.
pub proof fn lemma_fitness_symmetric(a: Seq<u8>, b: Seq<u8>)
    requires
        a.len() == b.len(),
    ensures
        circ_total(a, b) == circ_total(b, a),
{
    lemma_circ_total_upto_symmetric(a, b, a.len() as int);
}

proof fn lemma_circ_total_upto_symmetric(a: Seq<u8>, b: Seq<u8>, n: int)
    requires
        n <= a.len(),
        n <= b.len(),
    ensures
        circ_total_upto(a, b, n) == circ_total_upto(b, a, n),
    decreases n,
{
    if n > 0 {
        lemma_circ_total_upto_symmetric(a, b, n - 1);
    }
}

/// The exact fitness score as a fraction: the score the reference formula
/// assigns is `1 - total_difference / (47 * positions)`, left to the caller
/// to evaluate in whatever numeric type it needs.
#[derive(Debug, Clone, Copy, PartialEq, Eq, Structural)]
pub struct Fitness {
    pub total_difference: usize,
    pub positions: usize,
}

/// `child` is a single-point crossover of `a` and `b`: for some cross point
/// in `[1, len)`, the prefix comes from `a` and the suffix from `b`.
pub open spec fn is_crossover_of(child: Seq<u8>, a: Seq<u8>, b: Seq<u8>) -> bool {
    exists|cp: int|
        1 <= cp < a.len() && child == #[trigger] a.subrange(0, cp) + b.subrange(
            cp,
            a.len() as int,
        )
}

impl Gene {
    /// Scores this candidate against `target`: the total circular distance
    /// over all positions, or `MismatchedTargetDNALength` if the lengths
    /// differ.
    pub fn calc_fitness(&self, target: &Gene) -> (r: Result<Fitness, GeneError>)
        requires
            self.wf(),
            target.wf(),
            47 * target@.len() <= usize::MAX,
        ensures
            r is Ok <==> self@.len() == target@.len(),
            r matches Ok(f) ==> f.total_difference == circ_total(self@, target@)
                && f.positions == target@.len() && f.total_difference <= 47 * f.positions,
            r is Err ==> r == Result::<Fitness, GeneError>::Err(
                GeneError::MismatchedTargetDNALength,
            ),
    {
        if self.dna.len() != target.dna.len() {
            return Err(GeneError::MismatchedTargetDNALength);
        }
        let n = self.dna.len();
        let mut total: usize = 0;
        let mut i: usize = 0;
        while i < n
            invariant
                i <= n,
                n == self@.len(),
                n == target@.len(),
                self.wf(),
                target.wf(),
                47 * n <= usize::MAX,
                total == circ_total_upto(self@, target@, i as int),
                total <= 47 * i,
            decreases n - i,
        {
            let a = self.dna[i];
            let b = target.dna[i];
            let d: usize = if a >= b {
                (a - b) as usize
            } else {
                (b - a) as usize
            };
            let cd: usize = if 95 - d < d {
                95 - d
            } else {
                d
            };
            proof {
                assert(printable(self@[i as int]) && printable(target@[i as int]));
                assert(cd == circ_dist(self@[i as int], target@[i as int]));
            }
            total = total + cd;
            i += 1;
        }
        proof {
            lemma_circ_total_upto_bounds(self@, target@, n as int);
        }
        Ok(Fitness { total_difference: total, positions: n })
    }

    /// Single-point crossover: a child whose prefix up to a uniformly drawn
    /// cross point comes from `self` and whose suffix comes from `partner`.
    /// Fails if the lengths differ, or if they are too short to leave at
    /// least one position from each parent.
    pub fn crossover(&self, partner: &Gene) -> (r: Result<Gene, GeneError>)
        requires
            self.wf(),
            partner.wf(),
        ensures
            r is Ok <==> (self@.len() == partner@.len() && self@.len() >= 2),
            self@.len() != partner@.len() ==> r == Result::<Gene, GeneError>::Err(
                GeneError::MismatchedPartnerDNALength,
            ),
            self@.len() == partner@.len() && self@.len() < 2 ==> r == Result::<Gene, GeneError>::Err(
                GeneError::CandidateTooShortForCrossover,
            ),
            r matches Ok(child) ==> child.wf() && child@.len() == self@.len() && is_crossover_of(
                child@,
                self@,
                partner@,
            ),
    {
        if self.dna.len() != partner.dna.len() {
            return Err(GeneError::MismatchedPartnerDNALength);
        }
        if self.dna.len() < 2 {
            return Err(GeneError::CandidateTooShortForCrossover);
        }
        let n = self.dna.len();
        let cross_point = random_usize_in(1, n);
        let mut dna: Vec<u8> = Vec::new();
        let mut i: usize = 0;
        while i < cross_point
            invariant
                i <= cross_point,
                1 <= cross_point < n,
                n == self@.len(),
                dna@.len() == i,
                forall|j: int| 0 <= j < i ==> dna@[j] == self@[j],
            decreases cross_point - i,
        {
            dna.push(self.dna[i]);
            i += 1;
        }
        while i < n
            invariant
                cross_point <= i <= n,
                1 <= cross_point < n,
                n == self@.len(),
                n == partner@.len(),
                dna@.len() == i,
                forall|j: int| 0 <= j < cross_point ==> dna@[j] == self@[j],
                forall|j: int| cross_point <= j < i ==> dna@[j] == partner@[j],
            decreases n - i,
        {
            dna.push(partner.dna[i]);
            i += 1;
        }
        let child = Gene { dna };
        proof {
            let cp = cross_point as int;
            assert(child@ =~= self@.subrange(0, cp) + partner@.subrange(cp, n as int));
            assert forall|j: int| 0 <= j < child@.len() implies printable(
                #[trigger] child@[j],
            ) by {
                if j < cp {
                    assert(printable(self@[j]));
                } else {
                    assert(printable(partner@[j]));
                }
            }
        }
        Ok(child)
    }
}

/// The byte moved `shift` steps around the circular printable alphabet:
/// offsets wrap modulo 95, so the result is again printable.
pub open spec fn shifted(b: u8, shift: int) -> u8
    recommends
        printable(b),
        -4 <= shift < 4,
{
    (0x20 + (b - 0x20 + shift) % 95) as u8
}

/// `nb` can be reached from `ob` by one mutation step: a circular shift by
/// some offset in `[-4, 4)`.
pub open spec fn is_shift_of(nb: u8, ob: u8) -> bool {
    exists|s: int| -4 <= s < 4 && nb == shifted(ob, s)
}

/// `nb` is a point mutation of `ob`: same length, and every byte is a
/// circular shift of its old value by some offset in `[-4, 4)` (offset 0
/// meaning the byte was left alone, or shifted onto itself).
pub open spec fn is_mutation_of(nb: Seq<u8>, ob: Seq<u8>) -> bool {
    nb.len() == ob.len() && forall|i: int|
        0 <= i < nb.len() ==> is_shift_of(#[trigger] nb[i], ob[i])
}

/// A shift of zero steps leaves the byte in place.
pub proof fn lemma_shifted_zero(b: u8)
    requires
        printable(b),
    ensures
        shifted(b, 0) == b,
{
    vstd::arithmetic::div_mod::lemma_small_mod((b - 0x20) as nat, 95);
}

fn shift_byte(b: u8, shift: i32) -> (r: u8)
    requires
        printable(b),
        -4 <= shift < 4,
    ensures
        r == shifted(b, shift as int),
        printable(r),
{
    let mut v: i32 = (b as i32) - 0x20 + shift;
    proof {
        let w = b - 0x20 + shift;
        if w < 0 {
            assert(w % 95 == (w + 95) % 95) by {
                vstd::arithmetic::div_mod::lemma_mod_multiples_vanish(-1, w + 95, 95);
            }
            vstd::arithmetic::div_mod::lemma_small_mod((w + 95) as nat, 95);
        } else if w < 95 {
            vstd::arithmetic::div_mod::lemma_small_mod(w as nat, 95);
        } else {
            assert(w % 95 == (w - 95) % 95) by {
                vstd::arithmetic::div_mod::lemma_mod_multiples_vanish(1, w - 95, 95);
            }
            vstd::arithmetic::div_mod::lemma_small_mod((w - 95) as nat, 95);
        }
    }
    if v < 0 {
        v += 95;
    }
    if v >= 95 {
        v -= 95;
    }
    (v + 0x20) as u8
}

impl Gene {
    /// Point mutation in place: each byte independently, with probability
    /// `rate_permille / 1000`, is replaced by a circular shift of itself by a
    /// uniformly drawn offset in `[-4, 4)`. A rate of 0 never mutates; a
    /// rate of 1000 (or more) redraws every byte, though a drawn shift of 0
    /// can still land a byte on its old value.
    pub fn mutate(&mut self, rate_permille: u32)
        requires
            old(self).wf(),
        ensures
            final(self)@.len() == old(self)@.len(),
            final(self).wf(),
            is_mutation_of(final(self)@, old(self)@),
            rate_permille == 0 ==> final(self)@ == old(self)@,
    {
        let n = self.dna.len();
        let mut i: usize = 0;
        while i < n
            invariant
                i <= n,
                n == old(self)@.len(),
                self@.len() == n,
                old(self).wf(),
                self.wf(),
                forall|j: int| i <= j < n ==> #[trigger] self@[j] == old(self)@[j],
                forall|j: int| 0 <= j < i ==> is_shift_of(#[trigger] self@[j], old(self)@[j]),
                rate_permille == 0 ==> self@ == old(self)@,
            decreases n - i,
        {
            let ghost prev = self@;
            let chance = random_usize_in(0, 1000);
            if rate_permille as usize > chance {
                let shift = random_i32_in(-4, 4);
                let b = self.dna[i];
                let nb = shift_byte(b, shift);
                self.dna.set(i, nb);
                proof {
                    assert forall|j: int| 0 <= j < i + 1 implies is_shift_of(
                        #[trigger] self@[j],
                        old(self)@[j],
                    ) by {
                        if j == i {
                            assert(self@[j] == shifted(old(self)@[j], shift as int));
                        } else {
                            assert(self@[j] == prev[j]);
                            assert(is_shift_of(prev[j], old(self)@[j]));
                        }
                    }
                }
            } else {
                proof {
                    lemma_shifted_zero(self@[i as int]);
                    assert(self@[i as int] == shifted(old(self)@[i as int], 0));
                    assert(is_shift_of(self@[i as int], old(self)@[i as int]));
                }
            }
            i += 1;
        }
    }
}

/// Law: any text of printable-ASCII characters survives the round trip
/// through validated construction and decoding — `new` stores `bytes_of` the
/// text, `to_string` returns `chars_of` the stored bytes, and the two
/// compose to the identity.
pub proof fn lemma_construct_to_text_roundtrip(text: Seq<char>)
    requires
        all_printable_chars(text),
    ensures
        chars_of(bytes_of(text)) == text,
{
    assert forall|i: int| 0 <= i < text.len() implies chars_of(bytes_of(text))[i] == text[i] by {
        vstd::utf8::char_u32_cast(text[i], text[i] as u32);
    }
    assert(chars_of(bytes_of(text)) =~= text);
}

} // verus!
