//! The shuffled-bag piece generator.
//!
//! Draws come from a permutation of the seven piece types; when the
//! permutation is used up, a fresh one is shuffled from the injected random
//! source. A ghost history records every draw, and the generator's
//! invariant carries the fairness guarantee: every completed run of seven
//! draws that starts at a bag boundary holds each piece type exactly once.

use vstd::prelude::*;
use crate::rng::Rng;
use crate::tetrimino::PieceType;
use crate::utils::{count_of, shuffle};

verus! {

/// The seven piece types in their fixed reference order.
pub open spec fn seven_types() -> Seq<PieceType> {
    seq![
        PieceType::I,
        PieceType::O,
        PieceType::T,
        PieceType::S,
        PieceType::Z,
        PieceType::J,
        PieceType::L,
    ]
}

/// A full bag: each of the seven piece types exactly once.
pub open spec fn is_bag(s: Seq<PieceType>) -> bool {
    s.len() == 7 && (forall|t: PieceType| count_of(s, t) == 1)
}

/// The reference order itself is a bag.
pub proof fn lemma_seven_types_is_bag()
    ensures
        is_bag(seven_types()),
{
    let s7 = seven_types();
    let s6 = s7.drop_last();
    let s5 = s6.drop_last();
    let s4 = s5.drop_last();
    let s3 = s4.drop_last();
    let s2 = s3.drop_last();
    let s1 = s2.drop_last();
    let s0 = s1.drop_last();
    assert(s6 =~= seq![PieceType::I, PieceType::O, PieceType::T, PieceType::S, PieceType::Z, PieceType::J]);
    assert(s5 =~= seq![PieceType::I, PieceType::O, PieceType::T, PieceType::S, PieceType::Z]);
    assert(s4 =~= seq![PieceType::I, PieceType::O, PieceType::T, PieceType::S]);
    assert(s3 =~= seq![PieceType::I, PieceType::O, PieceType::T]);
    assert(s2 =~= seq![PieceType::I, PieceType::O]);
    assert(s1 =~= seq![PieceType::I]);
    assert(s0 =~= Seq::<PieceType>::empty());
    assert forall|t: PieceType| count_of(s7, t) == 1 by {
        reveal_with_fuel(count_of, 8);
    }
}

/// A freshly shuffled bag.
fn fresh_bag(rng: &mut Rng) -> (r: Vec<PieceType>)
    ensures
        is_bag(r@),
{
    let mut v: Vec<PieceType> = Vec::new();
    v.push(PieceType::I);
    v.push(PieceType::O);
    v.push(PieceType::T);
    v.push(PieceType::S);
    v.push(PieceType::Z);
    v.push(PieceType::J);
    v.push(PieceType::L);
    proof {
        assert(v@ =~= seven_types());
        lemma_seven_types_is_bag();
    }
    shuffle(&mut v, rng);
    v
}

/// Appending the next entry of the current bag to the history keeps every
/// aligned window of seven a full bag and extends the in-progress suffix.
proof fn lemma_draw_extends_history(h0: Seq<PieceType>, b: Seq<PieceType>, i: int)
    requires
        is_bag(b),
        0 <= i < 7,
        h0.len() >= i,
        (h0.len() - i) % 7 == 0,
        forall|k: int| 0 <= k && 7 * k + 7 <= h0.len() ==> is_bag(#[trigger] h0.subrange(7 * k, 7 * k + 7)),
        h0.subrange(h0.len() - i, h0.len() as int) == b.subrange(0, i),
    ensures
        ({
            let h1 = h0.push(b[i]);
            &&& (h1.len() - (i + 1)) % 7 == 0
            &&& (forall|k: int| 0 <= k && 7 * k + 7 <= h1.len() ==> is_bag(#[trigger] h1.subrange(7 * k, 7 * k + 7)))
            &&& h1.subrange(h1.len() - (i + 1), h1.len() as int) == b.subrange(0, i + 1)
        }),
{
    let h1 = h0.push(b[i]);
    let n = h0.len() as int;
    assert(h1.subrange(n + 1 - (i + 1), n + 1) =~= b.subrange(0, i + 1)) by {
        let lo = n - i;
        assert forall|m: int| 0 <= m < i + 1 implies h1[lo + m] == b[m] by {
            if m < i {
                assert(h0.subrange(lo, n)[m] == b.subrange(0, i)[m]);
            }
        }
    }
    assert forall|k: int| 0 <= k && 7 * k + 7 <= h1.len() implies is_bag(#[trigger] h1.subrange(7 * k, 7 * k + 7)) by {
        if 7 * k + 7 <= n {
            assert(h1.subrange(7 * k, 7 * k + 7) =~= h0.subrange(7 * k, 7 * k + 7));
        } else {
            assert(7 * k + 7 == n + 1);
            assert((n - i) % 7 == 0);
            assert(n - i == 7 * k + 6 - i);
            assert(i == 6) by {
                if i < 6 {
                    assert((7 * k + 6 - i) % 7 == 6 - i) by (nonlinear_arith)
                        requires 0 <= i < 6 && 0 <= k;
                }
            }
            assert(h1.subrange(7 * k, 7 * k + 7) =~= b) by {
                assert forall|m: int| 0 <= m < 7 implies h1[7 * k + m] == b[m] by {
                    if m < 6 {
                        assert(h0.subrange(n - 6, n)[m] == b.subrange(0, 6)[m]);
                    }
                }
            }
        }
    }
}

/// The bag generator: a current permutation, a cursor into it, the random
/// source for refills, and the ghost history of all draws so far.
pub struct SevenGenerator {
    pub shuffled: Vec<PieceType>,
    pub index: usize,
    pub rng: Rng,
    pub history: Ghost<Seq<PieceType>>,
}

impl SevenGenerator {
    /// The generator's invariant: the current permutation is a full bag,
    /// the cursor is within it, every completed aligned window of seven
    /// past draws was a full bag, and the draws since the last refill are
    /// exactly the consumed prefix of the current bag.
    pub open spec fn wf(&self) -> bool {
        &&& is_bag(self.shuffled@)
        &&& self.index <= 7
        &&& self.history@.len() >= self.index
        &&& (self.history@.len() - self.index) % 7 == 0
        &&& (forall|k: int| 0 <= k && 7 * k + 7 <= self.history@.len()
            ==> is_bag(#[trigger] self.history@.subrange(7 * k, 7 * k + 7)))
        &&& self.history@.subrange(
                self.history@.len() - self.index,
                self.history@.len() as int,
            ) == self.shuffled@.subrange(0, self.index as int)
    }

    /// A generator over a fresh shuffled bag, seeded with `seed`.
    pub fn new(seed: u64) -> (r: SevenGenerator)
        ensures
            r.wf(),
            r.history@.len() == 0,
            r.index == 0,
    {
        let mut rng = Rng::new(seed);
        let shuffled = fresh_bag(&mut rng);
        let r = SevenGenerator { shuffled, index: 0, rng, history: Ghost(Seq::empty()) };
        proof {
            assert(r.history@.subrange(0, 0) =~= r.shuffled@.subrange(0, 0));
        }
        r
    }

    /// Start over: a fresh shuffled bag, cursor at its head, history
    /// cleared. The random stream continues from where it was.
    pub fn reset(&mut self)
        ensures
            final(self).wf(),
            final(self).history@.len() == 0,
            final(self).index == 0,
    {
        let fresh = fresh_bag(&mut self.rng);
        self.shuffled = fresh;
        self.index = 0;
        self.history = Ghost(Seq::empty());
        proof {
            assert(self.history@.subrange(0, 0) =~= self.shuffled@.subrange(0, 0));
        }
    }

    /// Draw the next piece: the entry under the cursor, after refilling
    /// with a fresh shuffled bag if the current one is used up.
    pub fn next(&mut self) -> (r: PieceType)
        requires
            old(self).wf(),
        ensures
            final(self).wf(),
            final(self).history@ == old(self).history@.push(r),
            final(self).index >= 1,
            old(self).index < 7 ==> ({
                &&& r == old(self).shuffled@[old(self).index as int]
                &&& final(self).shuffled@ == old(self).shuffled@
                &&& final(self).index == old(self).index + 1
                &&& final(self).rng == old(self).rng
            }),
            old(self).index == 7 ==> ({
                &&& is_bag(final(self).shuffled@)
                &&& final(self).index == 1
                &&& r == final(self).shuffled@[0]
            }),
    {
        if self.index == 7 {
            let fresh = fresh_bag(&mut self.rng);
            self.shuffled = fresh;
            self.index = 0;
            proof {
                assert(self.history@.subrange(
                    self.history@.len() as int,
                    self.history@.len() as int,
                ) =~= self.shuffled@.subrange(0, 0));
            }
        }
        let ghost h0 = self.history@;
        let ghost i = self.index as int;
        let result = self.shuffled[self.index];
        self.index = self.index + 1;
        self.history = Ghost(self.history@.push(result));
        proof {
            lemma_draw_extends_history(h0, self.shuffled@, i);
        }
        result
    }
}

/// Bag fairness: within the recorded draw history, every completed window
/// of seven consecutive draws that starts at a bag boundary (a draw index
/// divisible by seven) holds each of the seven piece types exactly once.
pub proof fn lemma_bag_fairness(g: &SevenGenerator, k: int)
    requires
        g.wf(),
        0 <= k,
        7 * k + 7 <= g.history@.len(),
    ensures
        forall|t: PieceType| #[trigger] count_of(g.history@.subrange(7 * k, 7 * k + 7), t) == 1,
{
}

} // verus!
