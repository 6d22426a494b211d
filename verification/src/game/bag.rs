//! 7-bag randomizer.

use rand::rngs::StdRng;
use rand::seq::SliceRandom;
use vstd::prelude::*;

use crate::game::piece::PieceKind;

verus! {

/// A window of seven pieces in which every kind appears (so each exactly once).
pub open spec fn is_full_set(w: Seq<PieceKind>) -> bool {
    &&& w.len() == 7
    &&& forall|k: PieceKind| #[trigger] w.contains(k)
}

/// Every aligned window `[7i, 7i + 7)` of `s` that lies wholly in `s`
/// holds all seven kinds.
pub open spec fn aligned_windows_full(s: Seq<PieceKind>) -> bool {
    forall|i: int|
        0 <= i && 7 * i + 7 <= s.len() ==> #[trigger] is_full_set(s.subrange(7 * i, 7 * i + 7))
}

/// In a sequence whose aligned windows are full, two consecutive
/// occurrences of one kind are at most 12 pieces apart: the aligned window
/// after the first one's window holds the kind again.
pub proof fn lemma_windows_gap(s: Seq<PieceKind>, i: int, j: int)
    requires
        aligned_windows_full(s),
        0 <= i < j < s.len(),
        s[i] == s[j],
        forall|m: int| i < m < j ==> #[trigger] s[m] != s[i],
    ensures
        j - i - 1 <= 12,
{
    let w = i / 7;
    if j >= 7 * w + 14 {
        let next = s.subrange(7 * (w + 1), 7 * (w + 1) + 7);
        assert(is_full_set(next));
        assert(next.contains(s[i]));
        let m = choose|m: int| 0 <= m < next.len() && next[m] == s[i];
        assert(s[7 * (w + 1) + m] == s[i]);
    }
}

/// The seven kinds, in declaration order.
pub open spec fn all_kinds() -> Seq<PieceKind> {
    seq![
        PieceKind::I,
        PieceKind::O,
        PieceKind::T,
        PieceKind::S,
        PieceKind::Z,
        PieceKind::J,
        PieceKind::L,
    ]
}

fn all_pieces() -> (a: [PieceKind; 7])
    ensures
        a@ == all_kinds(),
{
    let a = [
        PieceKind::I,
        PieceKind::O,
        PieceKind::T,
        PieceKind::S,
        PieceKind::Z,
        PieceKind::J,
        PieceKind::L,
    ];
    assert(a@ =~= all_kinds());
    a
}

/// Puts the seven kinds of `batch` in a random order drawn from the
/// standard generator `rng` with `rand::seq::SliceRandom::shuffle`.  The shuffle only swaps
/// elements, so the result is a permutation of the input; which one
/// depends on the generator's state and is left unsaid.
#[verifier::external_body]
fn shuffle_batch(batch: &mut [PieceKind; 7], rng: &mut StdRng)
    ensures
        final(batch)@.to_multiset() == old(batch)@.to_multiset(),
{
    batch.shuffle(rng);
}

/// 7-bag randomizer.
///
/// Produces pieces in aligned 7-piece windows that are permutations of
/// [I, O, T, S, Z, J, L].  The invariant is on ALIGNED windows, not
/// sliding windows.
pub struct Bag<R> {
    rng: R,
    /// The rest of the current batch, last piece to hand out first.
    pending: Vec<PieceKind>,
    /// Every piece handed out so far.
    drawn: Ghost<Seq<PieceKind>>,
}

impl<R> Bag<R> {
    /// Every piece handed out so far, oldest first.
    pub closed spec fn drawn(&self) -> Seq<PieceKind> {
        self.drawn@
    }

    /// The pieces already handed out followed by the rest of the batch in
    /// the order they will come.
    closed spec fn planned(&self) -> Seq<PieceKind> {
        self.drawn@ + self.pending@.reverse()
    }

    /// The bag's invariant: what was drawn plus what is pending is a whole
    /// number of batches, each a permutation of the seven kinds.
    pub closed spec fn wf(&self) -> bool {
        &&& self.planned().len() % 7 == 0
        &&& aligned_windows_full(self.planned())
        &&& self.pending@.len() <= 7
    }

    /// Aligned windows of the drawn pieces are permutations of all kinds.
    pub proof fn lemma_drawn_windows(&self)
        requires
            self.wf(),
        ensures
            aligned_windows_full(self.drawn()),
    {
        assert forall|i: int|
            0 <= i && 7 * i + 7 <= self.drawn().len() implies #[trigger] is_full_set(
            self.drawn().subrange(7 * i, 7 * i + 7),
        ) by {
            assert(self.drawn().subrange(7 * i, 7 * i + 7) =~= self.planned().subrange(
                7 * i,
                7 * i + 7,
            ));
        }
    }

    /// Between two draws of the same kind with none of that kind in
    /// between, at most 12 other pieces are drawn.
    pub proof fn lemma_gap_at_most_12(&self, i: int, j: int)
        requires
            self.wf(),
            0 <= i < j < self.drawn().len(),
            self.drawn()[i] == self.drawn()[j],
            forall|m: int| i < m < j ==> #[trigger] self.drawn()[m] != self.drawn()[i],
        ensures
            j - i - 1 <= 12,
    {
        self.lemma_drawn_windows();
        lemma_windows_gap(self.drawn(), i, j);
    }

    /// An empty bag that shuffles its batches with `rng`.
    pub fn new(rng: R) -> (b: Self)
        ensures
            b.wf(),
            b.drawn() == Seq::<PieceKind>::empty(),
    {
        let b = Bag { rng, pending: Vec::new(), drawn: Ghost(Seq::empty()) };
        assert(b.planned() =~= Seq::<PieceKind>::empty());
        b
    }
}

impl Bag<StdRng> {
    /// Refill the pending buffer with a freshly shuffled batch.
    ///
    /// The batch is stored reversed so that `pop()` returns pieces in the
    /// shuffled order.
    fn refill(&mut self)
        requires
            old(self).wf(),
            old(self).pending@.len() == 0,
        ensures
            final(self).wf(),
            final(self).drawn() == old(self).drawn(),
            final(self).pending@.len() == 7,
    {
        let mut batch = all_pieces();
        shuffle_batch(&mut batch, &mut self.rng);
        let ghost b = batch@;
        proof {
            broadcast use vstd::seq_lib::group_to_multiset_ensures;

            assert forall|k: PieceKind| #[trigger] b.contains(k) by {
                assert(all_kinds().contains(k)) by {
                    match k {
                        PieceKind::I => assert(all_kinds()[0] == k),
                        PieceKind::O => assert(all_kinds()[1] == k),
                        PieceKind::T => assert(all_kinds()[2] == k),
                        PieceKind::S => assert(all_kinds()[3] == k),
                        PieceKind::Z => assert(all_kinds()[4] == k),
                        PieceKind::J => assert(all_kinds()[5] == k),
                        PieceKind::L => assert(all_kinds()[6] == k),
                    }
                }
                assert(all_kinds().to_multiset().count(k) > 0);
            }
        }
        let mut i: usize = 0;
        while i < 7
            invariant
                i <= 7,
                b == batch@,
                b.len() == 7,
                self.pending@.len() == i,
                forall|j: int| 0 <= j < i ==> #[trigger] self.pending@[j] == b[6 - j],
                self.drawn == old(self).drawn,
            decreases 7 - i,
        {
            self.pending.push(batch[6 - i]);
            i = i + 1;
        }
        proof {
            let old_planned = old(self).planned();
            assert(old(self).pending@.reverse() =~= Seq::<PieceKind>::empty());
            assert(self.pending@.reverse() =~= b);
            assert(self.planned() =~= old_planned + b);
            let n = old_planned.len();
            assert forall|w: int|
                0 <= w && 7 * w + 7 <= self.planned().len() implies #[trigger] is_full_set(
                self.planned().subrange(7 * w, 7 * w + 7),
            ) by {
                if 7 * w + 7 <= n {
                    assert(self.planned().subrange(7 * w, 7 * w + 7) =~= old_planned.subrange(
                        7 * w,
                        7 * w + 7,
                    ));
                } else {
                    assert(7 * w == n);
                    assert(self.planned().subrange(7 * w, 7 * w + 7) =~= b);
                }
            }
        }
    }

    /// Return the next piece, refilling from a freshly shuffled bag when
    /// the pending buffer is empty.
    ///
    /// The bag never runs out, so this always returns `Some`.
    pub fn next(&mut self) -> (r: Option<PieceKind>)
        requires
            old(self).wf(),
        ensures
            final(self).wf(),
            r is Some,
            final(self).drawn() == old(self).drawn().push(r->0),
    {
        if self.pending.len() == 0 {
            self.refill();
        }
        let ghost before = self.planned();
        let p = self.pending.pop().unwrap();
        proof {
            self.drawn@ = self.drawn@.push(p);
            assert(self.planned() =~= before);
        }
        Some(p)
    }
}

} // verus!
