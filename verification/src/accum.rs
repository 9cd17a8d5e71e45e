//! Per-pixel statistical accumulators.
//!
//! An accumulator holds running per-channel totals of the sample
//! contributions deposited into one pixel; rendering threads merge their
//! local accumulators into the shared film. Every accumulator is modelled
//! by the mathematical sequence of its channel totals, and merging is
//! pointwise addition on that model, which makes it associative and
//! commutative — the property the concurrent film writes rely on.

use vstd::prelude::*;

verus! {

/// Pointwise sum of two channel-total models. The result keeps the shape
/// of `a`; channels of `b` beyond the length of `a` are dropped, channels
/// of `a` beyond the length of `b` are kept as they are.
pub open spec fn merged_model(a: Seq<int>, b: Seq<int>) -> Seq<int> {
    Seq::new(a.len(), |i: int| if i < b.len() { a[i] + b[i] } else { a[i] })
}

/// The model of a freshly reset accumulator with `n` channels.
pub open spec fn zero_model(n: nat) -> Seq<int> {
    Seq::new(n, |i: int| 0)
}

/// Merging equal-shaped accumulators is commutative:
/// `merge(a, b) == merge(b, a)`.
pub proof fn lemma_merge_commutative(a: Seq<int>, b: Seq<int>)
    requires
        a.len() == b.len(),
    ensures
        merged_model(a, b) == merged_model(b, a),
{
    assert(merged_model(a, b) =~= merged_model(b, a));
}

/// Merging equal-shaped accumulators is associative:
/// `merge(merge(a, b), c) == merge(a, merge(b, c))`.
pub proof fn lemma_merge_associative(a: Seq<int>, b: Seq<int>, c: Seq<int>)
    requires
        a.len() == b.len(),
        b.len() == c.len(),
    ensures
        merged_model(merged_model(a, b), c) == merged_model(a, merged_model(b, c)),
{
    assert(merged_model(merged_model(a, b), c) =~= merged_model(a, merged_model(b, c)));
}

/// Merging a reset accumulator into another leaves it unchanged: the zero
/// model is the neutral element of `merged_model`.
pub proof fn lemma_merge_zero(a: Seq<int>)
    ensures
        merged_model(a, zero_model(a.len())) == a,
{
    assert(merged_model(a, zero_model(a.len())) =~= a);
}

/// What a film can accumulate: a value with per-channel running totals
/// that can be merged with another of the same shape and reset to zero.
pub trait Accumulator: Sized {
    /// The per-channel totals this value stands for.
    spec fn model(&self) -> Seq<int>;

    /// Well-formedness of the representation.
    spec fn wf(&self) -> bool;

    /// Whether the representation has room to absorb `other` (no total
    /// overflows its machine word).
    spec fn can_merge(&self, other: &Self) -> bool;

    /// Adds the totals of `another` into `self`, channel by channel.
    fn merge(&mut self, another: &Self)
        requires
            old(self).wf(),
            another.wf(),
            old(self).can_merge(another),
        ensures
            final(self).wf(),
            final(self).model() == merged_model(old(self).model(), another.model()),
    ;

    /// Clears every channel total.
    fn reset(&mut self)
        requires
            old(self).wf(),
        ensures
            final(self).wf(),
            final(self).model() == zero_model(old(self).model().len()),
    ;

    /// An independent copy with the same totals.
    fn duplicate(&self) -> (r: Self)
        requires
            self.wf(),
        ensures
            r.wf(),
            r.model() == self.model(),
    ;
}

/// A plain per-channel accumulator: one running total per path depth.
impl Accumulator for Vec<u64> {
    open spec fn model(&self) -> Seq<int> {
        self@.map_values(|x: u64| x as int)
    }

    open spec fn wf(&self) -> bool {
        true
    }

    open spec fn can_merge(&self, other: &Self) -> bool {
        forall|i: int|
            0 <= i < self@.len() && i < other@.len() ==> (self@[i] as int) + (other@[i] as int)
                <= u64::MAX as int
    }

    fn merge(&mut self, another: &Self) {
        let mut i: usize = 0;
        let l = if self.len() < another.len() {
            self.len()
        } else {
            another.len()
        };
        while i < l
            invariant
                i <= l,
                l <= self@.len(),
                l <= another@.len(),
                self@.len() == old(self)@.len(),
                old(self).can_merge(another),
                forall|k: int| 0 <= k < i ==> self@[k] as int == (old(self)@[k] as int) + (
                another@[k] as int),
                forall|k: int| i <= k < self@.len() ==> self@[k] == old(self)@[k],
            decreases l - i,
        {
            let sum = self[i] + another[i];
            self.set(i, sum);
            i = i + 1;
        }
        proof {
            assert(self.model() =~= merged_model(old(self).model(), another.model()));
        }
    }

    fn reset(&mut self) {
        let mut i: usize = 0;
        while i < self.len()
            invariant
                i <= self@.len(),
                self@.len() == old(self)@.len(),
                forall|k: int| 0 <= k < i ==> self@[k] == 0u64,
            decreases self@.len() - i,
        {
            self.set(i, 0);
            i = i + 1;
        }
        proof {
            assert(self.model() =~= zero_model(old(self).model().len()));
        }
    }

    fn duplicate(&self) -> (r: Self) {
        let mut r: Vec<u64> = Vec::new();
        let mut i: usize = 0;
        while i < self.len()
            invariant
                i <= self@.len(),
                r@.len() == i,
                forall|k: int| 0 <= k < i ==> r@[k] == self@[k],
            decreases self@.len() - i,
        {
            r.push(self[i]);
            i = i + 1;
        }
        proof {
            assert(r.model() =~= self.model());
        }
        r
    }
}

/// Two accumulators side by side, merged and reset together; their models
/// are laid out one after the other. Both halves must keep their shapes
/// aligned for the combined model to add pointwise.
impl<U: Accumulator, V: Accumulator> Accumulator for (U, V) {
    open spec fn model(&self) -> Seq<int> {
        self.0.model() + self.1.model()
    }

    open spec fn wf(&self) -> bool {
        self.0.wf() && self.1.wf()
    }

    open spec fn can_merge(&self, other: &Self) -> bool {
        &&& self.0.can_merge(&other.0)
        &&& self.1.can_merge(&other.1)
        &&& self.0.model().len() == other.0.model().len()
    }

    fn merge(&mut self, another: &Self) {
        self.0.merge(&another.0);
        self.1.merge(&another.1);
        proof {
            assert(self.model() =~= merged_model(old(self).model(), another.model()));
        }
    }

    fn reset(&mut self) {
        self.0.reset();
        self.1.reset();
        proof {
            assert(self.model() =~= zero_model(old(self).model().len()));
        }
    }

    fn duplicate(&self) -> (r: Self) {
        let r = (self.0.duplicate(), self.1.duplicate());
        proof {
            assert(r.model() =~= self.model());
        }
        r
    }
}

/// One pixel of the film: an accumulator of sample contributions together
/// with the number of samples taken for this pixel.
pub struct Pixel<T> {
    pub accum: T,
    pub samples: usize,
}

impl<T: Accumulator> Pixel<T> {
    /// The pixel's own model: the channel totals with the sample count as
    /// one further channel at the end.
    pub open spec fn model(&self) -> Seq<int> {
        self.accum.model().push(self.samples as int)
    }

    pub open spec fn wf(&self) -> bool {
        self.accum.wf()
    }

    pub open spec fn can_merge(&self, other: &Self) -> bool {
        &&& self.accum.can_merge(&other.accum)
        &&& self.accum.model().len() == other.accum.model().len()
        &&& (self.samples as int) + (other.samples as int) <= usize::MAX as int
    }

    /// A fresh pixel: the given channel shape, no samples taken.
    pub fn new(accum_init: &T) -> (r: Self)
        requires
            accum_init.wf(),
        ensures
            r.wf(),
            r.accum.model() == accum_init.model(),
            r.samples == 0,
    {
        Pixel { accum: accum_init.duplicate(), samples: 0 }
    }

    /// Merges another pixel of the same shape into this one: channel totals
    /// add up, sample counts add up.
    pub fn merge(&mut self, another: &Self)
        requires
            old(self).wf(),
            another.wf(),
            old(self).can_merge(another),
        ensures
            final(self).wf(),
            final(self).model() == merged_model(old(self).model(), another.model()),
            final(self).accum.model() == merged_model(
                old(self).accum.model(),
                another.accum.model(),
            ),
            final(self).samples == old(self).samples + another.samples,
    {
        self.accum.merge(&another.accum);
        self.samples = self.samples + another.samples;
        proof {
            assert(self.model() =~= merged_model(old(self).model(), another.model()));
        }
    }

    /// Records one sample's contribution: the contribution's totals are
    /// absorbed and the sample count grows by one.
    pub fn record(&mut self, contribution: &T)
        requires
            old(self).wf(),
            contribution.wf(),
            old(self).accum.can_merge(contribution),
            (old(self).samples as int) + 1 <= usize::MAX as int,
        ensures
            final(self).wf(),
            final(self).accum.model() == merged_model(
                old(self).accum.model(),
                contribution.model(),
            ),
            final(self).samples == old(self).samples + 1,
    {
        self.accum.merge(contribution);
        self.samples = self.samples + 1;
    }

    /// Clears the pixel: zero totals, no samples.
    pub fn reset(&mut self)
        requires
            old(self).wf(),
        ensures
            final(self).wf(),
            final(self).accum.model() == zero_model(old(self).accum.model().len()),
            final(self).samples == 0,
    {
        self.accum.reset();
        self.samples = 0;
    }
}

} // verus!
