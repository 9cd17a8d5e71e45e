//! The film: a `w × h` grid of pixels, stored row-major.
//!
//! Every rendering thread deposits samples into the film (directly, or by
//! merging a thread-local film at the end of its run). The grid itself is
//! plain data; the lock that shares one film among the threads lives with
//! the caller.

use crate::accum::Accumulator;
use crate::accum::merged_model;
use crate::accum::zero_model;
use crate::accum::Pixel;
use vstd::prelude::*;

verus! {

/// What a whole film amounts to after a merge: every pixel model merged
/// with its counterpart.
pub open spec fn film_merged(a: Seq<Seq<int>>, b: Seq<Seq<int>>) -> Seq<Seq<int>> {
    Seq::new(a.len(), |i: int| merged_model(a[i], b[i]))
}

/// Merging two films of the same shape is commutative:
/// `merge(A, B) == merge(B, A)` pixel by pixel.
pub proof fn lemma_film_merge_commutative(a: Seq<Seq<int>>, b: Seq<Seq<int>>)
    requires
        a.len() == b.len(),
        forall|i: int| 0 <= i < a.len() ==> a[i].len() == b[i].len(),
    ensures
        film_merged(a, b) == film_merged(b, a),
{
    assert forall|i: int| 0 <= i < a.len() implies film_merged(a, b)[i] == film_merged(b, a)[i] by {
        crate::accum::lemma_merge_commutative(a[i], b[i]);
    }
    assert(film_merged(a, b) =~= film_merged(b, a));
}

/// Merging films of the same shape is associative:
/// `merge(merge(A, B), C) == merge(A, merge(B, C))` pixel by pixel.
pub proof fn lemma_film_merge_associative(a: Seq<Seq<int>>, b: Seq<Seq<int>>, c: Seq<Seq<int>>)
    requires
        a.len() == b.len(),
        b.len() == c.len(),
        forall|i: int| 0 <= i < a.len() ==> a[i].len() == b[i].len(),
        forall|i: int| 0 <= i < b.len() ==> b[i].len() == c[i].len(),
    ensures
        film_merged(film_merged(a, b), c) == film_merged(a, film_merged(b, c)),
{
    assert forall|i: int|
        0 <= i < a.len() implies film_merged(film_merged(a, b), c)[i] == film_merged(
        a,
        film_merged(b, c),
    )[i] by {
        crate::accum::lemma_merge_associative(a[i], b[i], c[i]);
    }
    assert(film_merged(film_merged(a, b), c) =~= film_merged(a, film_merged(b, c)));
}

pub struct Film<T> {
    pub w: usize,
    pub h: usize,
    pub buf: Vec<Pixel<T>>,
}

impl<T: Accumulator> Film<T> {
    /// Row-major index of pixel (x, y).
    pub open spec fn spec_ix(&self, x: int, y: int) -> int {
        y * (self.w as int) + x
    }

    pub open spec fn wf(&self) -> bool {
        &&& self.buf@.len() == (self.w as int) * (self.h as int)
        &&& forall|i: int| 0 <= i < self.buf@.len() ==> (#[trigger] self.buf@[i]).wf()
    }

    /// Every pixel has the given channel shape.
    pub open spec fn uniform(&self, channels: nat) -> bool {
        forall|i: int|
            0 <= i < self.buf@.len() ==> (#[trigger] self.buf@[i]).accum.model().len() == channels
    }

    proof fn lemma_ix_in_range(&self, x: int, y: int)
        requires
            0 <= x < self.w as int,
            0 <= y < self.h as int,
        ensures
            0 <= self.spec_ix(x, y) < (self.w as int) * (self.h as int),
    {
        let w = self.w as int;
        let h = self.h as int;
        assert(y * w + x < w * h) by (nonlinear_arith)
            requires
                0 <= x < w,
                0 <= y < h,
        ;
    }

    /// A film of `w × h` pixels, each with the channel shape of
    /// `accum_init` and no samples taken.
    pub fn new(w: usize, h: usize, accum_init: &T) -> (r: Self)
        requires
            (w as int) * (h as int) <= usize::MAX as int,
            accum_init.wf(),
        ensures
            r.wf(),
            r.w == w,
            r.h == h,
            forall|i: int|
                0 <= i < r.buf@.len() ==> (#[trigger] r.buf@[i]).accum.model()
                    == accum_init.model(),
            forall|i: int| 0 <= i < r.buf@.len() ==> (#[trigger] r.buf@[i]).samples == 0,
            r.uniform(accum_init.model().len()),
    {
        proof {
            assert((w as int) * (h as int) >= 0) by (nonlinear_arith);
        }
        let n = w * h;
        let mut buf: Vec<Pixel<T>> = Vec::new();
        let mut i: usize = 0;
        while i < n
            invariant
                i <= n,
                buf@.len() == i,
                accum_init.wf(),
                forall|k: int|
                    0 <= k < i ==> (#[trigger] buf@[k]).accum.model() == accum_init.model(),
                forall|k: int| 0 <= k < i ==> (#[trigger] buf@[k]).samples == 0,
                forall|k: int| 0 <= k < i ==> (#[trigger] buf@[k]).wf(),
            decreases n - i,
        {
            buf.push(Pixel::new(accum_init));
            i = i + 1;
        }
        Film { w, h, buf }
    }

    pub fn w(&self) -> (r: usize)
        ensures
            r == self.w,
    {
        self.w
    }

    pub fn h(&self) -> (r: usize)
        ensures
            r == self.h,
    {
        self.h
    }

    /// The pixel at (x, y).
    pub fn at(&self, x: usize, y: usize) -> (r: &Pixel<T>)
        requires
            self.wf(),
            x < self.w,
            y < self.h,
        ensures
            r == self.buf@[self.spec_ix(x as int, y as int)],
    {
        // Reading the buffer length bounds the index arithmetic below the
        // machine word.
        let _n: usize = self.buf.len();
        proof {
            self.lemma_ix_in_range(x as int, y as int);
        }
        let ix = y * self.w + x;
        &self.buf[ix]
    }

    /// Deposits one sample's contribution into pixel (x, y): its channel
    /// totals absorb the contribution and its sample count grows by one.
    /// Every other pixel is untouched.
    pub fn record(&mut self, x: usize, y: usize, contribution: &T)
        requires
            old(self).wf(),
            x < old(self).w,
            y < old(self).h,
            contribution.wf(),
            old(self).buf@[old(self).spec_ix(x as int, y as int)].accum.can_merge(contribution),
            old(self).buf@[old(self).spec_ix(x as int, y as int)].samples < usize::MAX,
        ensures
            final(self).wf(),
            final(self).w == old(self).w,
            final(self).h == old(self).h,
            final(self).buf@.len() == old(self).buf@.len(),
            final(self).buf@[old(self).spec_ix(x as int, y as int)].accum.model() == merged_model(
                old(self).buf@[old(self).spec_ix(x as int, y as int)].accum.model(),
                contribution.model(),
            ),
            final(self).buf@[old(self).spec_ix(x as int, y as int)].samples == old(
                self,
            ).buf@[old(self).spec_ix(x as int, y as int)].samples + 1,
            forall|i: int|
                0 <= i < final(self).buf@.len() && i != old(self).spec_ix(x as int, y as int)
                    ==> final(self).buf@[i] == old(self).buf@[i],
    {
        // Reading the buffer length bounds the index arithmetic below the
        // machine word.
        let _n: usize = self.buf.len();
        proof {
            self.lemma_ix_in_range(x as int, y as int);
        }
        let ix = y * self.w + x;
        let pixel = &mut self.buf[ix];
        pixel.record(contribution);
    }

    /// Merges another film of the same dimensions pixel by pixel: channel
    /// totals add up, sample counts add up.
    pub fn merge(&mut self, another: &Self)
        requires
            old(self).wf(),
            another.wf(),
            old(self).w == another.w,
            old(self).h == another.h,
            forall|i: int|
                0 <= i < old(self).buf@.len() ==> (#[trigger] old(self).buf@[i]).can_merge(
                    &another.buf@[i],
                ),
        ensures
            final(self).wf(),
            final(self).w == old(self).w,
            final(self).h == old(self).h,
            final(self).buf@.len() == old(self).buf@.len(),
            forall|i: int|
                0 <= i < final(self).buf@.len() ==> (#[trigger] final(self).buf@[i]).model()
                    == merged_model(old(self).buf@[i].model(), another.buf@[i].model()),
    {
        let n = self.buf.len();
        let mut i: usize = 0;
        while i < n
            invariant
                i <= n,
                n == self.buf@.len(),
                self.buf@.len() == old(self).buf@.len(),
                self.w == old(self).w,
                self.h == old(self).h,
                another.wf(),
                another.buf@.len() == old(self).buf@.len(),
                forall|k: int|
                    0 <= k < old(self).buf@.len() ==> (#[trigger] old(self).buf@[k]).can_merge(
                        &another.buf@[k],
                    ),
                forall|k: int| 0 <= k < old(self).buf@.len() ==> old(self).buf@[k].wf(),
                forall|k: int|
                    0 <= k < i ==> (#[trigger] self.buf@[k]).model() == merged_model(
                        old(self).buf@[k].model(),
                        another.buf@[k].model(),
                    ),
                forall|k: int| 0 <= k < i ==> (#[trigger] self.buf@[k]).wf(),
                forall|k: int| i <= k < n ==> self.buf@[k] == old(self).buf@[k],
            decreases n - i,
        {
            let pixel = &mut self.buf[i];
            pixel.merge(&another.buf[i]);
            i = i + 1;
        }
    }

    /// Clears every pixel of the film.
    pub fn reset(&mut self)
        requires
            old(self).wf(),
        ensures
            final(self).wf(),
            final(self).w == old(self).w,
            final(self).h == old(self).h,
            final(self).buf@.len() == old(self).buf@.len(),
            forall|i: int|
                0 <= i < final(self).buf@.len() ==> (#[trigger] final(self).buf@[i]).accum.model()
                    == zero_model(old(self).buf@[i].accum.model().len()),
            forall|i: int|
                0 <= i < final(self).buf@.len() ==> (#[trigger] final(self).buf@[i]).samples == 0,
    {
        let n = self.buf.len();
        let mut i: usize = 0;
        while i < n
            invariant
                i <= n,
                n == self.buf@.len(),
                self.buf@.len() == old(self).buf@.len(),
                self.w == old(self).w,
                self.h == old(self).h,
                forall|k: int| 0 <= k < old(self).buf@.len() ==> old(self).buf@[k].wf(),
                forall|k: int|
                    0 <= k < i ==> (#[trigger] self.buf@[k]).accum.model() == zero_model(
                        old(self).buf@[k].accum.model().len(),
                    ),
                forall|k: int| 0 <= k < i ==> (#[trigger] self.buf@[k]).samples == 0,
                forall|k: int| 0 <= k < i ==> (#[trigger] self.buf@[k]).wf(),
                forall|k: int| i <= k < n ==> self.buf@[k] == old(self).buf@[k],
            decreases n - i,
        {
            let pixel = &mut self.buf[i];
            pixel.reset();
            i = i + 1;
        }
    }
}

} // verus!
