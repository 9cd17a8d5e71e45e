//! Work scheduler for the rendering threads.
//!
//! The image is split into `chunks` column-chunks. Work proceeds in cycles:
//! in every cycle each chunk is handed out exactly once, and no task of
//! cycle `N + 1` is handed out before every chunk of cycle `N` has been
//! handed out and every thread has gone idle again (the cycle barrier).
//! Between cycles the caller decides, from the running sample total, whether
//! to start the next cycle (and with what per-task sample amount) or to halt.
//!
//! The manager itself is a pure state machine: it answers each request with
//! either an immediate reply, or a note that the request is queued, or a
//! note that the barrier has been reached and a cycle decision is needed.
//! The thread pool, the channels that carry replies, and the decision
//! callback live with the caller.

use vstd::arithmetic::div_mod::lemma_div_is_ordered;
use vstd::arithmetic::div_mod::lemma_fundamental_div_mod;
use vstd::arithmetic::div_mod::lemma_fundamental_div_mod_converse;
use vstd::arithmetic::div_mod::lemma_mod_bound;
use vstd::arithmetic::div_mod::lemma_mod_multiples_basic;
use vstd::pervasive::VecAdditionalExecFns;
use vstd::prelude::*;
use vstd::set_lib::lemma_int_range;
use vstd::set_lib::lemma_len_subset;
use vstd::set_lib::set_int_range;

verus! {

/// Whether `j` is the id of one of the first `upto` queued waiters.
pub open spec fn waiter_before(ws: Seq<usize>, upto: int, j: int) -> bool {
    exists|k: int| 0 <= k < upto && (#[trigger] ws[k]) as int == j
}

/// A sequence of distinct thread ids drawn from `0..n` that omits the id
/// `x` leaves room for it: the sequence is shorter than `n`.
proof fn lemma_distinct_ids_leave_room(ws: Seq<usize>, n: int, x: usize)
    requires
        forall|i: int| 0 <= i < ws.len() ==> ((#[trigger] ws[i]) as int) < n,
        forall|i: int, j: int| 0 <= i < j < ws.len() ==> ws[i] != ws[j],
        (x as int) < n,
        !ws.contains(x),
    ensures
        ws.len() < n,
{
    let ws2 = ws.push(x);
    let ints = ws2.map_values(|w: usize| w as int);
    assert forall|i: int, j: int|
        0 <= i < ws2.len() && 0 <= j < ws2.len() && i != j implies ws2[i] != ws2[j] by {
        if i < ws.len() && j < ws.len() {
            assert(ws2[i] == ws[i] && ws2[j] == ws[j]);
        } else if j == ws.len() {
            assert(ws2[i] == ws[i] && ws2[j] == x);
            assert(ws[i] != x);
        } else {
            assert(ws2[j] == ws[j] && ws2[i] == x);
            assert(ws[j] != x);
        }
    }
    assert(ints.no_duplicates());
    ints.unique_seq_to_set();
    let range = set_int_range(0, n);
    lemma_int_range(0, n);
    assert forall|v: int| ints.to_set().contains(v) implies range.contains(v) by {
        let k = choose|k: int| 0 <= k < ints.len() && ints[k] == v;
        assert(ws2[k] as int == v);
    }
    lemma_len_subset(ints.to_set(), range);
}

/// Tasks leave the scheduler in cycle-major order: an earlier-issued task
/// never belongs to a later cycle, and within one cycle the chunks are
/// issued in increasing order.
pub proof fn lemma_tasks_cycle_ordered(m: Manager, i: int, j: int)
    requires
        m.inv(),
        0 <= i <= j < m.issued@.len(),
    ensures
        m.issued@[i].0 <= m.issued@[j].0,
        m.issued@[i].0 == m.issued@[j].0 ==> m.issued@[i].1 <= m.issued@[j].1,
{
    let ch = m.chunks as int;
    lemma_div_is_ordered(i, j, ch);
    lemma_fundamental_div_mod(i, ch);
    lemma_fundamental_div_mod(j, ch);
}

/// No task of a cycle is issued before the previous cycle is complete:
/// ahead of any task of cycle `c >= 1` the log already holds every chunk
/// `k` of cycle `c - 1`.
pub proof fn lemma_cycle_complete_before_next(m: Manager, j: int, k: int)
    requires
        m.inv(),
        0 <= j < m.issued@.len(),
        m.issued@[j].0 >= 1,
        0 <= k < m.chunks as int,
    ensures
        exists|i: int| 0 <= i < j && m.issued@[i] == (m.issued@[j].0 - 1, k),
{
    let ch = m.chunks as int;
    let c = m.issued@[j].0;
    let i0 = (c - 1) * ch + k;
    assert(m.issued@[j] == (j / ch, j % ch));
    lemma_fundamental_div_mod(j, ch);
    lemma_mod_bound(j, ch);
    assert(j == c * ch + j % ch);
    assert((c - 1) * ch + ch == c * ch) by (nonlinear_arith);
    assert((c - 1) * ch >= 0) by (nonlinear_arith)
        requires
            c >= 1,
            ch >= 1,
    ;
    assert(i0 < j);
    lemma_fundamental_div_mod_converse(i0, ch, c - 1, k);
    assert(0 <= i0 < j && m.issued@[i0] == (m.issued@[j].0 - 1, k));
}

/// At a cycle barrier the earlier cycles are complete: while the manager
/// waits for cycle `next_cycle`, the log holds every chunk of every cycle
/// before it, and nothing else. Together with [`Manager::resume`] — the
/// only transition that starts a cycle, and one that demands every thread
/// idle — this is the barrier guarantee: no task of a cycle is issued
/// before every task of every earlier cycle is issued and every thread has
/// gone idle again.
pub proof fn lemma_barrier_cycle_complete(m: Manager)
    requires
        m.inv(),
        m.state is CycleWait,
    ensures
        m.state matches ManagerState::CycleWait { next_cycle } ==> {
            &&& m.issued@.len() == (next_cycle as int) * (m.chunks as int)
            &&& forall|c: int, k: int|
                0 <= c < next_cycle as int && 0 <= k < m.chunks as int ==> #[trigger] m.issued@[c
                    * (m.chunks as int) + k] == (c, k)
        },
{
    let ch = m.chunks as int;
    if let ManagerState::CycleWait { next_cycle } = m.state {
        let nc = next_cycle as int;
        assert forall|c: int, k: int|
            0 <= c < nc && 0 <= k < ch implies #[trigger] m.issued@[c * ch + k] == (c, k) by {
            assert(0 <= c * ch + k && c * ch + k < nc * ch) by (nonlinear_arith)
                requires
                    0 <= c < nc,
                    0 <= k < ch,
            ;
            lemma_fundamental_div_mod_converse(c * ch + k, ch, c, k);
        }
    }
}

/// One unit of scheduled work: a column chunk and the number of samples to
/// take per pixel in the current cycle.
#[derive(Debug)]
pub struct Task {
    pub chunk: usize,
    pub amount: usize,
}

#[derive(Clone, Copy, Debug)]
pub enum ManagerState {
    Halted,
    CycleProgress { cycle: usize, amount: usize, chunk: usize },
    CycleWait { next_cycle: usize },
}

/// What the manager says to a thread that asked for work.
pub enum Request {
    /// An immediate answer: a task, or `None` when the render has halted.
    Reply(Option<Task>),
    /// The thread is queued until the cycle barrier is reached.
    Pending,
    /// The thread is queued and the barrier is now reached: every thread is
    /// idle. The caller must decide on the cycle and call [`Manager::resume`].
    CycleEnd { next_cycle: usize, total_amount: usize },
}

pub struct Manager {
    pub chunks: usize,
    pub state: ManagerState,
    pub thread_idle: Vec<bool>,
    pub waiters: Vec<usize>,
    pub total_amount: usize,
    /// Every task handed out so far, oldest first, as (cycle, chunk).
    pub issued: Ghost<Seq<(int, int)>>,
}

impl Manager {
    /// Number of worker threads the manager was built for.
    pub open spec fn nthreads(self) -> int {
        self.thread_idle@.len() as int
    }

    pub open spec fn all_idle_spec(self) -> bool {
        forall|i: int| 0 <= i < self.thread_idle@.len() ==> self.thread_idle@[i]
    }

    pub open spec fn waiters_ok(self) -> bool {
        &&& forall|i: int|
            0 <= i < self.waiters@.len() ==> (self.waiters@[i] as int) < self.nthreads()
        &&& forall|i: int| 0 <= i < self.waiters@.len() ==> self.thread_idle@[self.waiters@[i] as int]
        &&& forall|i: int, j: int|
            0 <= i < j < self.waiters@.len() ==> self.waiters@[i] != self.waiters@[j]
        &&& self.waiters@.len() <= self.nthreads()
    }

    /// Tasks are issued in cycle-major order: the `i`-th task ever issued is
    /// chunk `i % chunks` of cycle `i / chunks`.
    pub open spec fn issued_form(self) -> bool {
        forall|i: int|
            0 <= i < self.issued@.len() ==> self.issued@[i] == (
                i / (self.chunks as int),
                i % (self.chunks as int),
            )
    }

    pub open spec fn state_ok(self) -> bool {
        match self.state {
            ManagerState::Halted => {
                &&& self.waiters@.len() == 0
                &&& (self.issued@.len() as int) % (self.chunks as int) == 0
            },
            ManagerState::CycleWait { next_cycle } => self.issued@.len() == (next_cycle as int)
                * (self.chunks as int),
            ManagerState::CycleProgress { cycle, amount, chunk } => {
                &&& self.waiters@.len() == 0
                &&& (chunk as int) < (self.chunks as int)
                &&& (cycle as int) < usize::MAX as int
                &&& self.issued@.len() == (cycle as int) * (self.chunks as int) + (chunk as int)
            },
        }
    }

    pub open spec fn inv(self) -> bool {
        &&& 1 <= self.nthreads() <= self.chunks as int
        &&& self.waiters_ok()
        &&& self.issued_form()
        &&& self.state_ok()
    }

    /// A fresh manager: waiting for cycle 0, every thread idle, nothing
    /// issued yet.
    pub fn new(chunks: usize, nthread: usize) -> (m: Manager)
        requires
            1 <= nthread <= chunks,
        ensures
            m.inv(),
            m.chunks == chunks,
            m.nthreads() == nthread,
            m.state matches ManagerState::CycleWait { next_cycle } && next_cycle == 0,
            m.waiters@.len() == 0,
            m.issued@.len() == 0,
            m.total_amount == 0,
            m.all_idle_spec(),
    {
        let mut thread_idle: Vec<bool> = Vec::new();
        let mut i: usize = 0;
        while i < nthread
            invariant
                i <= nthread,
                thread_idle@.len() == i,
                forall|j: int| 0 <= j < i ==> thread_idle@[j],
            decreases nthread - i,
        {
            thread_idle.push(true);
            i = i + 1;
        }
        Manager {
            chunks,
            state: ManagerState::CycleWait { next_cycle: 0 },
            thread_idle,
            waiters: Vec::new(),
            total_amount: 0,
            issued: Ghost(Seq::empty()),
        }
    }

    /// Whether every thread is currently idle (the barrier condition).
    pub fn all_idle(&self) -> (r: bool)
        ensures
            r == self.all_idle_spec(),
    {
        let mut i: usize = 0;
        while i < self.thread_idle.len()
            invariant
                i <= self.thread_idle@.len(),
                forall|j: int| 0 <= j < i ==> self.thread_idle@[j],
            decreases self.thread_idle@.len() - i,
        {
            if !self.thread_idle[i] {
                return false;
            }
            i = i + 1;
        }
        true
    }

    /// A thread asks for work. The thread is marked idle for the duration of
    /// the request. Depending on the state it is answered at once (a task
    /// while the cycle is in progress, nothing once halted) or queued until
    /// the cycle barrier; the request that completes the barrier is answered
    /// with `CycleEnd`, and the caller must then settle the cycle decision
    /// through [`Manager::resume`] before any further request.
    pub fn next(&mut self, thid: usize) -> (r: Request)
        requires
            old(self).inv(),
            (thid as int) < old(self).nthreads(),
            !old(self).waiters@.contains(thid),
        ensures
            final(self).inv(),
            final(self).chunks == old(self).chunks,
            final(self).nthreads() == old(self).nthreads(),
            old(self).state is Halted ==> {
                &&& final(self).state is Halted
                &&& r == Request::Reply(None::<Task>)
                &&& final(self).issued@ == old(self).issued@
                &&& final(self).waiters@ == old(self).waiters@
                &&& final(self).total_amount == old(self).total_amount
                &&& final(self).thread_idle@ == old(self).thread_idle@.update(thid as int, true)
            },
            old(self).state matches ManagerState::CycleProgress { cycle, amount, chunk } ==> {
                &&& r == Request::Reply(Some(Task { chunk, amount }))
                &&& final(self).issued@ == old(self).issued@.push((cycle as int, chunk as int))
                &&& final(self).waiters@ == old(self).waiters@
                &&& final(self).total_amount == old(self).total_amount
                &&& final(self).thread_idle@ == old(self).thread_idle@.update(thid as int, false)
                &&& (chunk + 1 == final(self).chunks ==> (final(self).state matches ManagerState::CycleWait {
                    next_cycle,
                } && next_cycle == cycle + 1))
                &&& (chunk + 1 < final(self).chunks ==> final(self).state == (ManagerState::CycleProgress {
                    cycle,
                    amount,
                    chunk: (chunk + 1) as usize,
                }))
            },
            old(self).state matches ManagerState::CycleWait { next_cycle } ==> {
                &&& final(self).state == old(self).state
                &&& final(self).issued@ == old(self).issued@
                &&& final(self).waiters@ == old(self).waiters@.push(thid)
                &&& final(self).total_amount == old(self).total_amount
                &&& final(self).thread_idle@ == old(self).thread_idle@.update(thid as int, true)
                &&& (final(self).all_idle_spec() ==> r == (Request::CycleEnd {
                    next_cycle,
                    total_amount: old(self).total_amount,
                }))
                &&& (!final(self).all_idle_spec() ==> r == Request::Pending)
            },
    {
        match self.state {
            ManagerState::Halted => {
                self.thread_idle.set(thid, true);
                Request::Reply(None)
            },
            ManagerState::CycleWait { next_cycle } => {
                self.thread_idle.set(thid, true);
                proof {
                    lemma_distinct_ids_leave_room(
                        self.waiters@,
                        self.nthreads(),
                        thid,
                    );
                }
                self.waiters.push(thid);
                if self.all_idle() {
                    Request::CycleEnd { next_cycle, total_amount: self.total_amount }
                } else {
                    Request::Pending
                }
            },
            ManagerState::CycleProgress { cycle, amount, chunk } => {
                self.thread_idle.set(thid, false);
                proof {
                    lemma_fundamental_div_mod_converse(
                        self.issued@.len() as int,
                        self.chunks as int,
                        cycle as int,
                        chunk as int,
                    );
                }
                self.issued = Ghost(self.issued@.push((cycle as int, chunk as int)));
                if chunk + 1 == self.chunks {
                    proof {
                        assert((cycle as int + 1) * (self.chunks as int) == (cycle as int) * (
                        self.chunks as int) + (self.chunks as int)) by (nonlinear_arith);
                    }
                    self.state = ManagerState::CycleWait { next_cycle: cycle + 1 };
                } else {
                    self.state = ManagerState::CycleProgress { cycle, amount, chunk: chunk + 1 };
                }
                Request::Reply(Some(Task { chunk, amount }))
            },
        }
    }

    /// Settles the cycle decision once the barrier is reached: every queued
    /// waiter is answered at once. `Some(amount)` starts the next cycle and
    /// grants waiter `i` the task for chunk `i`; `None` halts the render and
    /// answers every waiter with no task.
    pub fn resume(&mut self, amount: Option<usize>) -> (replies: Vec<(usize, Option<Task>)>)
        requires
            old(self).inv(),
            old(self).state is CycleWait,
            old(self).all_idle_spec(),
            amount matches Some(a) ==> (old(self).total_amount as int) + (a as int)
                <= usize::MAX as int,
            amount is Some ==> (old(self).state matches ManagerState::CycleWait { next_cycle }
                ==> (next_cycle as int) < usize::MAX as int),
        ensures
            final(self).inv(),
            final(self).chunks == old(self).chunks,
            final(self).nthreads() == old(self).nthreads(),
            final(self).waiters@.len() == 0,
            replies@.len() == old(self).waiters@.len(),
            amount is None ==> {
                &&& final(self).state is Halted
                &&& final(self).issued@ == old(self).issued@
                &&& final(self).total_amount == old(self).total_amount
                &&& final(self).thread_idle@ == old(self).thread_idle@
                &&& forall|i: int|
                    0 <= i < replies@.len() ==> replies@[i] == (
                        old(self).waiters@[i],
                        None::<Task>,
                    )
            },
            amount matches Some(a) ==> (old(self).state matches ManagerState::CycleWait {
                next_cycle,
            } ==> {
                &&& final(self).total_amount == old(self).total_amount + a
                &&& final(self).issued@ == old(self).issued@ + Seq::new(
                    old(self).waiters@.len(),
                    |i: int| (next_cycle as int, i),
                )
                &&& forall|i: int|
                    0 <= i < replies@.len() ==> replies@[i] == (
                        old(self).waiters@[i],
                        Some(Task { chunk: i as usize, amount: a }),
                    )
                &&& forall|j: int|
                    0 <= j < final(self).thread_idle@.len() ==> final(self).thread_idle@[j] == !waiter_before(
                        old(self).waiters@,
                        old(self).waiters@.len() as int,
                        j,
                    )
                &&& (old(self).waiters@.len() == final(self).chunks ==> (final(self).state matches
                    ManagerState::CycleWait { next_cycle: nc2 } && nc2 == next_cycle + 1))
                &&& (old(self).waiters@.len() < final(self).chunks ==> final(self).state == (
                ManagerState::CycleProgress {
                    cycle: next_cycle,
                    amount: a,
                    chunk: old(self).waiters@.len() as usize,
                }))
            }),
    {
        let nc = match self.state {
            ManagerState::CycleWait { next_cycle } => next_cycle,
            _ => 0,
        };
        let n = self.waiters.len();
        let mut replies: Vec<(usize, Option<Task>)> = Vec::new();
        match amount {
            None => {
                let mut i: usize = 0;
                while i < n
                    invariant
                        i <= n,
                        n == self.waiters@.len(),
                        self == old(self),
                        replies@.len() == i,
                        forall|k: int|
                            0 <= k < i ==> replies@[k] == (self.waiters@[k], None::<Task>),
                    decreases n - i,
                {
                    replies.push((self.waiters[i], None));
                    i = i + 1;
                }
                self.waiters = Vec::new();
                self.state = ManagerState::Halted;
                proof {
                    lemma_mod_multiples_basic(
                        match old(self).state {
                            ManagerState::CycleWait { next_cycle } => next_cycle as int,
                            _ => 0,
                        },
                        self.chunks as int,
                    );
                }
                replies
            },
            Some(a) => {
                self.total_amount = self.total_amount + a;
                let ghost ws0 = self.waiters@;
                let mut i: usize = 0;
                while i < n
                    invariant
                        i <= n,
                        n == self.waiters@.len(),
                        self.waiters@ == ws0,
                        self.chunks == old(self).chunks,
                        self.state == old(self).state,
                        self.state matches ManagerState::CycleWait { next_cycle } && next_cycle
                            == nc,
                        old(self).inv(),
                        old(self).all_idle_spec(),
                        ws0 == old(self).waiters@,
                        self.total_amount == old(self).total_amount + a,
                        self.thread_idle@.len() == old(self).thread_idle@.len(),
                        forall|j: int|
                            0 <= j < self.thread_idle@.len() ==> self.thread_idle@[j]
                                == !waiter_before(ws0, i as int, j),
                        self.issued@ == old(self).issued@ + Seq::new(
                            i as nat,
                            |k: int| (nc as int, k),
                        ),
                        self.issued@.len() == (nc as int) * (self.chunks as int) + i,
                        self.issued_form(),
                        replies@.len() == i,
                        forall|k: int|
                            0 <= k < i ==> replies@[k] == (
                                ws0[k],
                                Some(Task { chunk: k as usize, amount: a }),
                            ),
                    decreases n - i,
                {
                    let w = self.waiters[i];
                    self.thread_idle.set(w, false);
                    proof {
                        assert forall|j: int| 0 <= j < self.thread_idle@.len() implies
                            self.thread_idle@[j] == !waiter_before(ws0, i as int + 1, j) by {
                            if j == w as int {
                                assert(ws0[i as int] as int == j);
                                assert(waiter_before(ws0, i as int + 1, j));
                            } else {
                                if waiter_before(ws0, i as int + 1, j) {
                                    let k = choose|k: int|
                                        0 <= k < i as int + 1 && ws0[k] as int == j;
                                    assert(ws0[k] as int == j);
                                    assert(waiter_before(ws0, i as int, j));
                                }
                                if waiter_before(ws0, i as int, j) {
                                    let k = choose|k: int| 0 <= k < i as int && ws0[k] as int == j;
                                    assert(ws0[k] as int == j);
                                    assert(waiter_before(ws0, i as int + 1, j));
                                }
                            }
                        }
                    }
                    replies.push((w, Some(Task { chunk: i, amount: a })));
                    proof {
                        lemma_fundamental_div_mod_converse(
                            self.issued@.len() as int,
                            self.chunks as int,
                            nc as int,
                            i as int,
                        );
                        assert(self.issued@.push((nc as int, i as int)) =~= old(self).issued@
                            + Seq::new((i + 1) as nat, |k: int| (nc as int, k)));
                    }
                    self.issued = Ghost(self.issued@.push((nc as int, i as int)));
                    i = i + 1;
                }
                self.waiters = Vec::new();
                if n == self.chunks {
                    proof {
                        assert((nc as int + 1) * (self.chunks as int) == (nc as int) * (
                        self.chunks as int) + (self.chunks as int)) by (nonlinear_arith);
                    }
                    self.state = ManagerState::CycleWait { next_cycle: nc + 1 };
                } else {
                    self.state = ManagerState::CycleProgress { cycle: nc, amount: a, chunk: n };
                }
                replies
            },
        }
    }
}

} // verus!
