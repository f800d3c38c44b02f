//! Mutual exclusion over an interior value.
use vstd::prelude::*;

verus! {

/// What a lock holds, as contracts see it.
pub struct LockView<T> {
    pub locked: bool,
    pub value: T,
}

impl<T> LockView<T> {
    /// The lock after a successful acquisition whose holder leaves `written` behind.
    pub open spec fn acquired_with(self, written: T) -> Self {
        LockView { locked: true, value: written }
    }

    /// The lock after its holder let go.
    pub open spec fn released(self) -> Self {
        LockView { locked: false, value: self.value }
    }
}

/// One critical section on a counter: take the lock, write back one more than
/// the value handed out, let go.
pub open spec fn increment_section(l: LockView<int>) -> LockView<int> {
    l.acquired_with(l.value + 1).released()
}

/// The counter after the critical sections of `schedule` ran in its order;
/// each entry names the thread that ran the section.
pub open spec fn run_sections(l: LockView<int>, schedule: Seq<nat>) -> LockView<int>
    decreases schedule.len(),
{
    if schedule.len() == 0 {
        l
    } else {
        increment_section(run_sections(l, schedule.drop_last()))
    }
}

/// How many sections of `schedule` thread `t` ran.
pub open spec fn sections_of(schedule: Seq<nat>, t: nat) -> nat
    decreases schedule.len(),
{
    if schedule.len() == 0 {
        0
    } else {
        sections_of(schedule.drop_last(), t) + if schedule.last() == t {
            1nat
        } else {
            0nat
        }
    }
}

/// Sections of the threads below `n`, summed.
spec fn sections_below(schedule: Seq<nat>, n: nat) -> nat
    decreases n,
{
    if n == 0 {
        0
    } else {
        sections_below(schedule, (n - 1) as nat) + sections_of(schedule, (n - 1) as nat)
    }
}

proof fn lemma_run_sections(l: LockView<int>, schedule: Seq<nat>)
    requires
        !l.locked,
    ensures
        run_sections(l, schedule) == (LockView { locked: false, value: l.value + schedule.len() }),
    decreases schedule.len(),
{
    if schedule.len() > 0 {
        lemma_run_sections(l, schedule.drop_last());
    }
}

proof fn lemma_sections_below_step(schedule: Seq<nat>, n: nat)
    requires
        schedule.len() > 0,
    ensures
        sections_below(schedule, n) == sections_below(schedule.drop_last(), n) + if schedule.last()
            < n {
            1nat
        } else {
            0nat
        },
    decreases n,
{
    if n > 0 {
        lemma_sections_below_step(schedule, (n - 1) as nat);
    }
}

proof fn lemma_sections_below_len(schedule: Seq<nat>, n: nat)
    requires
        forall|i: int| 0 <= i < schedule.len() ==> schedule[i] < n,
    ensures
        sections_below(schedule, n) == schedule.len(),
    decreases schedule.len(),
{
    if schedule.len() > 0 {
        let rest = schedule.drop_last();
        assert forall|i: int| 0 <= i < rest.len() implies rest[i] < n by {
            assert(rest[i] == schedule[i]);
        }
        lemma_sections_below_len(rest, n);
        lemma_sections_below_step(schedule, n);
        assert(schedule.last() < n);
    } else {
        lemma_sections_below_empty(schedule, n);
    }
}

proof fn lemma_sections_below_empty(schedule: Seq<nat>, n: nat)
    requires
        schedule.len() == 0,
    ensures
        sections_below(schedule, n) == 0,
    decreases n,
{
    if n > 0 {
        lemma_sections_below_empty(schedule, (n - 1) as nat);
    }
}

proof fn lemma_sections_below_even(schedule: Seq<nat>, n: nat, m: nat)
    requires
        forall|t: nat| t < n ==> #[trigger] sections_of(schedule, t) == m,
    ensures
        sections_below(schedule, n) == n * m,
    decreases n,
{
    if n > 0 {
        let k = (n - 1) as nat;
        lemma_sections_below_even(schedule, k, m);
        assert(sections_of(schedule, k) == m);
        assert(k * m + m == n * m) by (nonlinear_arith)
            requires
                k + 1 == n,
        ;
        assert(sections_below(schedule, n) == sections_below(schedule, k) + sections_of(schedule, k));
    } else {
        assert(0 * m == 0);
    }
}

/// Mutual exclusion: `n` threads each run `m` critical sections that add one
/// to a counter held by the lock, from zero. Whatever order the sections take,
/// each sees what the one before it left, and the counter ends at `n * m`.
pub proof fn lemma_counter_under_lock(n: nat, m: nat, schedule: Seq<nat>)
    requires
        forall|i: int| 0 <= i < schedule.len() ==> schedule[i] < n,
        forall|t: nat| t < n ==> #[trigger] sections_of(schedule, t) == m,
    ensures
        run_sections(LockView { locked: false, value: 0 }, schedule) == (LockView {
            locked: false,
            value: (n * m) as int,
        }),
{
    lemma_run_sections(LockView { locked: false, value: 0 }, schedule);
    lemma_sections_below_len(schedule, n);
    lemma_sections_below_even(schedule, n, m);
}

/// Hand-over: what a holder writes before letting go is, whole, what the next
/// acquisition hands out, and the lock is free for it.
pub proof fn lemma_handover<T>(l: LockView<T>, written: T)
    requires
        !l.locked,
    ensures
        !l.acquired_with(written).released().locked,
        l.acquired_with(written).released().value == written,
{
}

/// A busy-wait lock together with the value it guards.
///
/// The value is reachable only through a successful acquisition, which hands
/// out the one writable reference to it; the lock stays taken until `unlock`.
/// Acquiring a lock that is already taken would wait forever: it is refused
/// by the contract of `lock`, and reported by `try_lock`.
pub struct SpinLock<T> {
    locked: bool,
    data: T,
}

impl<T> View for SpinLock<T> {
    type V = LockView<T>;

    closed spec fn view(&self) -> LockView<T> {
        LockView { locked: self.locked, value: self.data }
    }
}

impl<T> SpinLock<T> {
    /// An unlocked lock holding `value`.
    pub fn new(value: T) -> (l: Self)
        ensures
            l@ == (LockView { locked: false, value }),
    {
        SpinLock { locked: false, data: value }
    }

    /// Takes the lock and hands out the guarded value; what is left behind in
    /// it is what the lock holds from then on.
    pub fn lock(&mut self) -> (data: &mut T)
        requires
            !old(self)@.locked,
        ensures
            *data == old(self)@.value,
            final(self)@ == old(self)@.acquired_with(*final(data)),
    {
        self.locked = true;
        &mut self.data
    }

    /// Takes the lock if it is free.
    pub fn try_lock(&mut self) -> (r: Option<&mut T>)
        ensures
            r is Some <==> !old(self)@.locked,
            r matches Some(data) ==> {
                &&& *data == old(self)@.value
                &&& final(self)@ == old(self)@.acquired_with(*final(data))
            },
            r is None ==> final(self)@ == old(self)@,
    {
        if self.locked {
            None
        } else {
            Some(self.lock())
        }
    }

    /// Lets go of the lock.
    pub fn unlock(&mut self)
        requires
            old(self)@.locked,
        ensures
            final(self)@ == old(self)@.released(),
    {
        self.locked = false;
    }

    /// Whether the lock is taken.
    pub fn is_locked(&self) -> (r: bool)
        ensures
            r == self@.locked,
    {
        self.locked
    }

    /// The guarded value, the lock being consumed.
    pub fn into_inner(self) -> (value: T)
        ensures
            value == self@.value,
    {
        self.data
    }
}

} // verus!
