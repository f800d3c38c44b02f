//! Shared ownership of one value through strong and weak references.
//!
//! A heap block holds the value and two counts. Every strong reference owns
//! one strong unit; every weak reference owns one weak unit, and the strong
//! references together own one more weak unit. The value lives while the
//! strong count is positive; the block goes away when the weak count reaches
//! zero, which can only happen after the value was dropped.
use vstd::prelude::*;

verus! {

/// Largest count of references of either kind. Counts are checked rather than
/// left to wrap: an increment beyond this bound is refused as an overflow, and
/// the thread-shared pointer aborts on it. The headroom above the bound absorbs
/// the increments that other threads make before the abort.
pub const MAX_REFS: usize = usize::MAX / 2;

/// A reference count would pass `MAX_REFS`.
#[derive(Clone, Copy, PartialEq, Eq, Debug, Structural)]
pub struct CounterOverflow;

/// What releasing one unit of a count leads to.
#[derive(Clone, Copy, PartialEq, Eq, Debug, Structural)]
pub enum Release {
    /// Other units remain.
    Kept,
    /// This was the last unit: the next phase of teardown is due.
    Last,
}

/// One round of a compare-and-swap loop that raises a count.
#[derive(Clone, Copy, PartialEq, Eq, Debug, Structural)]
pub enum RaiseStep {
    /// The count is zero: the value is gone and cannot be revived.
    Expired,
    /// The count sits at its largest value while another party works: wait and read again.
    Saturated,
    /// The count is too high to be raised.
    Overflow,
    /// Try to replace the observed count by this one; on a lost race, read again.
    Attempt(usize),
}

/// What dropping a strong reference did to the block.
#[derive(Clone, Copy, PartialEq, Eq, Debug, Structural)]
pub enum Teardown {
    /// Other strong references remain; nothing was dropped.
    Kept,
    /// The value was dropped; weak references keep the block.
    ValueDropped,
    /// The value was dropped and the block freed.
    BlockFreed,
}

/// Whether taking a unit from a count that held `prior` takes its last one.
pub open spec fn release_outcome(prior: nat) -> Release {
    if prior == 1 {
        Release::Last
    } else {
        Release::Kept
    }
}

/// Classifies a count as it was before one unit was taken from it.
pub fn release_step(prior: usize) -> (r: Release)
    requires
        prior >= 1,
    ensures
        r == release_outcome(prior as nat),
{
    if prior == 1 {
        Release::Last
    } else {
        Release::Kept
    }
}

/// Checks a strong count as it was before an unconditional increment.
pub fn clone_check(prior: usize) -> (r: Result<(), CounterOverflow>)
    ensures
        r is Ok <==> prior < MAX_REFS,
{
    if prior < MAX_REFS {
        Ok(())
    } else {
        Err(CounterOverflow)
    }
}

/// The round of an upgrade that reads `observed` as the strong count.
pub open spec fn upgrade_outcome(observed: usize) -> RaiseStep {
    if observed == 0 {
        RaiseStep::Expired
    } else if observed == usize::MAX {
        RaiseStep::Saturated
    } else if observed >= MAX_REFS {
        RaiseStep::Overflow
    } else {
        RaiseStep::Attempt((observed + 1) as usize)
    }
}

/// Decides one round of raising the strong count from a weak reference.
pub fn upgrade_step(observed: usize) -> (r: RaiseStep)
    ensures
        r == upgrade_outcome(observed),
{
    if observed == 0 {
        RaiseStep::Expired
    } else if observed == usize::MAX {
        RaiseStep::Saturated
    } else if observed >= MAX_REFS {
        RaiseStep::Overflow
    } else {
        RaiseStep::Attempt(observed + 1)
    }
}

/// The round of a downgrade that reads `observed` as the weak count.
pub open spec fn downgrade_outcome(observed: usize) -> RaiseStep {
    if observed == usize::MAX {
        RaiseStep::Saturated
    } else if observed >= MAX_REFS {
        RaiseStep::Overflow
    } else {
        RaiseStep::Attempt((observed + 1) as usize)
    }
}

/// Decides one round of raising the weak count from a strong reference.
pub fn downgrade_step(observed: usize) -> (r: RaiseStep)
    ensures
        r == downgrade_outcome(observed),
{
    if observed == usize::MAX {
        RaiseStep::Saturated
    } else if observed >= MAX_REFS {
        RaiseStep::Overflow
    } else {
        RaiseStep::Attempt(observed + 1)
    }
}

/// Writable access to what an occupied slot holds.
fn slot_mut<T>(slot: &mut Option<T>) -> (r: Option<&mut T>)
    ensures
        r is Some <==> (*old(slot)) is Some,
        r matches Some(m) ==> {
            &&& *m == (*old(slot))->Some_0
            &&& *final(slot) == Some(*final(m))
        },
        r is None ==> *final(slot) == *old(slot),
    no_unwind
{
    match slot {
        Some(v) => Some(v),
        None => None,
    }
}

/// What a heap block holds, as contracts see it.
pub struct BlockView<T> {
    pub strong: nat,
    pub weak: nat,
    pub value: Option<T>,
}

impl<T> BlockView<T> {
    /// A block just made for `v`: one strong reference, and its implicit weak unit.
    pub open spec fn fresh(v: T) -> Self {
        BlockView { strong: 1, weak: 1, value: Some(v) }
    }

    /// The value is there exactly while strong references are, these hold
    /// the implicit weak unit, and no count passes `MAX_REFS`.
    pub open spec fn wf(self) -> bool {
        &&& (self.value is Some <==> self.strong > 0)
        &&& (self.strong > 0 ==> self.weak >= 1)
        &&& self.strong <= MAX_REFS
        &&& self.weak <= MAX_REFS
    }

    /// The block has been freed: no reference of either kind is left.
    pub open spec fn is_freed(self) -> bool {
        self.weak == 0
    }

    /// How many weak references exist, leaving out the implicit unit.
    pub open spec fn weak_refs(self) -> nat {
        if self.strong > 0 {
            (self.weak - 1) as nat
        } else {
            self.weak
        }
    }

    /// Exclusive access is allowed: exactly one strong reference exists.
    pub open spec fn is_exclusive(self) -> bool {
        self.strong == 1
    }

    /// The block after one more strong reference was made, and the result.
    pub open spec fn cloned(self) -> (Self, Result<(), CounterOverflow>) {
        if self.strong < MAX_REFS {
            (BlockView { strong: self.strong + 1, ..self }, Ok(()))
        } else {
            (self, Err(CounterOverflow))
        }
    }

    /// The block after one strong reference was dropped, and what went away.
    pub open spec fn released(self) -> (Self, Teardown) {
        if self.strong > 1 {
            (BlockView { strong: (self.strong - 1) as nat, ..self }, Teardown::Kept)
        } else if self.weak > 1 {
            (BlockView { strong: 0, weak: (self.weak - 1) as nat, value: None }, Teardown::ValueDropped)
        } else {
            (BlockView { strong: 0, weak: 0, value: None }, Teardown::BlockFreed)
        }
    }

    /// The block after a weak reference was made, and the result.
    pub open spec fn downgraded(self) -> (Self, Result<(), CounterOverflow>) {
        if self.weak < MAX_REFS {
            (BlockView { weak: self.weak + 1, ..self }, Ok(()))
        } else {
            (self, Err(CounterOverflow))
        }
    }

    /// The block after a weak reference was dropped, and whether it was the last unit.
    pub open spec fn weak_released(self) -> (Self, Release) {
        (BlockView { weak: (self.weak - 1) as nat, ..self }, release_outcome(self.weak))
    }

    /// The block after a weak reference tried to become strong, and whether it did.
    pub open spec fn upgraded(self) -> (Self, Result<bool, CounterOverflow>) {
        if self.strong == 0 {
            (self, Ok(false))
        } else if self.strong < MAX_REFS {
            (BlockView { strong: self.strong + 1, ..self }, Ok(true))
        } else {
            (self, Err(CounterOverflow))
        }
    }

    /// The block after `j` strong references were dropped one by one.
    pub open spec fn release_n(self, j: nat) -> Self
        decreases j,
    {
        if j == 0 {
            self
        } else {
            self.release_n((j - 1) as nat).released().0
        }
    }

    /// The block after `n` weak references were dropped one by one.
    pub open spec fn weak_release_n(self, n: nat) -> Self
        decreases n,
    {
        if n == 0 {
            self
        } else {
            self.weak_release_n((n - 1) as nat).weak_released().0
        }
    }
}

proof fn lemma_release_n<T>(b: BlockView<T>, j: nat)
    requires
        j < b.strong,
    ensures
        b.release_n(j) == (BlockView { strong: (b.strong - j) as nat, ..b }),
    decreases j,
{
    if j > 0 {
        lemma_release_n(b, (j - 1) as nat);
    }
}

proof fn lemma_weak_release_n<T>(b: BlockView<T>, n: nat)
    requires
        n <= b.weak,
    ensures
        b.weak_release_n(n) == (BlockView { weak: (b.weak - n) as nat, ..b }),
    decreases n,
{
    if n > 0 {
        lemma_weak_release_n(b, (n - 1) as nat);
    }
}

/// Dropping the strong references of a block one by one keeps the value until
/// the last of them, which drops it: each of the others reports `Kept`, the
/// last one `ValueDropped`, or `BlockFreed` when no weak reference is left.
pub proof fn lemma_last_strong_drops_value<T>(b: BlockView<T>)
    requires
        b.wf(),
        b.strong >= 1,
    ensures
        forall|j: nat| j < b.strong ==> (#[trigger] b.release_n(j)).value == b.value,
        forall|j: nat| j + 1 < b.strong ==> (#[trigger] b.release_n(j)).released().1 == Teardown::Kept,
        b.release_n((b.strong - 1) as nat).released().1 == (if b.weak > 1 {
            Teardown::ValueDropped
        } else {
            Teardown::BlockFreed
        }),
        b.release_n(b.strong) == (BlockView::<T> { strong: 0, weak: (b.weak - 1) as nat, value: None }),
{
    assert forall|j: nat| j < b.strong implies (#[trigger] b.release_n(j)).value == b.value by {
        lemma_release_n(b, j);
    }
    assert forall|j: nat| j + 1 < b.strong implies (#[trigger] b.release_n(j)).released().1
        == Teardown::Kept by {
        lemma_release_n(b, j);
    }
    lemma_release_n(b, (b.strong - 1) as nat);
}

/// What a strong reference does to the count.
pub enum RefOp {
    /// It is cloned.
    Clone,
    /// It is dropped.
    Drop,
}

/// The block after the clones and drops of `ops`, in their order.
pub open spec fn run_refs<T>(b: BlockView<T>, ops: Seq<RefOp>) -> BlockView<T>
    decreases ops.len(),
{
    if ops.len() == 0 {
        b
    } else {
        let before = run_refs(b, ops.drop_last());
        match ops.last() {
            RefOp::Clone => before.cloned().0,
            RefOp::Drop => before.released().0,
        }
    }
}

/// How many of the drops of `ops` dropped the value.
pub open spec fn teardowns<T>(b: BlockView<T>, ops: Seq<RefOp>) -> nat
    decreases ops.len(),
{
    if ops.len() == 0 {
        0
    } else {
        teardowns(b, ops.drop_last()) + match ops.last() {
            RefOp::Drop => if run_refs(b, ops.drop_last()).released().1 == Teardown::Kept {
                0nat
            } else {
                1nat
            },
            RefOp::Clone => 0nat,
        }
    }
}

/// Strong references alive after `ops`, counting the first one: one, plus the
/// clones, minus the drops.
pub open spec fn live_refs(ops: Seq<RefOp>) -> int
    decreases ops.len(),
{
    if ops.len() == 0 {
        1
    } else {
        live_refs(ops.drop_last()) + match ops.last() {
            RefOp::Clone => 1int,
            RefOp::Drop => -1int,
        }
    }
}

/// Each clone or drop of `ops` is made through a strong reference that is alive.
pub open spec fn made_while_alive(ops: Seq<RefOp>) -> bool
    decreases ops.len(),
{
    ops.len() == 0 || (made_while_alive(ops.drop_last()) && live_refs(ops.drop_last()) >= 1)
}

/// Reference counting, in any order: starting from a new shared pointer, let
/// its strong references be cloned and dropped in any interleaving, each clone
/// or drop made through a reference that is alive. The count is always the
/// number of live references; the value lives while it is positive; and it is
/// dropped exactly once, by the drop that takes the count to zero. With no
/// weak reference, that drop frees the block as well.
pub proof fn lemma_drop_exactly_once<T>(v: T, ops: Seq<RefOp>)
    requires
        made_while_alive(ops),
        ops.len() < MAX_REFS,
    ensures
        live_refs(ops) >= 0,
        run_refs(BlockView::fresh(v), ops).strong == live_refs(ops),
        run_refs(BlockView::fresh(v), ops).value == if live_refs(ops) > 0 {
            Some(v)
        } else {
            None
        },
        teardowns(BlockView::fresh(v), ops) == if live_refs(ops) > 0 {
            0nat
        } else {
            1nat
        },
        run_refs(BlockView::fresh(v), ops).weak == if live_refs(ops) > 0 {
            1nat
        } else {
            0nat
        },
        live_refs(ops) == 0 ==> run_refs(BlockView::fresh(v), ops).is_freed(),
    decreases ops.len(),
{
    if ops.len() > 0 {
        lemma_live_refs_bound(ops.drop_last());
        lemma_drop_exactly_once(v, ops.drop_last());
    }
}

proof fn lemma_live_refs_bound(ops: Seq<RefOp>)
    ensures
        live_refs(ops) <= 1 + ops.len(),
    decreases ops.len(),
{
    if ops.len() > 0 {
        lemma_live_refs_bound(ops.drop_last());
    }
}

/// Weak upgrade: while a strong reference lives, an upgrade succeeds and the
/// new reference reaches the same value. Once the last strong reference is
/// dropped, every later upgrade fails and changes nothing, whatever weak
/// references are dropped in between; a failed upgrade changing nothing, this
/// covers every order of later upgrades and weak drops.
pub proof fn lemma_upgrade<T>(b: BlockView<T>, n: nat)
    requires
        b.wf(),
        b.strong >= 1,
    ensures
        b.strong < MAX_REFS ==> b.upgraded() == (BlockView { strong: b.strong + 1, ..b }, Ok::<
            bool,
            CounterOverflow,
        >(true)),
        ({
            let gone = b.release_n(b.strong);
            n < gone.weak ==> {
                &&& gone.weak_release_n(n).strong == 0
                &&& gone.weak_release_n(n).upgraded() == (gone.weak_release_n(n), Ok::<
                    bool,
                    CounterOverflow,
                >(false))
            }
        }),
{
    lemma_last_strong_drops_value(b);
    let gone = b.release_n(b.strong);
    if n < gone.weak {
        lemma_weak_release_n(gone, n);
    }
}

/// Exclusive access gating: with one strong reference `get_mut` is granted; a
/// second strong reference withholds it, until that reference is dropped. A
/// weak reference does not count.
pub proof fn lemma_exclusive_access<T>(b: BlockView<T>)
    requires
        b.wf(),
        b.strong == 1,
        b.weak < MAX_REFS,
    ensures
        b.is_exclusive(),
        b.cloned().1 is Ok,
        !b.cloned().0.is_exclusive(),
        b.cloned().0.released().0.is_exclusive(),
        b.downgraded().0.is_exclusive(),
{
}

/// The heap block behind the strong and weak references of one value.
///
/// Each method stands for one operation of a reference on the block: making
/// or dropping a strong or a weak reference, upgrading, or taking exclusive
/// access. Dropping the value and freeing the block happen in that order.
pub struct ArcInner<T> {
    strong: usize,
    weak: usize,
    value: Option<T>,
}

impl<T> View for ArcInner<T> {
    type V = BlockView<T>;

    closed spec fn view(&self) -> BlockView<T> {
        BlockView { strong: self.strong as nat, weak: self.weak as nat, value: self.value }
    }
}

impl<T> ArcInner<T> {
    #[verifier::type_invariant]
    spec fn inv(self) -> bool {
        self@.wf()
    }

    /// A block for `value`, owned by one strong reference.
    pub fn new(value: T) -> (b: Self)
        ensures
            b@ == BlockView::fresh(value),
    {
        ArcInner { strong: 1, weak: 1, value: Some(value) }
    }

    /// Makes one more strong reference.
    pub fn clone_strong(&mut self) -> (r: Result<(), CounterOverflow>)
        requires
            old(self)@.strong >= 1,
        ensures
            (final(self)@, r) == old(self)@.cloned(),
            final(self)@.wf(),
    {
        proof {
            use_type_invariant(&*self);
        }
        match clone_check(self.strong) {
            Ok(()) => {
                self.strong = self.strong + 1;
                Ok(())
            },
            Err(e) => Err(e),
        }
    }

    /// Drops one strong reference: the last one drops the value, then gives
    /// back the weak unit of the strong references, which may free the block.
    pub fn release_strong(&mut self) -> (r: Teardown)
        requires
            old(self)@.strong >= 1,
        ensures
            (final(self)@, r) == old(self)@.released(),
            final(self)@.wf(),
    {
        proof {
            use_type_invariant(&*self);
        }
        match release_step(self.strong) {
            Release::Kept => {
                self.strong = self.strong - 1;
                Teardown::Kept
            },
            Release::Last => {
                let weak = self.weak;
                *self = ArcInner { strong: 0, weak, value: None };
                match release_step(weak) {
                    Release::Kept => {
                        self.weak = weak - 1;
                        Teardown::ValueDropped
                    },
                    Release::Last => {
                        self.weak = 0;
                        Teardown::BlockFreed
                    },
                }
            },
        }
    }

    /// Makes a weak reference from a strong one.
    pub fn downgrade(&mut self) -> (r: Result<(), CounterOverflow>)
        requires
            old(self)@.strong >= 1,
        ensures
            (final(self)@, r) == old(self)@.downgraded(),
            final(self)@.wf(),
    {
        proof {
            use_type_invariant(&*self);
        }
        match downgrade_step(self.weak) {
            RaiseStep::Attempt(n) => {
                self.weak = n;
                Ok(())
            },
            _ => Err(CounterOverflow),
        }
    }

    /// Drops a weak reference; the last unit of the block frees it.
    pub fn release_weak(&mut self) -> (r: Release)
        requires
            old(self)@.weak_refs() >= 1,
        ensures
            (final(self)@, r) == old(self)@.weak_released(),
            final(self)@.wf(),
    {
        proof {
            use_type_invariant(&*self);
        }
        let r = release_step(self.weak);
        self.weak = self.weak - 1;
        r
    }

    /// Makes a strong reference from a weak one, while the value lives.
    pub fn upgrade(&mut self) -> (r: Result<bool, CounterOverflow>)
        requires
            old(self)@.weak_refs() >= 1,
        ensures
            (final(self)@, r) == old(self)@.upgraded(),
            final(self)@.wf(),
    {
        proof {
            use_type_invariant(&*self);
        }
        match upgrade_step(self.strong) {
            RaiseStep::Expired => Ok(false),
            RaiseStep::Attempt(n) => {
                self.strong = n;
                Ok(true)
            },
            _ => Err(CounterOverflow),
        }
    }

    /// Writable access to the value, granted exactly when one strong reference exists.
    pub fn get_mut(&mut self) -> (r: Option<&mut T>)
        ensures
            r is Some <==> old(self)@.is_exclusive(),
            r matches Some(m) ==> {
                &&& *m == old(self)@.value->Some_0
                &&& final(self)@ == BlockView { value: Some(*final(m)), ..old(self)@ }
            },
            r is None ==> final(self)@ == old(self)@,
        no_unwind
    {
        proof {
            use_type_invariant(&*self);
        }
        if self.strong == 1 {
            slot_mut(&mut self.value)
        } else {
            None
        }
    }

    /// The value, while a strong reference keeps it.
    pub fn value(&self) -> (r: Option<&T>)
        ensures
            r is Some <==> self@.value is Some,
            r matches Some(v) ==> *v == self@.value->Some_0,
    {
        self.value.as_ref()
    }

    /// Count of strong references.
    pub fn strong_count(&self) -> (n: usize)
        ensures
            n == self@.strong,
    {
        self.strong
    }

    /// Count of weak units, the implicit one of the strong references included.
    pub fn weak_count(&self) -> (n: usize)
        ensures
            n == self@.weak,
    {
        self.weak
    }
}

} // verus!
