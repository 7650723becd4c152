//! The executor for this runtime.

use crate::error::Error;
use crate::task::PollContext;
use crate::task::Progress;
use crate::task::Task;
use vstd::prelude::*;

verus! {

/// The scheduling states of an executor: registrations are accepted until
/// the run starts, and once every registered task has completed the
/// executor is drained for good.
#[derive(Debug, Clone, Copy, PartialEq, Eq, Structural)]
pub enum Phase {
    /// Tasks can be registered; nothing has been polled yet
    Accepting,
    /// The scheduling loop is sweeping the registered tasks
    Running,
    /// Every registered task has completed; the executor is spent
    Drained,
}

/// The fuel of each slot: the fuel of the task where the slot is occupied
pub open spec fn fuels_of<T: Task>(slots: Seq<Option<T>>) -> Seq<Option<nat>> {
    Seq::new(
        slots.len(),
        |i: int|
            match slots[i] {
                Some(task) => Some(task.fuel()),
                None => None,
            },
    )
}

/// Whether every occupied slot holds a wake-requesting task
pub open spec fn all_wake<T: Task>(slots: Seq<Option<T>>) -> bool {
    forall|i: int|
        0 <= i < slots.len() ==> (#[trigger] slots[i] matches Some(task) ==> task.wakes())
}

/// Whether the slot fuel `f` belongs to a task that is still live at the
/// start of sweep `s`: a task of fuel `f` reports incomplete in sweeps
/// `0..f` and completes during sweep `f`
pub open spec fn live_at(f: Option<nat>, s: nat) -> bool {
    match f {
        Some(fuel) => fuel >= s,
        None => false,
    }
}

/// How many slots hold a task that is still live at the start of sweep `s`
pub open spec fn count_live(fs: Seq<Option<nat>>, s: nat) -> nat
    decreases fs.len(),
{
    if fs.len() == 0 {
        0
    } else {
        count_live(fs.drop_last(), s) + if live_at(fs.last(), s) {
            1nat
        } else {
            0nat
        }
    }
}

/// How many slots hold a task of fuel exactly `s`: those tasks complete
/// during sweep `s`
pub open spec fn count_exact(fs: Seq<Option<nat>>, s: nat) -> nat
    decreases fs.len(),
{
    if fs.len() == 0 {
        0
    } else {
        count_exact(fs.drop_last(), s) + if fs.last() == Some(s) {
            1nat
        } else {
            0nat
        }
    }
}

/// Whether any slot is occupied
pub open spec fn any_occupied(fs: Seq<Option<nat>>) -> bool {
    exists|i: int| 0 <= i < fs.len() && fs[i] is Some
}

/// The largest fuel among the occupied slots
pub open spec fn max_fuel(fs: Seq<Option<nat>>) -> nat
    decreases fs.len(),
{
    if fs.len() == 0 {
        0
    } else {
        let rest = max_fuel(fs.drop_last());
        match fs.last() {
            Some(fuel) =>
                if fuel > rest {
                    fuel
                } else {
                    rest
                },
            None => rest,
        }
    }
}

/// How many sweeps a run over slots of fuels `fs` performs: the task of
/// largest fuel reports incomplete in that many sweeps and completes in
/// one more
pub open spec fn sweeps_needed(fs: Seq<Option<nat>>) -> nat {
    if any_occupied(fs) {
        max_fuel(fs) + 1
    } else {
        0
    }
}

/// How many blocking waits a run over slots of fuels `fs` issues: one
/// between every two consecutive sweeps
pub open spec fn waits_needed(fs: Seq<Option<nat>>) -> nat {
    if sweeps_needed(fs) == 0 {
        0
    } else {
        (sweeps_needed(fs) - 1) as nat
    }
}

/// The slots that sweep `s` advances among the first `j`, in increasing
/// index order: exactly those still live at the start of the sweep
pub open spec fn sweep_order_upto(fs: Seq<Option<nat>>, s: nat, j: int) -> Seq<int>
    decreases j,
{
    if j <= 0 {
        Seq::empty()
    } else {
        sweep_order_upto(fs, s, j - 1) + if live_at(fs[j - 1], s) {
            seq![j - 1]
        } else {
            Seq::empty()
        }
    }
}

/// The slots that sweep `s` advances, in increasing index order
pub open spec fn sweep_order(fs: Seq<Option<nat>>, s: nat) -> Seq<int> {
    sweep_order_upto(fs, s, fs.len() as int)
}

/// The poll order of a whole run of `n` sweeps: sweep after sweep, each in
/// increasing index order
pub open spec fn poll_order(fs: Seq<Option<nat>>, n: nat) -> Seq<int>
    decreases n,
{
    if n == 0 {
        Seq::empty()
    } else {
        poll_order(fs, (n - 1) as nat) + sweep_order(fs, (n - 1) as nat)
    }
}

/// How many advances the slot of fuel `f` has received after `s` complete
/// sweeps: one per sweep while live, and none once it has completed
pub open spec fn advances_after(f: Option<nat>, s: nat) -> nat {
    match f {
        Some(fuel) =>
            if fuel >= s {
                s
            } else {
                fuel + 1
            },
        None => 0,
    }
}

/// How many advances the slot of fuel `f` receives over a whole run: one
/// per unit of fuel, plus the advance in which the task reports complete
pub open spec fn total_advances(f: Option<nat>) -> nat {
    match f {
        Some(fuel) => fuel + 1,
        None => 0,
    }
}

/// No slot is live at sweep `s` exactly when the live count is zero; a
/// positive count names a live slot
proof fn lemma_count_live_zero_iff(fs: Seq<Option<nat>>, s: nat)
    ensures
        (count_live(fs, s) == 0) <==> (forall|i: int| 0 <= i < fs.len() ==> !live_at(fs[i], s)),
        count_live(fs, s) > 0 ==> exists|i: int| 0 <= i < fs.len() && live_at(fs[i], s),
    decreases fs.len(),
{
    if fs.len() > 0 {
        lemma_count_live_zero_iff(fs.drop_last(), s);
        assert(forall|i: int|
            0 <= i < fs.len() - 1 ==> fs.drop_last()[i] == fs[i]);
        assert(fs.last() == fs[fs.len() - 1]);
        if live_at(fs.last(), s) {
            assert(live_at(fs[fs.len() - 1], s));
        } else if count_live(fs.drop_last(), s) > 0 {
            let i = choose|i: int|
                0 <= i < fs.drop_last().len() && live_at(fs.drop_last()[i], s);
            assert(live_at(fs[i], s));
        }
    }
}

/// A run over slots with the first `n` occupied and the rest empty starts
/// with `n` live tasks
proof fn lemma_count_live_initial(fs: Seq<Option<nat>>, n: int)
    requires
        0 <= n <= fs.len(),
        forall|i: int| 0 <= i < n ==> fs[i] is Some,
        forall|i: int| n <= i < fs.len() ==> fs[i] is None,
    ensures
        count_live(fs, 0) == n,
    decreases fs.len(),
{
    if fs.len() > 0 {
        assert(forall|i: int|
            0 <= i < fs.len() - 1 ==> fs.drop_last()[i] == fs[i]);
        if n == fs.len() {
            lemma_count_live_initial(fs.drop_last(), n - 1);
        } else {
            lemma_count_live_initial(fs.drop_last(), n);
        }
    }
}

/// Sweep `s` carries exactly the tasks of fuel greater than `s` into sweep
/// `s + 1`, and completes exactly those of fuel `s`
proof fn lemma_count_live_split(fs: Seq<Option<nat>>, s: nat)
    ensures
        count_live(fs, s) == count_live(fs, (s + 1) as nat) + count_exact(fs, s),
    decreases fs.len(),
{
    if fs.len() > 0 {
        lemma_count_live_split(fs.drop_last(), s);
    }
}

/// A prefix never holds more fuel-`s` tasks than the whole
proof fn lemma_count_exact_take_le(fs: Seq<Option<nat>>, s: nat, j: int)
    requires
        0 <= j <= fs.len(),
    ensures
        count_exact(fs.take(j), s) <= count_exact(fs, s),
    decreases fs.len(),
{
    if j == fs.len() {
        assert(fs.take(j) =~= fs);
    } else {
        assert(fs.take(j) =~= fs.drop_last().take(j));
        lemma_count_exact_take_le(fs.drop_last(), s, j);
    }
}

/// Extending a prefix by one slot adds that slot's contribution to the
/// fuel-`s` count
proof fn lemma_count_exact_step(fs: Seq<Option<nat>>, s: nat, j: int)
    requires
        0 <= j < fs.len(),
    ensures
        count_exact(fs.take(j + 1), s) == count_exact(fs.take(j), s) + if fs[j] == Some(s) {
            1nat
        } else {
            0nat
        },
{
    assert(fs.take(j + 1).drop_last() =~= fs.take(j));
    assert(fs.take(j + 1).last() == fs[j]);
}

/// Extending a prefix by one slot adds that slot's contribution to the
/// live count
proof fn lemma_count_live_step(fs: Seq<Option<nat>>, s: nat, j: int)
    requires
        0 <= j < fs.len(),
    ensures
        count_live(fs.take(j + 1), s) == count_live(fs.take(j), s) + if live_at(fs[j], s) {
            1nat
        } else {
            0nat
        },
{
    assert(fs.take(j + 1).drop_last() =~= fs.take(j));
    assert(fs.take(j + 1).last() == fs[j]);
}

/// No more slots are live than there are slots
proof fn lemma_count_live_le_len(fs: Seq<Option<nat>>, s: nat)
    ensures
        count_live(fs, s) <= fs.len(),
    decreases fs.len(),
{
    if fs.len() > 0 {
        lemma_count_live_le_len(fs.drop_last(), s);
    }
}

/// Two fuel sequences whose slots are live at `sa` respectively `sb` in
/// exactly the same positions have the same live count
proof fn lemma_count_live_congruent(a: Seq<Option<nat>>, sa: nat, b: Seq<Option<nat>>, sb: nat)
    requires
        a.len() == b.len(),
        forall|i: int| 0 <= i < a.len() ==> (live_at(a[i], sa) <==> live_at(b[i], sb)),
    ensures
        count_live(a, sa) == count_live(b, sb),
    decreases a.len(),
{
    if a.len() > 0 {
        assert(forall|i: int| 0 <= i < a.len() - 1 ==> a.drop_last()[i] == a[i]);
        assert(forall|i: int| 0 <= i < b.len() - 1 ==> b.drop_last()[i] == b[i]);
        assert(a.last() == a[a.len() - 1]);
        assert(b.last() == b[b.len() - 1]);
        lemma_count_live_congruent(a.drop_last(), sa, b.drop_last(), sb);
    }
}

/// Two fuel sequences whose slots are live at `sa` respectively `sb` in
/// exactly the same positions order the same sweep
proof fn lemma_sweep_order_congruent(
    a: Seq<Option<nat>>,
    sa: nat,
    b: Seq<Option<nat>>,
    sb: nat,
    j: int,
)
    requires
        forall|i: int| 0 <= i < j ==> (live_at(a[i], sa) <==> live_at(b[i], sb)),
    ensures
        sweep_order_upto(a, sa, j) == sweep_order_upto(b, sb, j),
    decreases j,
{
    if j > 0 {
        lemma_sweep_order_congruent(a, sa, b, sb, j - 1);
    }
}

/// No occupied slot outlives the largest fuel
proof fn lemma_max_fuel_bound(fs: Seq<Option<nat>>, i: int)
    requires
        0 <= i < fs.len(),
    ensures
        !live_at(fs[i], (max_fuel(fs) + 1) as nat),
    decreases fs.len(),
{
    assert(forall|k: int|
        0 <= k < fs.len() - 1 ==> fs.drop_last()[k] == fs[k]);
    if i < fs.len() - 1 {
        lemma_max_fuel_bound(fs.drop_last(), i);
        assert(max_fuel(fs.drop_last()) <= max_fuel(fs));
    }
}

/// Some occupied slot carries the largest fuel
proof fn lemma_max_fuel_witness(fs: Seq<Option<nat>>)
    requires
        any_occupied(fs),
    ensures
        exists|i: int| 0 <= i < fs.len() && fs[i] == Some(max_fuel(fs)),
    decreases fs.len(),
{
    assert(forall|k: int|
        0 <= k < fs.len() - 1 ==> fs.drop_last()[k] == fs[k]);
    match fs.last() {
        Some(fuel) => {
            if fuel == max_fuel(fs) {
                assert(fs[fs.len() - 1] == Some(max_fuel(fs)));
            } else {
                assert(any_occupied(fs.drop_last())) by {
                    if fs.len() == 1 {
                        assert(fs.drop_last().len() == 0);
                        assert(max_fuel(fs.drop_last()) == 0);
                        assert(max_fuel(fs) == fuel);
                    } else {
                        assert(max_fuel(fs) == max_fuel(fs.drop_last()));
                        lemma_max_fuel_witness_helper(fs.drop_last());
                    }
                }
                lemma_max_fuel_witness(fs.drop_last());
                let i = choose|i: int|
                    0 <= i < fs.len() - 1 && fs.drop_last()[i] == Some(max_fuel(fs.drop_last()));
                assert(fs[i] == Some(max_fuel(fs)));
            }
        },
        None => {
            let w = choose|i: int| 0 <= i < fs.len() && fs[i] is Some;
            assert(0 <= w < fs.len() - 1);
            assert(fs.drop_last()[w] is Some);
            lemma_max_fuel_witness(fs.drop_last());
            let i = choose|i: int|
                0 <= i < fs.len() - 1 && fs.drop_last()[i] == Some(max_fuel(fs.drop_last()));
            assert(fs[i] == Some(max_fuel(fs)));
        },
    }
}

/// A tiny fixed-capacity, single-threaded executor suitable for embedded
/// runtimes.
///
/// # Generics
/// - `T`: The type of tasks to execute
/// - `LEN`: The maximum amount of top-level tasks this executor can execute
///
/// Up to `LEN` tasks are registered while the executor accepts
/// registrations; the run then sweeps all live tasks in registration order,
/// advancing each exactly once per sweep however many wake requests
/// occurred during the sweep, and issues exactly one wait on the event
/// signal between two consecutive sweeps. A slot freed by completion is
/// never reused within the same run.
pub struct Executor<T: Task, const LEN: usize> {
    /// The registered tasks; a slot holds nothing or one live task
    slots: Vec<Option<T>>,
    /// How many tasks have been registered
    len: usize,
    /// Where the executor stands in its lifecycle
    phase: Phase,
    /// How many sweeps the run has performed
    sweeps: Ghost<nat>,
    /// How many waits on the event signal the run has issued
    waits: Ghost<nat>,
    /// How many of those waits observed a pending signal, and so returned
    /// immediately instead of blocking
    signaled_waits: Ghost<nat>,
    /// How many times each slot's task has been advanced
    advances: Ghost<Seq<nat>>,
    /// The slot indices the run has advanced, in order
    polls: Ghost<Seq<int>>,
}

impl<T: Task, const LEN: usize> Executor<T, LEN> {
    /// The slots of the executor
    pub closed spec fn slots_view(&self) -> Seq<Option<T>> {
        self.slots@
    }

    /// How many tasks have been registered
    pub closed spec fn registered(&self) -> nat {
        self.len as nat
    }

    /// Where the executor stands in its lifecycle
    pub closed spec fn phase(&self) -> Phase {
        self.phase
    }

    /// How many sweeps the run has performed
    pub closed spec fn sweep_count(&self) -> nat {
        self.sweeps@
    }

    /// How many waits on the event signal the run has issued
    pub closed spec fn wait_count(&self) -> nat {
        self.waits@
    }

    /// How many of the run's waits observed a pending signal, and so
    /// returned immediately instead of blocking
    pub closed spec fn signaled_wait_count(&self) -> nat {
        self.signaled_waits@
    }

    /// How many times each slot's task has been advanced
    pub closed spec fn advance_counts(&self) -> Seq<nat> {
        self.advances@
    }

    /// The slot indices the run has advanced, in order
    pub closed spec fn poll_trace(&self) -> Seq<int> {
        self.polls@
    }

    /// Well-formedness: the executor has exactly `LEN` slots, the
    /// registered tasks sit in the lowest slots, and before the run starts
    /// every counter is zero
    pub closed spec fn wf(&self) -> bool {
        &&& self.slots@.len() == LEN as int
        &&& self.len <= LEN
        &&& self.advances@.len() == LEN as int
        &&& forall|i: int| self.len <= i < LEN as int ==> self.slots@[i] is None
        &&& self.phase is Accepting ==> {
            &&& forall|i: int| 0 <= i < self.len as int ==> self.slots@[i] is Some
            &&& self.sweeps@ == 0
            &&& self.waits@ == 0
            &&& self.signaled_waits@ == 0
            &&& self.polls@.len() == 0
            &&& forall|i: int| 0 <= i < LEN as int ==> self.advances@[i] == 0
        }
    }

    /// Creates a new executor with all slots empty, accepting
    /// registrations
    pub fn new() -> (executor: Self)
        ensures
            executor.wf(),
            executor.phase() is Accepting,
            executor.registered() == 0,
            executor.slots_view().len() == LEN as int,
            forall|i: int| 0 <= i < LEN as int ==> executor.slots_view()[i] is None,
    {
        let mut slots: Vec<Option<T>> = Vec::new();
        let mut i: usize = 0;
        while i < LEN
            invariant
                i <= LEN,
                slots@.len() == i as int,
                forall|j: int| 0 <= j < i as int ==> slots@[j] is None,
            decreases LEN - i,
        {
            slots.push(None);
            i = i + 1;
        }
        Executor {
            slots,
            len: 0,
            phase: Phase::Accepting,
            sweeps: Ghost(0),
            waits: Ghost(0),
            signaled_waits: Ghost(0),
            advances: Ghost(Seq::new(LEN as nat, |i: int| 0nat)),
            polls: Ghost(Seq::empty()),
        }
    }

    /// Registers a new task for execution.
    ///
    /// Valid only while the executor accepts registrations. The task goes
    /// into the lowest-index empty slot; with no slot left the
    /// registration fails with a capacity error and no existing slot is
    /// mutated.
    pub fn register(&mut self, task: T) -> (r: Result<(), Error>)
        requires
            old(self).wf(),
            old(self).phase() is Accepting,
        ensures
            final(self).wf(),
            final(self).phase() is Accepting,
            (r is Ok) <==> old(self).registered() < LEN as nat,
            r is Ok ==> final(self).registered() == old(self).registered() + 1,
            r is Ok ==> final(self).slots_view() == old(self).slots_view().update(
                old(self).registered() as int,
                Some(task),
            ),
            r is Err ==> final(self).registered() == old(self).registered(),
            r is Err ==> final(self).slots_view() == old(self).slots_view(),
            r matches Err(e) ==> e.message@
                == "Executor has not enough space to register more futures"@,
    {
        // Get the next free slot
        if self.len >= LEN {
            return Err(
                Error::new(
                    "Executor has not enough space to register more futures",
                    "executor.rs",
                    553,
                ),
            );
        }
        // Store the task
        let index = self.len;
        let slot = &mut self.slots[index];
        *slot = Some(task);
        self.len = self.len + 1;
        Ok(())
    }

    /// One sweep of the scheduling loop: advances every occupied slot
    /// exactly once, in increasing slot order, and frees the slots whose
    /// tasks report complete. Returns how many slots remain occupied; once
    /// none is left the executor transitions to drained.
    ///
    /// This is the binding surface for a hardware embedding: a platform
    /// loop alternates one sweep with one blocking wait on its event
    /// primitive for as long as slots remain occupied, consuming a wake
    /// retained in the poll context instead of sleeping. [`Executor::run`]
    /// is exactly that loop over the crate's own retained signal.
    #[verifier::loop_isolation(false)]
    pub fn sweep(&mut self, ctx: &mut PollContext) -> (live: usize)
        requires
            old(self).wf(),
            !(old(self).phase() is Drained),
        ensures
            final(self).wf(),
            final(self).registered() == old(self).registered(),
            final(self).slots_view().len() == LEN as int,
            final(self).advance_counts().len() == LEN as int,
            final(self).sweep_count() == old(self).sweep_count() + 1,
            final(self).wait_count() == old(self).wait_count(),
            final(self).signaled_wait_count() == old(self).signaled_wait_count(),
            forall|i: int|
                0 <= i < LEN as int ==> (final(self).slots_view()[i] is Some <==> live_at(
                    fuels_of(old(self).slots_view())[i],
                    1,
                )),
            forall|i: int|
                0 <= i < LEN as int ==> ((#[trigger] final(self).slots_view()[i]) matches Some(t)
                    ==> old(self).slots_view()[i] matches Some(t0) && t.fuel() + 1 == t0.fuel()
                    && t.wakes() == t0.wakes()),
            forall|i: int|
                0 <= i < LEN as int ==> final(self).advance_counts()[i] == old(self).advance_counts()[i]
                    + (if fuels_of(old(self).slots_view())[i] is Some {
                        1nat
                    } else {
                        0nat
                    }),
            final(self).poll_trace() == old(self).poll_trace() + sweep_order(
                fuels_of(old(self).slots_view()),
                0,
            ),
            live as nat == count_live(fuels_of(old(self).slots_view()), 1),
            live > 0 ==> final(self).phase() is Running,
            live == 0 ==> final(self).phase() is Drained,
            old(ctx).signaled() ==> final(ctx).signaled(),
            final(ctx).wake_count() >= old(ctx).wake_count(),
            (all_wake(old(self).slots_view()) && live > 0) ==> final(ctx).signaled(),
    {
        let ghost orig: Seq<Option<T>> = self.slots@;
        let ghost fse: Seq<Option<nat>> = fuels_of(orig);
        let ghost n0: int = self.len as int;
        let ghost adv0: Seq<nat> = self.advances@;
        let ghost polls0: Seq<int> = self.polls@;
        let ghost s0: nat = self.sweeps@;
        let ghost w0: nat = self.waits@;
        let ghost sw0: nat = self.signaled_waits@;
        let ghost sig0: bool = ctx.signaled();
        let ghost wc0: nat = ctx.wake_count();
        self.phase = Phase::Running;
        let mut live: usize = 0;
        // Advance each occupied slot exactly once, in slot order
        let mut index: usize = 0;
        while index < LEN
            invariant
                index <= LEN,
                live <= index,
                self.slots@.len() == LEN as int,
                self.advances@.len() == LEN as int,
                self.len as int == n0,
                self.phase is Running,
                self.sweeps@ == s0,
                self.waits@ == w0,
                self.signaled_waits@ == sw0,
                forall|i: int|
                    0 <= i < index as int ==> (self.slots@[i] is Some <==> live_at(fse[i], 1)),
                forall|i: int|
                    0 <= i < index as int ==> ((#[trigger] self.slots@[i]) matches Some(t)
                        ==> orig[i] matches Some(t0) && t.fuel() + 1 == t0.fuel() && t.wakes()
                        == t0.wakes()),
                forall|i: int|
                    0 <= i < index as int ==> self.advances@[i] == adv0[i] + (if fse[i] is Some {
                        1nat
                    } else {
                        0nat
                    }),
                forall|i: int| index as int <= i < LEN as int ==> self.slots@[i] == orig[i],
                forall|i: int| index as int <= i < LEN as int ==> self.advances@[i] == adv0[i],
                live as nat == count_live(fse.take(index as int), 1),
                self.polls@ == polls0 + sweep_order_upto(fse, 0, index as int),
                sig0 ==> ctx.signaled(),
                ctx.wake_count() >= wc0,
                (all_wake(orig) && exists|i: int|
                    0 <= i < index as int && live_at(fse[i], 1)) ==> ctx.signaled(),
            decreases LEN - index,
        {
            proof {
                lemma_count_live_step(fse, 1, index as int);
                lemma_count_live_le_len(fse.take(index as int + 1), 1);
            }
            let slot = &mut self.slots[index];
            match slot.take() {
                None => {},
                Some(mut task) => {
                    // Advance the task; free the slot if it is done
                    let progress = task.advance(ctx);
                    match progress {
                        Progress::Incomplete => {
                            *slot = Some(task);
                            live = live + 1;
                        },
                        Progress::Complete => {},
                    }
                    self.polls = Ghost(self.polls@.push(index as int));
                },
            }
            proof {
                if live_at(fse[index as int], 0) {
                    assert(sweep_order_upto(fse, 0, index as int + 1) =~= sweep_order_upto(
                        fse,
                        0,
                        index as int,
                    ).push(index as int));
                    assert(polls0 + sweep_order_upto(fse, 0, index as int + 1) =~= (polls0
                        + sweep_order_upto(fse, 0, index as int)).push(index as int));
                } else {
                    assert(sweep_order_upto(fse, 0, index as int + 1) =~= sweep_order_upto(
                        fse,
                        0,
                        index as int,
                    ));
                }
            }
            self.advances = Ghost(
                self.advances@.update(
                    index as int,
                    adv0[index as int] + if fse[index as int] is Some {
                        1nat
                    } else {
                        0nat
                    },
                ),
            );
            index = index + 1;
        }
        // The sweep is over: exactly the tasks that were out of fuel have
        // completed, and the executor is drained once no slot stays live
        proof {
            assert(fse.take(LEN as int) =~= fse);
            if live > 0 {
                lemma_count_live_zero_iff(fse, 1);
            }
        }
        self.sweeps = Ghost(self.sweeps@ + 1);
        if live == 0 {
            self.phase = Phase::Drained;
        }
        live
    }

    /// Runs the executor until every registered task has completed.
    ///
    /// The run constructs exactly one waker, then repeats the sweep until
    /// no slot remains occupied, and — only if some slot remains occupied —
    /// waits once on the event signal between two consecutive sweeps. A
    /// hardware embedding drives [`Executor::sweep`] with the platform's
    /// own blocking wait instead.
    ///
    /// The contract accounts for the whole run: a task of fuel `f` is
    /// advanced exactly `f + 1` times and never again after the sweep in
    /// which it completes; the poll trace is exactly one advance per live
    /// slot per sweep, in registration order within each sweep, however
    /// many wake requests occurred; the run takes exactly one sweep more
    /// than the largest fuel, with exactly one wait between consecutive
    /// sweeps; and when every registered task requests wakes, every one of
    /// those waits finds the signal already raised, so none of them can
    /// block: no wakeup is lost.
    #[verifier::loop_isolation(false)]
    pub fn run(&mut self)
        requires
            old(self).wf(),
            old(self).phase() is Accepting,
        ensures
            final(self).wf(),
            final(self).phase() is Drained,
            final(self).registered() == old(self).registered(),
            final(self).slots_view().len() == LEN as int,
            final(self).advance_counts().len() == LEN as int,
            forall|i: int| 0 <= i < LEN as int ==> final(self).slots_view()[i] is None,
            final(self).sweep_count() == sweeps_needed(fuels_of(old(self).slots_view())),
            final(self).wait_count() == waits_needed(fuels_of(old(self).slots_view())),
            forall|i: int|
                0 <= i < LEN as int ==> final(self).advance_counts()[i] == total_advances(
                    fuels_of(old(self).slots_view())[i],
                ),
            all_wake(old(self).slots_view()) ==> final(self).signaled_wait_count() == final(self).wait_count(),
            final(self).poll_trace() == poll_order(
                fuels_of(old(self).slots_view()),
                sweeps_needed(fuels_of(old(self).slots_view())),
            ),
    {
        let ghost orig: Seq<Option<T>> = self.slots@;
        let ghost fs: Seq<Option<nat>> = fuels_of(orig);
        let ghost n0: int = self.len as int;
        self.phase = Phase::Running;

        // Create waker and context
        let mut ctx = PollContext::new();

        // Repeatedly sweep all live tasks until they have completed
        let mut remaining: usize = self.len;
        proof {
            lemma_count_live_initial(fs, n0);
            assert(self.polls@ =~= poll_order(fs, self.sweeps@));
        }
        while remaining > 0
            invariant
                self.wf(),
                self.slots@.len() == LEN as int,
                self.advances@.len() == LEN as int,
                self.len as int == n0,
                !(self.phase is Accepting),
                remaining > 0 ==> self.phase is Running,
                forall|i: int|
                    0 <= i < LEN as int ==> (self.slots@[i] is Some <==> live_at(
                        fs[i],
                        self.sweeps@,
                    )),
                forall|i: int|
                    0 <= i < LEN as int ==> ((#[trigger] self.slots@[i]) matches Some(t)
                        ==> orig[i] matches Some(t0) && t.fuel() + self.sweeps@ == t0.fuel()
                        && t.wakes() == t0.wakes()),
                forall|i: int|
                    0 <= i < LEN as int ==> self.advances@[i] == advances_after(
                        fs[i],
                        self.sweeps@,
                    ),
                remaining as nat == count_live(fs, self.sweeps@),
                remaining > 0 ==> self.sweeps@ <= max_fuel(fs),
                self.sweeps@ <= max_fuel(fs) + 1,
                !any_occupied(fs) ==> self.sweeps@ == 0,
                self.waits@ == if remaining > 0 {
                    self.sweeps@
                } else if self.sweeps@ == 0 {
                    0nat
                } else {
                    (self.sweeps@ - 1) as nat
                },
                all_wake(orig) ==> self.signaled_waits@ == self.waits@,
                self.polls@ == poll_order(fs, self.sweeps@),
            decreases max_fuel(fs) + 1 - self.sweeps@,
        {
            let ghost s: nat = self.sweeps@;
            let ghost pre: Seq<Option<T>> = self.slots@;
            let ghost fse: Seq<Option<nat>> = fuels_of(pre);
            proof {
                lemma_count_live_zero_iff(fs, s);
                let wl = choose|i: int| 0 <= i < fs.len() && live_at(fs[i], s);
                assert(fs[wl] is Some);
                assert(any_occupied(fs));
                // A slot holds one unit less fuel than it started with for
                // every sweep it survived, so liveness one sweep ahead of
                // the current state matches liveness at `s + 1` of the
                // initial state
                assert forall|i: int|
                    0 <= i < LEN as int implies (live_at(fse[i], 1) <==> live_at(
                    fs[i],
                    (s + 1) as nat,
                )) by {
                    assert(self.slots@[i] is Some <==> live_at(fs[i], s));
                }
                assert forall|i: int|
                    0 <= i < LEN as int implies (live_at(fse[i], 0) <==> live_at(fs[i], s)) by {
                    assert(self.slots@[i] is Some <==> live_at(fs[i], s));
                }
                if all_wake(orig) {
                    assert forall|i: int|
                        0 <= i < LEN as int implies ((#[trigger] pre[i]) matches Some(t)
                        ==> t.wakes()) by {
                        if pre[i] is Some {
                            assert(orig[i] matches Some(t0) ==> t0.wakes());
                        }
                    }
                }
            }
            remaining = self.sweep(&mut ctx);
            proof {
                lemma_count_live_congruent(fse, 1, fs, (s + 1) as nat);
                lemma_sweep_order_congruent(fse, 0, fs, s, LEN as int);
                assert(sweep_order(fse, 0) == sweep_order(fs, s));
                assert(poll_order(fs, (s + 1) as nat) == poll_order(fs, s) + sweep_order(fs, s));
                assert forall|i: int|
                    0 <= i < LEN as int implies self.advances@[i] == advances_after(
                    fs[i],
                    (s + 1) as nat,
                ) by {
                    assert(fse[i] is Some <==> live_at(fs[i], s));
                }
            }
            if remaining > 0 {
                proof {
                    lemma_count_live_zero_iff(fs, (s + 1) as nat);
                    let w = choose|i: int| 0 <= i < LEN as int && live_at(fs[i], (s + 1) as nat);
                    lemma_max_fuel_bound(fs, w);
                }
                let had_signal = ctx.wait_for_event();
                self.waits = Ghost(self.waits@ + 1);
                if had_signal {
                    self.signaled_waits = Ghost(self.signaled_waits@ + 1);
                }
            }
        }
        self.phase = Phase::Drained;
        proof {
            lemma_count_live_zero_iff(fs, self.sweeps@);
            if any_occupied(fs) {
                lemma_max_fuel_witness(fs);
                let w = choose|i: int| 0 <= i < fs.len() && fs[i] == Some(max_fuel(fs));
                assert(!live_at(fs[w], self.sweeps@));
                assert(self.sweeps@ == max_fuel(fs) + 1);
            }
            assert(fs == fuels_of(old(self).slots_view()));
            assert forall|i: int| 0 <= i < LEN as int implies self.slots@[i] is None by {
                assert(!live_at(fs[i], self.sweeps@));
            }
            assert forall|i: int|
                0 <= i < LEN as int implies self.advances@[i] == total_advances(fs[i]) by {
                assert(!live_at(fs[i], self.sweeps@));
            }
        }
    }

    /// Whether the executor is drained: the run is over and every
    /// registered task has completed
    pub fn is_drained(&self) -> (drained: bool)
        ensures
            drained == (self.phase() is Drained),
    {
        match self.phase {
            Phase::Drained => true,
            Phase::Accepting => false,
            Phase::Running => false,
        }
    }
}

/// The slots of a fresh capacity-`len` executor after registering `tasks`
/// in order: one task per slot from the lowest index up, the rest empty
pub open spec fn initial_slots<T: Task>(tasks: Seq<T>, len: nat) -> Seq<Option<T>> {
    Seq::new(
        len,
        |i: int|
            if 0 <= i < tasks.len() {
                Some(tasks[i])
            } else {
                None
            },
    )
}

/// Liveness law: a task that requires exactly `f` wake-requesting
/// incomplete advances before completing — and no co-registered task
/// outlasts it — is advanced exactly `f + 1` times, across exactly
/// `f + 1` sweeps, with exactly one blocking wait between consecutive
/// sweeps.
pub proof fn lemma_liveness(f: nat, fs: Seq<Option<nat>>, i: int)
    requires
        0 <= i < fs.len(),
        fs[i] == Some(f),
        max_fuel(fs) == f,
    ensures
        total_advances(fs[i]) == f + 1,
        sweeps_needed(fs) == f + 1,
        waits_needed(fs) == f,
{
    assert(fs[i] is Some);
    assert(any_occupied(fs));
}

/// The run-to-completion entry point: creates an executor of capacity
/// `LEN`, registers the given tasks in order and runs them until every one
/// has completed.
///
/// Fails with a capacity error — before any task executes — exactly when
/// more tasks are handed in than the executor has slots. On success the
/// ghost witness is the drained executor of the whole run, pinning it to
/// what [`Executor::run`] specifies for exactly the given tasks: the sweep
/// count, the wait count, every task's advance count and the complete poll
/// order.
#[verifier::loop_isolation(false)]
pub fn run_to_completion<T: Task, const LEN: usize>(tasks: Vec<T>) -> (res: (
    Result<(), Error>,
    Ghost<Executor<T, LEN>>,
))
    ensures
        (res.0 is Ok) <==> tasks@.len() <= LEN as nat,
        res.0 matches Err(e) ==> e.message@
            == "Executor has not enough space to register more futures"@,
        res.0 is Ok ==> {
            let executor = res.1@;
            let slots0 = initial_slots(tasks@, LEN as nat);
            let fs = fuels_of(slots0);
            &&& executor.wf()
            &&& executor.phase() is Drained
            &&& executor.registered() == tasks@.len()
            &&& executor.slots_view().len() == LEN as int
            &&& (forall|i: int| 0 <= i < LEN as int ==> executor.slots_view()[i] is None)
            &&& executor.sweep_count() == sweeps_needed(fs)
            &&& executor.wait_count() == waits_needed(fs)
            &&& executor.advance_counts().len() == LEN as int
            &&& (forall|i: int|
                0 <= i < LEN as int ==> executor.advance_counts()[i] == total_advances(fs[i]))
            &&& executor.poll_trace() == poll_order(fs, sweeps_needed(fs))
            &&& (all_wake(slots0) ==> executor.signaled_wait_count() == executor.wait_count())
        },
{
    let ghost all: Seq<T> = tasks@;
    let mut tasks = tasks;
    let mut executor: Executor<T, LEN> = Executor::new();
    let mut registered: usize = 0;

    // Register the tasks in order
    while tasks.len() > 0
        invariant
            executor.wf(),
            executor.phase() is Accepting,
            executor.registered() == registered as nat,
            executor.slots_view().len() == LEN as int,
            registered <= LEN,
            registered as int + tasks@.len() == all.len(),
            tasks@ == all.skip(registered as int),
            forall|i: int| 0 <= i < registered as int ==> executor.slots_view()[i] == Some(all[i]),
            forall|i: int|
                registered as int <= i < LEN as int ==> executor.slots_view()[i] is None,
        decreases tasks@.len(),
    {
        let task = tasks.remove(0);
        proof {
            assert(all.skip(registered as int).remove(0) =~= all.skip(registered as int + 1));
        }
        match executor.register(task) {
            Ok(_) => {
                registered = registered + 1;
            },
            Err(e) => {
                return (Err(e), Ghost(executor));
            },
        }
    }

    // Execute the tasks
    proof {
        assert(executor.slots_view() =~= initial_slots(all, LEN as nat));
    }
    executor.run();
    (Ok(()), Ghost(executor))
}

/// A nonzero largest fuel can only come from some occupied slot
proof fn lemma_max_fuel_witness_helper(fs: Seq<Option<nat>>)
    requires
        max_fuel(fs) > 0,
    ensures
        any_occupied(fs),
    decreases fs.len(),
{
    if fs.len() > 0 {
        if fs.last() is Some {
            assert(fs[fs.len() - 1] is Some);
        } else {
            lemma_max_fuel_witness_helper(fs.drop_last());
            let i = choose|i: int| 0 <= i < fs.len() - 1 && fs.drop_last()[i] is Some;
            assert(fs[i] is Some);
        }
    }
}

} // verus!
