use crate::counter::{CounterModel, LockOutcome, SharedCounter};
use vstd::prelude::*;

verus! {

/// Where one incrementing unit stands: waiting for the lock, holding it
/// with the value it read, or finished.
#[derive(Debug, Clone, Copy, PartialEq, Eq, Structural)]
pub enum Phase {
    Waiting,
    Holding(u64),
    Done,
}

/// The abstract state of a group of units that each add one to a shared
/// counter under its lock, by reading the value and writing it back plus one.
pub struct RunModel {
    pub counter: CounterModel,
    pub phases: Seq<Phase>,
    pub initial: int,
}

/// How many units of `s` have finished.
pub open spec fn done_count(s: Seq<Phase>) -> nat
    decreases s.len(),
{
    if s.len() == 0 {
        0
    } else {
        done_count(s.drop_last()) + if s.last() is Done {
            1nat
        } else {
            0nat
        }
    }
}

pub open spec fn done_weight(p: Phase) -> int {
    if p is Done {
        1
    } else {
        0
    }
}

impl RunModel {
    /// `n` units, all waiting, on a counter created with `initial`.
    pub open spec fn spawned(n: nat, initial: int) -> RunModel {
        RunModel {
            counter: CounterModel::fresh(initial),
            phases: Seq::new(n, |i: int| Phase::Waiting),
            initial,
        }
    }

    /// One step of unit `u`, chosen by the scheduler. A waiting unit takes
    /// the lock if it is free and reads the value; a holding unit writes back
    /// what it read plus one and releases the lock.
    pub open spec fn step(self, u: nat) -> RunModel {
        if u >= self.phases.len() {
            self
        } else {
            match self.phases[u as int] {
                Phase::Waiting => {
                    if self.counter.holder is Some {
                        self
                    } else {
                        RunModel {
                            counter: self.counter.after_lock(u as u64),
                            phases: self.phases.update(u as int, Phase::Holding(self.counter.value as u64)),
                            ..self
                        }
                    }
                },
                Phase::Holding(v) => RunModel {
                    counter: self.counter.after_write(u as u64, v + 1).after_release(u as u64, false),
                    phases: self.phases.update(u as int, Phase::Done),
                    ..self
                },
                Phase::Done => self,
            }
        }
    }

    /// The state after the steps of `schedule`, in order.
    pub open spec fn run(self, schedule: Seq<nat>) -> RunModel
        decreases schedule.len(),
    {
        if schedule.len() == 0 {
            self
        } else {
            self.run(schedule.drop_last()).step(schedule.last())
        }
    }

    pub open spec fn all_done(self) -> bool {
        forall|i: int| 0 <= i < self.phases.len() ==> self.phases[i] is Done
    }

    /// The lock is held exactly by the one unit in its critical section,
    /// which read the current value, and every finished unit has added one.
    pub open spec fn inv(self) -> bool {
        &&& 0 <= self.initial
        &&& self.initial + self.phases.len() <= u64::MAX
        &&& self.counter.value == self.initial + done_count(self.phases)
        &&& !self.counter.poisoned
        &&& self.counter.handles >= 1
        &&& self.counter.holder is Some ==> self.counter.holder->0 < self.phases.len()
        &&& forall|i: int|
            #![trigger self.phases[i]]
            0 <= i < self.phases.len() ==> ((self.phases[i] is Holding) <==> self.counter.holder
                == Some(i as u64))
        &&& forall|i: int|
            #![trigger self.phases[i]]
            0 <= i < self.phases.len() && self.phases[i] is Holding ==> self.phases[i]->Holding_0
                == self.counter.value
    }
}

proof fn lemma_done_count_bound(s: Seq<Phase>)
    ensures
        done_count(s) <= s.len(),
    decreases s.len(),
{
    if s.len() > 0 {
        lemma_done_count_bound(s.drop_last());
    }
}

proof fn lemma_done_count_update(s: Seq<Phase>, i: int, p: Phase)
    requires
        0 <= i < s.len(),
    ensures
        done_count(s.update(i, p)) == done_count(s) - done_weight(s[i]) + done_weight(p),
    decreases s.len(),
{
    let t = s.update(i, p);
    if i == s.len() - 1 {
        assert(t.drop_last() =~= s.drop_last());
    } else {
        assert(t.drop_last() =~= s.drop_last().update(i, p));
        lemma_done_count_update(s.drop_last(), i, p);
    }
}

proof fn lemma_done_count_all(s: Seq<Phase>)
    requires
        forall|i: int| 0 <= i < s.len() ==> s[i] is Done,
    ensures
        done_count(s) == s.len(),
    decreases s.len(),
{
    if s.len() > 0 {
        lemma_done_count_all(s.drop_last());
    }
}

proof fn lemma_done_count_none(n: nat)
    ensures
        done_count(Seq::new(n, |i: int| Phase::Waiting)) == 0,
    decreases n,
{
    if n > 0 {
        let s = Seq::new(n, |i: int| Phase::Waiting);
        assert(s.drop_last() =~= Seq::new((n - 1) as nat, |i: int| Phase::Waiting));
        lemma_done_count_none((n - 1) as nat);
    }
}

/// A unit that has not finished leaves room for one more increment.
proof fn lemma_room_for_unfinished(s: RunModel, u: int)
    requires
        s.inv(),
        0 <= u < s.phases.len(),
        !(s.phases[u] is Done),
    ensures
        s.counter.value < s.initial + s.phases.len(),
{
    lemma_done_count_update(s.phases, u, Phase::Done);
    lemma_done_count_bound(s.phases.update(u, Phase::Done));
}

pub proof fn lemma_spawned_inv(n: nat, initial: int)
    requires
        0 <= initial,
        initial + n <= u64::MAX,
    ensures
        RunModel::spawned(n, initial).inv(),
{
    lemma_done_count_none(n);
}

pub proof fn lemma_step_inv(s: RunModel, u: nat)
    requires
        s.inv(),
    ensures
        s.step(u).inv(),
        s.step(u).phases.len() == s.phases.len(),
        s.step(u).initial == s.initial,
{
    if u < s.phases.len() {
        let ui = u as int;
        match s.phases[ui] {
            Phase::Waiting => {
                if s.counter.holder is None {
                    lemma_done_count_update(s.phases, ui, Phase::Holding(s.counter.value as u64));
                    lemma_room_for_unfinished(s, ui);
                    let t = s.step(u);
                    assert forall|i: int| 0 <= i < t.phases.len() implies ((t.phases[i] is Holding)
                        <==> t.counter.holder == Some(i as u64)) by {
                        if i != ui {
                            assert(s.phases[i] is Holding <==> s.counter.holder == Some(i as u64));
                            assert(i as u64 != u as u64);
                        }
                    }
                }
            },
            Phase::Holding(v) => {
                lemma_done_count_update(s.phases, ui, Phase::Done);
                lemma_room_for_unfinished(s, ui);
                let t = s.step(u);
                assert forall|i: int| 0 <= i < t.phases.len() implies ((t.phases[i] is Holding)
                    <==> t.counter.holder == Some(i as u64)) by {
                    if i != ui {
                        assert(s.phases[i] is Holding <==> s.counter.holder == Some(i as u64));
                        assert(i as u64 != u as u64);
                    }
                }
            },
            Phase::Done => {},
        }
    }
}

/// No lost updates: whatever order the scheduler picks for the steps of `n`
/// units, the lock discipline holds, and once every unit has finished the
/// counter has gone up by exactly `n`.
pub proof fn lemma_no_lost_updates(n: nat, initial: int, schedule: Seq<nat>)
    requires
        0 <= initial,
        initial + n <= u64::MAX,
    ensures
        RunModel::spawned(n, initial).run(schedule).inv(),
        RunModel::spawned(n, initial).run(schedule).phases.len() == n,
        RunModel::spawned(n, initial).run(schedule).initial == initial,
        RunModel::spawned(n, initial).run(schedule).all_done() ==> RunModel::spawned(
            n,
            initial,
        ).run(schedule).counter.value == initial + n,
    decreases schedule.len(),
{
    let s = RunModel::spawned(n, initial).run(schedule);
    if schedule.len() == 0 {
        lemma_spawned_inv(n, initial);
    } else {
        lemma_no_lost_updates(n, initial, schedule.drop_last());
        lemma_step_inv(RunModel::spawned(n, initial).run(schedule.drop_last()), schedule.last());
    }
    if s.all_done() {
        lemma_done_count_all(s.phases);
    }
}

/// `n` units that each add one to a shared counter under its lock. The
/// scheduler drives them one step at a time, in any order.
pub struct IncrementRun {
    counter: SharedCounter,
    phases: Vec<Phase>,
    initial: u64,
}

impl View for IncrementRun {
    type V = RunModel;

    closed spec fn view(&self) -> RunModel {
        RunModel { counter: self.counter@, phases: self.phases@, initial: self.initial as int }
    }
}

impl IncrementRun {
    /// Starts `n` waiting units on a fresh counter holding `initial`.
    pub fn spawn(n: usize, initial: u64) -> (r: IncrementRun)
        requires
            initial + n <= u64::MAX,
        ensures
            r@ == RunModel::spawned(n as nat, initial as int),
            r@.inv(),
    {
        let mut phases: Vec<Phase> = Vec::new();
        let mut i: usize = 0;
        while i < n
            invariant
                i <= n,
                phases@ =~= Seq::new(i as nat, |j: int| Phase::Waiting),
            decreases n - i,
        {
            phases.push(Phase::Waiting);
            i = i + 1;
        }
        let r = IncrementRun { counter: SharedCounter::new(initial), phases, initial };
        proof {
            lemma_spawned_inv(n as nat, initial as int);
        }
        r
    }

    pub fn unit_count(&self) -> (r: usize)
        ensures
            r == self@.phases.len(),
    {
        self.phases.len()
    }

    pub fn phase(&self, u: usize) -> (r: Phase)
        requires
            u < self@.phases.len(),
        ensures
            r == self@.phases[u as int],
    {
        self.phases[u]
    }

    pub fn counter(&self) -> (r: &SharedCounter)
        ensures
            r@ == self@.counter,
    {
        &self.counter
    }

    /// Runs one step of unit `u`; an index past the last unit does nothing.
    pub fn step(&mut self, u: usize)
        requires
            old(self)@.inv(),
        ensures
            final(self)@ == old(self)@.step(u as nat),
            final(self)@.inv(),
    {
        proof {
            lemma_step_inv(self@, u as nat);
        }
        if u >= self.phases.len() {
            return;
        }
        let unit = u as u64;
        match self.phases[u] {
            Phase::Waiting => {
                match self.counter.lock(unit) {
                    LockOutcome::Busy => {},
                    _ => {
                        if let Ok(v) = self.counter.read(unit) {
                            self.phases.set(u, Phase::Holding(v));
                        }
                    },
                }
            },
            Phase::Holding(v) => {
                proof {
                    lemma_room_for_unfinished(self@, u as int);
                }
                let _ = self.counter.write(unit, v + 1);
                let _ = self.counter.release(unit, false);
                self.phases.set(u, Phase::Done);
            },
            Phase::Done => {},
        }
    }

    /// Waits for unit `u` to finish, stepping the current holder of the lock
    /// first when it is another unit. Finished units stay finished.
    pub fn join_unit(&mut self, u: usize)
        requires
            old(self)@.inv(),
            u < old(self)@.phases.len(),
        ensures
            final(self)@.inv(),
            final(self)@.phases.len() == old(self)@.phases.len(),
            final(self)@.initial == old(self)@.initial,
            final(self)@.phases[u as int] is Done,
            forall|j: int|
                0 <= j < old(self)@.phases.len() && old(self)@.phases[j] is Done
                    ==> final(self)@.phases[j] is Done,
    {
        match self.phases[u] {
            Phase::Done => {},
            Phase::Holding(_) => {
                self.step(u);
            },
            Phase::Waiting => {
                if let Some(w) = self.counter.holder() {
                    let n = self.phases.len();
                    assert(w < n);
                    assert(self@.phases[w as int] is Holding);
                    let wu = w as usize;
                    assert(wu as nat as u64 == w);
                    self.step(wu);
                }
                assert(self@.counter.holder is None);
                assert(self@.phases[u as int] is Waiting);
                self.step(u);
                assert(self@.phases[u as int] is Holding);
                self.step(u);
            },
        }
    }

    /// Joins every unit, in order. Afterwards all have finished and the
    /// counter has gone up by exactly the number of units.
    pub fn join_all(&mut self)
        requires
            old(self)@.inv(),
        ensures
            final(self)@.inv(),
            final(self)@.all_done(),
            final(self)@.phases.len() == old(self)@.phases.len(),
            final(self)@.counter.value == old(self)@.initial + old(self)@.phases.len(),
    {
        let n = self.phases.len();
        let mut u: usize = 0;
        while u < n
            invariant
                u <= n,
                n == self@.phases.len(),
                n == old(self)@.phases.len(),
                self@.initial == old(self)@.initial,
                self@.inv(),
                forall|j: int| 0 <= j < u ==> self@.phases[j] is Done,
            decreases n - u,
        {
            self.join_unit(u);
            u = u + 1;
        }
        proof {
            lemma_done_count_all(self@.phases);
        }
    }
}

/// Spawns `n` units on a counter holding `initial`, joins them all and
/// returns the final value.
pub fn run_increments(n: usize, initial: u64) -> (r: u64)
    requires
        initial + n <= u64::MAX,
    ensures
        r == initial + n,
{
    let mut run = IncrementRun::spawn(n, initial);
    run.join_all();
    let reader = n as u64;
    assert(run@.counter.holder is None) by {
        if run@.counter.holder is Some {
            let w = run@.counter.holder->0 as int;
            assert(run@.phases[w] is Done);
        }
    }
    let _ = run.counter.lock(reader);
    let r = match run.counter.read(reader) {
        Ok(v) => v,
        Err(_) => 0,
    };
    let _ = run.counter.release(reader, false);
    r
}

} // verus!
