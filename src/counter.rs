use vstd::prelude::*;

verus! {

/// The abstract state of a guarded counter: its value, the unit that holds
/// the lock (if any), whether a holder failed inside its critical section,
/// and how many handles share the storage.
pub struct CounterModel {
    pub value: int,
    pub holder: Option<u64>,
    pub poisoned: bool,
    pub handles: nat,
}

/// What an attempt to take the lock found.
#[derive(Debug, Clone, Copy, PartialEq, Eq, Structural)]
pub enum LockOutcome {
    /// The lock was free and now belongs to the caller.
    Acquired,
    /// The lock was free and now belongs to the caller, but a previous holder
    /// failed while holding it: the caller decides whether to trust the value.
    LockPoisoned,
    /// Another unit holds the lock: the caller must wait.
    Busy,
}

/// Why an access to the guarded value was refused.
#[derive(Debug, Clone, Copy, PartialEq, Eq, Structural)]
pub enum AccessError {
    /// The caller does not hold the lock.
    NotHolder,
    /// The new value does not fit in a `u64`.
    Overflow,
}

impl CounterModel {
    pub open spec fn fresh(initial: int) -> CounterModel {
        CounterModel { value: initial, holder: None, poisoned: false, handles: 1 }
    }

    pub open spec fn lock_outcome(self) -> LockOutcome {
        if self.holder is Some {
            LockOutcome::Busy
        } else if self.poisoned {
            LockOutcome::LockPoisoned
        } else {
            LockOutcome::Acquired
        }
    }

    /// Taking the lock succeeds exactly when nobody holds it.
    pub open spec fn after_lock(self, unit: u64) -> CounterModel {
        if self.holder is Some {
            self
        } else {
            CounterModel { holder: Some(unit), ..self }
        }
    }

    pub open spec fn holds(self, unit: u64) -> bool {
        self.holder == Some(unit)
    }

    /// Releasing frees the lock; a failed critical section poisons it.
    pub open spec fn after_release(self, unit: u64, failed: bool) -> CounterModel {
        if self.holds(unit) {
            CounterModel { holder: None, poisoned: self.poisoned || failed, ..self }
        } else {
            self
        }
    }

    pub open spec fn after_write(self, unit: u64, v: int) -> CounterModel {
        if self.holds(unit) {
            CounterModel { value: v, ..self }
        } else {
            self
        }
    }
}

/// A `u64` counter behind a mutual-exclusion lock, shared through
/// reference-counted handles.
pub struct SharedCounter {
    value: u64,
    holder: Option<u64>,
    poisoned: bool,
    handles: usize,
}

impl View for SharedCounter {
    type V = CounterModel;

    closed spec fn view(&self) -> CounterModel {
        CounterModel {
            value: self.value as int,
            holder: self.holder,
            poisoned: self.poisoned,
            handles: self.handles as nat,
        }
    }
}

impl SharedCounter {
    /// Creates the counter with one handle, unlocked and not poisoned.
    pub fn new(initial: u64) -> (r: SharedCounter)
        ensures
            r@ == CounterModel::fresh(initial as int),
    {
        SharedCounter { value: initial, holder: None, poisoned: false, handles: 1 }
    }

    pub fn handle_count(&self) -> (r: usize)
        ensures
            r == self@.handles,
    {
        self.handles
    }

    pub fn is_poisoned(&self) -> (r: bool)
        ensures
            r == self@.poisoned,
    {
        self.poisoned
    }

    pub fn holder(&self) -> (r: Option<u64>)
        ensures
            r == self@.holder,
    {
        self.holder
    }

    /// Shares the storage with one more handle; nothing is copied.
    pub fn clone_handle(&mut self)
        requires
            old(self)@.handles >= 1,
            old(self)@.handles < usize::MAX,
        ensures
            final(self)@ == (CounterModel { handles: old(self)@.handles + 1, ..old(self)@ }),
    {
        self.handles = self.handles + 1;
    }

    /// Gives up one handle. Returns true when it was the last one, that is
    /// when the storage is to be destroyed.
    pub fn drop_handle(&mut self) -> (last: bool)
        requires
            old(self)@.handles >= 1,
        ensures
            final(self)@ == (CounterModel { handles: (old(self)@.handles - 1) as nat, ..old(self)@ }),
            last == (old(self)@.handles == 1),
    {
        self.handles = self.handles - 1;
        self.handles == 0
    }

    /// Tries to take the lock for `unit`. The lock is granted exactly when
    /// nobody holds it; a poisoned lock is still granted, and says so.
    pub fn lock(&mut self, unit: u64) -> (r: LockOutcome)
        ensures
            r == old(self)@.lock_outcome(),
            final(self)@ == old(self)@.after_lock(unit),
    {
        if self.holder.is_some() {
            LockOutcome::Busy
        } else {
            self.holder = Some(unit);
            if self.poisoned {
                LockOutcome::LockPoisoned
            } else {
                LockOutcome::Acquired
            }
        }
    }

    /// Releases the lock held by `unit`. `failed` tells that the critical
    /// section ended in a failure, which poisons the lock.
    pub fn release(&mut self, unit: u64, failed: bool) -> (r: Result<(), AccessError>)
        ensures
            final(self)@ == old(self)@.after_release(unit, failed),
            r == (if old(self)@.holds(unit) {
                Ok::<(), AccessError>(())
            } else {
                Err(AccessError::NotHolder)
            }),
    {
        if self.holder == Some(unit) {
            self.holder = None;
            self.poisoned = self.poisoned || failed;
            Ok(())
        } else {
            Err(AccessError::NotHolder)
        }
    }

    /// Marks the value as trusted again.
    pub fn clear_poison(&mut self)
        ensures
            final(self)@ == (CounterModel { poisoned: false, ..old(self)@ }),
    {
        self.poisoned = false;
    }

    /// Reads the value; only the holder of the lock may.
    pub fn read(&self, unit: u64) -> (r: Result<u64, AccessError>)
        ensures
            r == (if self@.holds(unit) {
                Ok::<u64, AccessError>(self@.value as u64)
            } else {
                Err(AccessError::NotHolder)
            }),
    {
        if self.holder == Some(unit) {
            Ok(self.value)
        } else {
            Err(AccessError::NotHolder)
        }
    }

    /// Stores `v`; only the holder of the lock may.
    pub fn write(&mut self, unit: u64, v: u64) -> (r: Result<(), AccessError>)
        ensures
            final(self)@ == old(self)@.after_write(unit, v as int),
            r == (if old(self)@.holds(unit) {
                Ok::<(), AccessError>(())
            } else {
                Err(AccessError::NotHolder)
            }),
    {
        if self.holder == Some(unit) {
            self.value = v;
            Ok(())
        } else {
            Err(AccessError::NotHolder)
        }
    }

    /// Adds one to the value; only the holder of the lock may, and only
    /// while the result fits.
    pub fn increment(&mut self, unit: u64) -> (r: Result<(), AccessError>)
        ensures
            r == (if !old(self)@.holds(unit) {
                Err(AccessError::NotHolder)
            } else if old(self)@.value >= u64::MAX {
                Err(AccessError::Overflow)
            } else {
                Ok::<(), AccessError>(())
            }),
            r is Ok ==> final(self)@ == old(self)@.after_write(unit, old(self)@.value + 1),
            r is Err ==> final(self)@ == old(self)@,
    {
        if self.holder != Some(unit) {
            Err(AccessError::NotHolder)
        } else if self.value == u64::MAX {
            Err(AccessError::Overflow)
        } else {
            self.value = self.value + 1;
            Ok(())
        }
    }
}

} // verus!
