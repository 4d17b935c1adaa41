use vstd::prelude::*;

verus! {

/// Where a unit of execution stands.
pub enum Completion<T> {
    Running,
    Completed(T),
    Failed,
}

/// The unit's task failed or was aborted before it produced a value.
#[derive(Debug, Clone, Copy, PartialEq, Eq, Structural)]
pub struct JoinError {
    pub unit: u64,
}

/// The abstract state of a handle: the unit's identifier and its completion.
pub struct HandleModel<T> {
    pub id: u64,
    pub state: Completion<T>,
}

/// Hands out unit identifiers, each one once.
pub struct Spawner {
    next: u64,
}

/// The handle to one spawned unit. Joining consumes it, so a unit's value
/// is taken at most once.
pub struct ThreadHandle<T> {
    id: u64,
    state: Completion<T>,
}

impl<T> View for ThreadHandle<T> {
    type V = HandleModel<T>;

    closed spec fn view(&self) -> HandleModel<T> {
        HandleModel { id: self.id, state: self.state }
    }
}

impl Spawner {
    pub closed spec fn next_id(self) -> u64 {
        self.next
    }

    pub fn new() -> (r: Spawner)
        ensures
            r.next_id() == 0,
    {
        Spawner { next: 0 }
    }

    /// Whether another identifier can still be handed out.
    pub fn can_spawn(&self) -> (r: bool)
        ensures
            r == (self.next_id() < u64::MAX),
    {
        self.next < u64::MAX
    }

    /// Registers a new running unit under a fresh identifier: every
    /// identifier handed out before is smaller.
    pub fn spawn<T>(&mut self) -> (r: ThreadHandle<T>)
        requires
            old(self).next_id() < u64::MAX,
        ensures
            r@.id == old(self).next_id(),
            r@.state is Running,
            final(self).next_id() == old(self).next_id() + 1,
    {
        let id = self.next;
        self.next = self.next + 1;
        ThreadHandle { id, state: Completion::Running }
    }
}

impl<T> ThreadHandle<T> {
    pub fn id(&self) -> (r: u64)
        ensures
            r == self@.id,
    {
        self.id
    }

    pub fn is_finished(&self) -> (r: bool)
        ensures
            r == !(self@.state is Running),
    {
        match self.state {
            Completion::Running => false,
            _ => true,
        }
    }

    /// Records that the unit's task returned `value`.
    pub fn complete(&mut self, value: T)
        requires
            old(self)@.state is Running,
        ensures
            final(self)@ == (HandleModel { id: old(self)@.id, state: Completion::Completed(value) }),
    {
        self.state = Completion::Completed(value);
    }

    /// Records that the unit's task failed before producing a value.
    pub fn fail(&mut self)
        requires
            old(self)@.state is Running,
        ensures
            final(self)@ == (HandleModel { id: old(self)@.id, state: Completion::<T>::Failed }),
    {
        self.state = Completion::Failed;
    }

    /// Takes the outcome of a finished unit: its value when the task
    /// completed, a `JoinError` naming the unit when it failed.
    pub fn join(self) -> (r: Result<T, JoinError>)
        requires
            !(self@.state is Running),
        ensures
            self@.state is Completed ==> r == Ok::<T, JoinError>(self@.state->Completed_0),
            self@.state is Failed ==> r == Err::<T, JoinError>(JoinError { unit: self@.id }),
    {
        match self.state {
            Completion::Completed(v) => Ok(v),
            _ => Err(JoinError { unit: self.id }),
        }
    }
}

} // verus!
