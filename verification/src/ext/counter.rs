//! Counting the tasks that are under way.

use vstd::prelude::*;

verus! {

/// How many tasks are counted, as those who watch are told.
#[derive(Debug)]
pub struct TaskCount {
    count: usize,
}

impl TaskCount {
    /// How many tasks are counted.
    pub closed spec fn count(&self) -> nat {
        self.count as nat
    }

    /// No task is counted.
    pub fn new() -> (r: TaskCount)
        ensures
            r.count() == 0,
    {
        TaskCount { count: 0 }
    }

    /// How many tasks are counted.
    pub fn current(&self) -> (r: usize)
        ensures
            r == self.count(),
    {
        self.count
    }
}

/// Counts one task, from when it is registered until it is released.
#[derive(Debug, PartialEq, Eq)]
pub enum BoundCounterTracker {
    /// The task has not been asked yet, and does not count.
    Unregistered,
    /// The task counts. To register again changes nothing, so a task can be registered before it
    /// is first asked.
    Registered,
}

impl BoundCounterTracker {
    pub fn new() -> (r: Self)
        ensures
            r is Unregistered,
    {
        BoundCounterTracker::Unregistered
    }

    /// Counts the task at once, without waiting for it to be asked.
    pub fn new_preregistered(counter: &mut TaskCount) -> (r: Self)
        requires
            old(counter).count() < usize::MAX,
        ensures
            r is Registered,
            final(counter).count() == old(counter).count() + 1,
    {
        BoundCounterTracker::new().register_sync(counter)
    }

    /// Counts the task, unless it is counted already.
    pub fn register_sync(self, counter: &mut TaskCount) -> (r: Self)
        requires
            self is Unregistered ==> old(counter).count() < usize::MAX,
        ensures
            r is Registered,
            final(counter).count() == match self {
                BoundCounterTracker::Registered => old(counter).count(),
                BoundCounterTracker::Unregistered => old(counter).count() + 1,
            },
    {
        match self {
            BoundCounterTracker::Registered => self,
            BoundCounterTracker::Unregistered => {
                counter.count = counter.count + 1;
                BoundCounterTracker::Registered
            },
        }
    }

    /// Ends the counting of the task.
    pub fn release(self, counter: &mut TaskCount)
        requires
            self is Registered ==> old(counter).count() > 0,
        ensures
            final(counter).count() == match self {
                BoundCounterTracker::Registered => (old(counter).count() - 1) as nat,
                BoundCounterTracker::Unregistered => old(counter).count(),
            },
    {
        match self {
            BoundCounterTracker::Registered => {
                counter.count = counter.count - 1;
            },
            BoundCounterTracker::Unregistered => {},
        }
    }
}

/// What is done with the tracker of a task.
pub enum TrackingEvent {
    Register,
    Release,
}

/// How many of the trackers, which all start unregistered, count after these events.
pub open spec fn registered_after(events: Seq<(int, TrackingEvent)>) -> Set<int>
    decreases events.len(),
{
    if events.len() == 0 {
        Set::empty()
    } else {
        let before = registered_after(events.drop_last());
        match events.last() {
            (i, TrackingEvent::Register) => before.insert(i),
            (i, TrackingEvent::Release) => before.remove(i),
        }
    }
}

/// The count after these events: one more for each tracker that is registered and was not, one
/// less for each that is released and was registered.
pub open spec fn count_after(events: Seq<(int, TrackingEvent)>) -> int
    decreases events.len(),
{
    if events.len() == 0 {
        0
    } else {
        let before = registered_after(events.drop_last());
        count_after(events.drop_last()) + match events.last() {
            (i, TrackingEvent::Register) => if before.contains(i) {
                0int
            } else {
                1
            },
            (i, TrackingEvent::Release) => if before.contains(i) {
                -1
            } else {
                0
            },
        }
    }
}

/// The count is always the number of tasks that are registered and not released.
pub proof fn law_count_of_registered(events: Seq<(int, TrackingEvent)>)
    ensures
        registered_after(events).finite(),
        count_after(events) == registered_after(events).len(),
    decreases events.len(),
{
    if events.len() > 0 {
        law_count_of_registered(events.drop_last());
        let before = registered_after(events.drop_last());
        match events.last() {
            (i, TrackingEvent::Register) => {
                if before.contains(i) {
                    assert(before.insert(i) =~= before);
                }
            },
            (i, TrackingEvent::Release) => {
                if !before.contains(i) {
                    assert(before.remove(i) =~= before);
                }
            },
        }
    } else {
        assert(registered_after(events).len() == 0);
    }
}

} // verus!
