//! Tasks whose results come from elsewhere, and which of them are outstanding.

use std::collections::BTreeMap;

use vstd::prelude::*;

use crate::ext::poll::Poll;
use crate::ordered::{lists_keys, sorted_keys};

verus! {

/// A task that was handed over.
#[derive(Debug, Default)]
pub struct DelegatedTask {}

/// The tasks that were handed over and are not done yet, each under a number of its own.
#[derive(Debug)]
pub struct DelegationSet {
    next_id: u64,
    items: BTreeMap<u64, DelegatedTask>,
}

impl DelegationSet {
    /// The number of the next task.
    pub closed spec fn next(&self) -> u64 {
        self.next_id
    }

    /// The outstanding tasks.
    pub closed spec fn outstanding(&self) -> Map<u64, DelegatedTask> {
        self.items@
    }

    /// Whether the numbers have not run out yet, so that each task so far has a smaller number than
    /// the next.
    pub open spec fn in_order(&self) -> bool {
        &&& self.next() < u64::MAX
        &&& forall|k: u64| #[trigger] self.outstanding().contains_key(k) ==> k < self.next()
    }

    /// No task is outstanding.
    pub fn new() -> (r: DelegationSet)
        ensures
            r.next() == 0,
            r.outstanding() == Map::<u64, DelegatedTask>::empty(),
            r.in_order(),
    {
        DelegationSet { next_id: 0, items: BTreeMap::new() }
    }

    /// Takes the next number. Behind the largest one the numbers start again.
    fn gen_next_delegation_id(&mut self) -> (r: u64)
        ensures
            r == old(self).next(),
            final(self).next() == (old(self).next() + 1) % 0x1_0000_0000_0000_0000,
            final(self).outstanding() == old(self).outstanding(),
    {
        let id = self.next_id;
        self.next_id = id.wrapping_add(1);
        id
    }

    /// Adds a task, under the next number.
    pub fn attach_new(&mut self, delegated_task: DelegatedTask) -> (r: u64)
        requires
            !old(self).outstanding().contains_key(old(self).next()),
        ensures
            r == old(self).next(),
            final(self).next() == (old(self).next() + 1) % 0x1_0000_0000_0000_0000,
            final(self).outstanding() == old(self).outstanding().insert(r, delegated_task),
            old(self).in_order() && old(self).next() + 1 < u64::MAX ==> final(self).in_order(),
    {
        broadcast use vstd::std_specs::btree::group_btree_axioms;

        let id = self.gen_next_delegation_id();
        self.items.insert(id, delegated_task);
        id
    }

    /// Takes a task out, if it is outstanding.
    pub fn detach(&mut self, task_id: &u64) -> (r: Result<DelegatedTask, ()>)
        ensures
            final(self).next() == old(self).next(),
            final(self).outstanding() == old(self).outstanding().remove(*task_id),
            match r {
                Ok(task) => old(self).outstanding().contains_key(*task_id)
                    && old(self).outstanding()[*task_id] == task,
                Err(_) => !old(self).outstanding().contains_key(*task_id),
            },
            old(self).in_order() ==> final(self).in_order(),
    {
        broadcast use vstd::std_specs::btree::group_btree_axioms;

        match self.items.remove(task_id) {
            Some(task) => Ok(task),
            None => {
                assert(self.items@ =~= old(self).items@.remove(*task_id));
                Err(())
            },
        }
    }

    /// The numbers of the outstanding tasks, from the smallest to the largest.
    pub fn get_outstanding_ids(&self) -> (r: Vec<u64>)
        ensures
            lists_keys(r@, self.outstanding()),
    {
        sorted_keys(&self.items)
    }
}

/// To take out the task that was added leaves what was outstanding before.
pub proof fn law_detach_undoes_attach(
    before: Map<u64, DelegatedTask>,
    id: u64,
    task: DelegatedTask,
)
    requires
        !before.contains_key(id),
    ensures
        before.insert(id, task).remove(id) == before,
        before.insert(id, task).contains_key(id),
{
    assert(before.insert(id, task).remove(id) =~= before);
}

/// Why a task that was handed over has no result.
#[derive(Debug, Clone, Copy, PartialEq, Eq, Structural)]
pub enum DelegationError {
    /// Whoever was to send the result is gone.
    DispatcherDropped,
}

/// Where tasks are handed over.
#[derive(Debug)]
pub struct DelegationPool {
    pub delegations: DelegationSet,
}

impl DelegationPool {
    pub fn new() -> (r: DelegationPool)
        ensures
            r.delegations.next() == 0,
            r.delegations.outstanding() == Map::<u64, DelegatedTask>::empty(),
            r.delegations.in_order(),
    {
        DelegationPool { delegations: DelegationSet::new() }
    }

    /// Notes a task that is handed over now, and gives what waits for its result.
    pub fn delegate<T, R>(&mut self) -> (r: DelegatedReceiver<T, R>)
        requires
            !old(self).delegations.outstanding().contains_key(old(self).delegations.next()),
        ensures
            r.task_id == old(self).delegations.next(),
            r.received is None,
            final(self).delegations.next() == (old(self).delegations.next() + 1)
                % 0x1_0000_0000_0000_0000,
            final(self).delegations.outstanding() == old(self).delegations.outstanding().insert(
                r.task_id,
                DelegatedTask {  },
            ),
            old(self).delegations.in_order() && old(self).delegations.next() + 1 < u64::MAX
                ==> final(self).delegations.in_order(),
    {
        let task_id = self.delegations.attach_new(DelegatedTask {  });
        DelegatedReceiver { task_id, received: None }
    }

    /// Notes that a task is done. No one else may have done so.
    pub fn detach(&mut self, task_id: u64)
        requires
            old(self).delegations.outstanding().contains_key(task_id),
        ensures
            final(self).delegations.outstanding() == old(self).delegations.outstanding().remove(
                task_id,
            ),
            final(self).delegations.next() == old(self).delegations.next(),
            old(self).delegations.in_order() ==> final(self).delegations.in_order(),
    {
        let _ = self.delegations.detach(&task_id);
    }
}

/// What waits for the result of a task that was handed over.
#[derive(Debug)]
pub struct DelegatedReceiver<T, R> {
    pub task_id: u64,
    /// What was received, while the task is being noted as done.
    pub received: Option<Result<T, R>>,
}

/// What was asked, and the answer.
#[derive(Debug)]
pub enum DelegationEvent<T, R> {
    /// The channel was asked for the result.
    Message(Poll<Result<T, R>>),
    /// It was asked whether the task is noted as done.
    Detachment(Poll<()>),
}

/// What comes next.
#[derive(Debug)]
pub enum DelegationAction<T> {
    /// Nothing can be done now.
    Wait,
    /// Note the one with that number as done.
    Detach(u64),
    /// The result is there.
    Ready(Result<T, DelegationError>),
}

/// The result, as it is handed out: a channel that fails was dropped at its other end.
pub open spec fn delegated_result<T, R>(received: Result<T, R>) -> Result<T, DelegationError> {
    match received {
        Ok(value) => Ok(value),
        Err(_) => Err(DelegationError::DispatcherDropped),
    }
}

/// What a receiver does when it is asked, or nothing if that question is not due: the channel is
/// asked until it answers, and then only whether the task is noted as done.
pub open spec fn receiver_step<T, R>(
    received: Option<Result<T, R>>,
    task_id: u64,
    event: DelegationEvent<T, R>,
) -> Option<(Option<Result<T, R>>, DelegationAction<T>)> {
    match (received, event) {
        (None, DelegationEvent::Message(Poll::Pending)) => Some((None, DelegationAction::Wait)),
        (None, DelegationEvent::Message(Poll::Ready(message))) => Some(
            (Some(message), DelegationAction::Detach(task_id)),
        ),
        (Some(message), DelegationEvent::Detachment(Poll::Pending)) => Some(
            (Some(message), DelegationAction::Wait),
        ),
        (Some(message), DelegationEvent::Detachment(Poll::Ready(_))) => Some(
            (None, DelegationAction::Ready(delegated_result(message))),
        ),
        _ => None,
    }
}

impl<T, R> DelegatedReceiver<T, R> {
    /// Whether the channel is to be asked next, and not whether the task is noted as done.
    pub fn awaits_message(&self) -> (r: bool)
        ensures
            r == (self.received is None),
    {
        self.received.is_none()
    }

    /// Takes one answer.
    pub fn poll(&mut self, event: DelegationEvent<T, R>) -> (r: DelegationAction<T>)
        requires
            receiver_step(old(self).received, old(self).task_id, event) is Some,
        ensures
            receiver_step(old(self).received, old(self).task_id, event) == Some(
                (final(self).received, r),
            ),
            final(self).task_id == old(self).task_id,
    {
        match event {
            DelegationEvent::Message(Poll::Pending) => DelegationAction::Wait,
            DelegationEvent::Message(Poll::Ready(message)) => {
                self.received = Some(message);
                DelegationAction::Detach(self.task_id)
            },
            DelegationEvent::Detachment(Poll::Pending) => DelegationAction::Wait,
            DelegationEvent::Detachment(Poll::Ready(_)) => {
                match self.received.take() {
                    Some(Ok(value)) => DelegationAction::Ready(Ok(value)),
                    Some(Err(_)) => DelegationAction::Ready(
                        Err(DelegationError::DispatcherDropped),
                    ),
                    None => DelegationAction::Wait,
                }
            },
        }
    }
}

/// A result that was sent is handed out once the task is noted as done, and not before.
pub proof fn law_delegated_result_arrives<T, R>(task_id: u64, message: Result<T, R>)
    ensures
        ({
            let received = DelegationEvent::<T, R>::Message(Poll::Ready(message));
            let noted = DelegationEvent::<T, R>::Detachment(Poll::Ready(()));
            let none = None::<Result<T, R>>;
            &&& receiver_step(none, task_id, received) == Some(
                (Some(message), DelegationAction::<T>::Detach(task_id)),
            )
            &&& receiver_step(Some(message), task_id, noted) == Some(
                (none, DelegationAction::Ready(delegated_result(message))),
            )
        }),
        forall|event: DelegationEvent<T, R>| #[trigger]
            receiver_step(None, task_id, event) is Some ==> !(receiver_step(
                None,
                task_id,
                event,
            ) matches Some((_, DelegationAction::Ready(_)))),
{
}

/// A receiver that is told that nothing is there yet waits and forgets nothing. One that is told of
/// a result keeps it and has its own task noted as done. One that is told that this was done hands
/// out what it kept: a value as it came, and a channel that failed as dropped.
pub proof fn law_receiver_keeps_its_result<T, R>(
    received: Option<Result<T, R>>,
    task_id: u64,
    event: DelegationEvent<T, R>,
)
    ensures
        receiver_step(received, task_id, event) is Some <==> (received is None <==> event is Message),
        receiver_step(received, task_id, event) matches Some((kept, action)) ==> {
            &&& action is Wait <==> {
                ||| event matches DelegationEvent::Message(Poll::Pending)
                ||| event matches DelegationEvent::Detachment(Poll::Pending)
            }
            &&& action is Wait ==> kept == received
            &&& action is Detach <==> (event matches DelegationEvent::Message(Poll::Ready(_)))
            &&& action matches DelegationAction::Detach(id) ==> id == task_id && event
                == DelegationEvent::<T, R>::Message(Poll::Ready(kept->0)) && kept is Some
            &&& action is Ready <==> (event matches DelegationEvent::Detachment(Poll::Ready(_)))
            &&& action matches DelegationAction::Ready(Ok(value)) ==> received == Some(
                Ok::<T, R>(value),
            )
            &&& action matches DelegationAction::Ready(Err(e)) ==> e
                == DelegationError::DispatcherDropped && (received matches Some(Err(_)))
            &&& action is Ready ==> kept is None
        },
{
}

} // verus!
