use std::convert::Infallible;

use snocat::delegation::{
    DelegatedReceiver, DelegatedTask, DelegationAction, DelegationError, DelegationEvent,
    DelegationPool, DelegationSet,
};
use snocat::ext::counter::{BoundCounterTracker, TaskCount};
use snocat::ext::future::{
    Delayed, DelayedValue, PollUntil, TrackedTask, TryDelayed, TryPollUntil, TryPollUntilOrElse,
};
use snocat::ext::option::OptionExt;
use snocat::ext::poll::Poll;
use snocat::ext::result::{flatten, unwrap_infallible, ResultExt};
use snocat::ext::try_stream::{TryFuseStream, TryStreamExtExt};

#[test]
fn option_lift_future() {
    let initial = Some(42u32);
    let res = initial.lift_future();
    assert_eq!(res, Poll::Ready(Some(42)));
}

#[test]
fn result_lift_future() {
    let initial = Result::<u32, Infallible>::Ok(42);
    let res = initial.lift_future();
    assert_eq!(res, Poll::Ready(Ok(42)));
    assert_eq!(unwrap_infallible(initial), 42);
    assert_eq!(flatten::<u8, u8>(Ok(Ok(1))), Ok(1));
    assert_eq!(flatten::<u8, u8>(Ok(Err(2))), Err(2));
    assert_eq!(flatten::<u8, u8>(Err(3)), Err(3));
}

fn pull<T: Clone, E: Clone>(
    fused: &mut TryFuseStream<std::vec::IntoIter<Result<T, E>>>,
) -> Option<Result<T, E>> {
    let polled = match fused {
        TryFuseStream::Active { source } => Poll::Ready(source.next()),
        TryFuseStream::Ended { .. } => Poll::Pending,
    };
    match fused.poll_next(polled) {
        Poll::Ready(item) => item,
        Poll::Pending => panic!("The source never waits"),
    }
}

#[test]
fn try_fused_stream_terminate_after_error() {
    let mut fused = vec![Ok(0), Ok(1), Err(()), Ok(2), Ok(3)].into_iter().try_fuse();
    let res = vec![pull(&mut fused).unwrap().unwrap(), pull(&mut fused).unwrap().unwrap()];
    assert_eq!(
        res,
        vec![0, 1],
        "Elements prior to error must match expectations"
    );
    assert_eq!(
        pull(&mut fused),
        Some(Err(())),
        "Third item in test-set must be the anticipated error"
    );
    assert!(
        fused.is_terminated(),
        "Fused try-stream must be terminated after error"
    );
    assert_eq!(
        pull(&mut fused),
        None,
        "Entries after failure should return successful termination state"
    );
    assert!(matches!(fused, TryFuseStream::Ended { failed: true }));
}

#[test]
fn try_fused_stream_terminate_after_end() {
    let mut fused = vec![Result::<usize, Infallible>::Ok(0), Ok(1), Ok(2)]
        .into_iter()
        .try_fuse();
    let mut res = Vec::new();
    while let Some(item) = pull(&mut fused) {
        res.push(item.unwrap());
    }
    assert_eq!(
        res,
        vec![0, 1, 2],
        "Elements must be returned to exhaustive end-point"
    );
    assert!(
        fused.is_terminated(),
        "Fused try-stream must be terminated after source stream is terminated"
    );
    assert!(matches!(fused, TryFuseStream::Ended { failed: false }));
}

#[test]
fn try_poll_until_or_else_failover() {
    let mut task = TryPollUntilOrElse::try_poll_until_or_else(|| Err(()));
    let res = task.poll(|| Poll::<()>::Pending, || Poll::Ready(Ok(())));
    assert_eq!(res, Poll::Ready(Ok(())), "must be successful");
    let mut task = TryPollUntilOrElse::try_poll_until_or_else(|| Result::<(), ()>::Ok(()));
    let res = task.poll(|| Poll::Ready(()), || Poll::Pending);
    assert_eq!(res, Poll::Ready(Ok(())), "must failover to a success");
    assert!(task.is_terminated());
    let mut task = TryPollUntilOrElse::try_poll_until_or_else(|| Result::<(), ()>::Err(()));
    let res = task.poll(|| Poll::Ready(()), || Poll::Pending);
    assert_eq!(res, Poll::Ready(Err(())), "must failover to a failure");
    assert_eq!(
        task.poll(|| Poll::Ready(()), || Poll::Ready(Ok(()))),
        Poll::Pending
    );
}

#[test]
fn what_ends_a_task_is_asked_first() {
    let mut asked = false;
    let mut until = PollUntil::poll_until();
    let res = until.poll(|| Poll::Ready(()), || {
        asked = true;
        Poll::Ready(1)
    });
    assert_eq!(res, Poll::Ready(None));
    assert!(!asked && until.is_terminated());
    let mut until = PollUntil::poll_until();
    assert_eq!(
        until.poll(|| Poll::<()>::Pending, || Poll::<u8>::Pending),
        Poll::Pending
    );
    assert!(!until.is_terminated());
    assert_eq!(
        until.poll(|| Poll::<()>::Pending, || Poll::Ready(5)),
        Poll::Ready(Some(5))
    );
    assert_eq!(
        until.poll(|| Poll::Ready(()), || Poll::Ready(5)),
        Poll::Pending
    );
    let mut until = TryPollUntil::try_poll_until();
    assert_eq!(
        until.poll(|| Poll::<()>::Pending, || Poll::Ready(Result::<u8, u8>::Err(1))),
        Poll::Ready(Err(1))
    );
    assert!(until.is_terminated());
}

#[test]
fn results_are_delayed() {
    let mut value = DelayedValue {
        fulfilled: false,
        value: Some(3),
    };
    assert_eq!(value.poll(|| Poll::Pending), Poll::Pending);
    assert_eq!(value.poll(|| Poll::Ready(())), Poll::Ready(3));
    assert_eq!(value.poll(|| Poll::Ready(())), Poll::Pending);
    assert!(value.is_terminated());
    let mut task = Delayed::delay();
    assert_eq!(
        task.poll(|| Poll::Pending, || panic!("must not sleep yet")),
        Poll::<u8>::Pending
    );
    assert_eq!(task.poll(|| Poll::Ready(7), || Poll::Pending), Poll::Pending);
    assert_eq!(
        task.poll(|| panic!("must not be asked again"), || Poll::Ready(())),
        Poll::Ready(7)
    );
    assert!(task.is_terminated());
    let mut task = TryDelayed::<u8>::try_delay();
    assert_eq!(
        task.poll(|| Poll::Ready(Err("no")), || panic!("failures are not delayed")),
        Poll::Ready(Err("no"))
    );
    assert!(!task.is_terminated());
    assert_eq!(
        task.poll(|| Poll::Ready(Result::<u8, ()>::Ok(1)), || Poll::Ready(())),
        Poll::Ready(Ok(1))
    );
    assert!(task.is_terminated());
}

#[test]
fn tasks_are_tracked_while_they_run() {
    let mut task = TrackedTask::new("tracker");
    assert_eq!(task.start(), Some("tracker"));
    assert_eq!(task.start(), None);
    assert_eq!(
        task.poll(|| Poll::Pending, || -> Poll<u8> { panic!("not registered yet") }),
        Poll::Pending
    );
    assert_eq!(
        task.poll(|| Poll::Ready("tracker"), || Poll::<u8>::Pending),
        Poll::Pending
    );
    assert_eq!(task.tracker, Some("tracker"));
    assert_eq!(
        task.poll(|| panic!("registered already"), || Poll::Ready(9u8)),
        Poll::Ready(9)
    );
    assert_eq!(task.tracker, None);
    assert!(task.is_terminated(false));
    assert_eq!(
        task.poll(|| panic!("over"), || -> Poll<u8> { panic!("over") }),
        Poll::Pending
    );
}

#[test]
fn bound_counter_tracking_preregistered() {
    const COUNT: usize = 100usize;
    let mut counter = TaskCount::new();
    let mut queue = Vec::new();
    for i in 0..COUNT {
        queue.push(BoundCounterTracker::new_preregistered(&mut counter));
        assert_eq!(
            counter.current(),
            i + 1,
            "Tracked value was out of sync with allocated trackers in countup"
        );
    }
    let mut outstanding = COUNT;
    for item in queue {
        outstanding -= 1;
        item.release(&mut counter);
        assert_eq!(counter.current(), outstanding);
    }
    assert_eq!(
        counter.current(),
        0,
        "Tracked value did not return to 0 after countdown"
    );
}

#[test]
fn bound_counter_tracking_lazy() {
    const COUNT: usize = 100usize;
    let mut counter = TaskCount::new();
    let mut pool = Vec::new();
    for _ in 0..COUNT {
        pool.push(TrackedTask::new(BoundCounterTracker::new()));
        assert_eq!(
            counter.current(),
            0,
            "Tracked value should not go up in lazy-registered count-up"
        );
    }
    for item in pool.iter_mut() {
        let tracker = item.start().unwrap().register_sync(&mut counter);
        let res = item.poll(|| Poll::Ready(tracker), || Poll::<u8>::Pending);
        assert_eq!(res, Poll::Pending);
    }
    assert_eq!(counter.current(), COUNT);
    let mut outstanding = COUNT;
    for item in pool.iter_mut() {
        outstanding -= 1;
        item.tracker.take().unwrap().release(&mut counter);
        assert_eq!(counter.current(), outstanding);
    }
    assert_eq!(counter.current(), 0);
}

#[test]
fn counting_twice_counts_once() {
    let mut counter = TaskCount::new();
    let tracker = BoundCounterTracker::new().register_sync(&mut counter);
    let tracker = tracker.register_sync(&mut counter);
    assert_eq!(counter.current(), 1);
    tracker.release(&mut counter);
    BoundCounterTracker::new().release(&mut counter);
    assert_eq!(counter.current(), 0);
}

/// Runs a receiver to its end, with answers of the channel one after the other.
fn receive<T>(
    pool: &mut DelegationPool,
    mut receiver: DelegatedReceiver<T, ()>,
    answers: Vec<Poll<Result<T, ()>>>,
) -> Result<T, DelegationError> {
    for answer in answers {
        assert!(receiver.awaits_message());
        if let DelegationAction::Detach(id) = receiver.poll(DelegationEvent::Message(answer)) {
            assert!(matches!(
                receiver.poll(DelegationEvent::Detachment(Poll::Pending)),
                DelegationAction::Wait
            ));
            pool.detach(id);
            match receiver.poll(DelegationEvent::Detachment(Poll::Ready(()))) {
                DelegationAction::Ready(res) => return res,
                _ => panic!("The result must be there"),
            }
        }
    }
    panic!("No result came")
}

#[test]
fn delegation_sync() {
    let mut pool = DelegationPool::new();
    let receiver = pool.delegate();
    let res = receive(&mut pool, receiver, vec![Poll::Ready(Ok(42))]).unwrap();
    assert_eq!(res, 42);
}

#[test]
fn delegation_async() {
    let mut pool = DelegationPool::new();
    let receiver = pool.delegate();
    let res = receive(&mut pool, receiver, vec![Poll::Pending, Poll::Ready(Ok(42))]).unwrap();
    assert_eq!(res, 42);
}

#[test]
fn delegation_externality_prior() {
    let mut pool = DelegationPool::new();
    assert_eq!(
        pool.delegations.get_outstanding_ids().len(),
        0,
        "Must not register until dispatched"
    );
    let receiver = pool.delegate();
    assert_eq!(
        pool.delegations.get_outstanding_ids().len(),
        1,
        "Must register active tasks"
    );
    let res = receive(&mut pool, receiver, vec![Poll::Ready(Ok(42))]).unwrap();
    assert_eq!(res, 42);
    assert_eq!(
        pool.delegations.get_outstanding_ids().len(),
        0,
        "Must not leak tasks"
    );
}

#[test]
fn dropped_dispatchers_give_no_result() {
    let mut pool = DelegationPool::new();
    let receiver = pool.delegate::<u8, ()>();
    let res = receive(&mut pool, receiver, vec![Poll::Ready(Err(()))]);
    assert_eq!(res, Err(DelegationError::DispatcherDropped));
}

#[test]
fn outstanding_tasks_have_numbers() {
    let mut set = DelegationSet::new();
    for i in 0..5u64 {
        assert_eq!(set.attach_new(DelegatedTask {}), i);
    }
    assert!(set.detach(&2).is_ok());
    assert!(set.detach(&2).is_err());
    assert!(set.detach(&9).is_err());
    assert_eq!(set.get_outstanding_ids(), vec![0, 1, 3, 4]);
    assert_eq!(set.attach_new(DelegatedTask {}), 5);
}
