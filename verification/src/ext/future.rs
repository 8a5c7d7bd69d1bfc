//! Tasks that are watched, delayed or counted while they are asked for their result.
//!
//! A task is asked through a function that is handed in; it is not asked when the function is not
//! called.

use vstd::prelude::*;

use crate::ext::poll::Poll;

verus! {

/// A task that is asked for its result until something else is done.
#[derive(Debug)]
pub struct PollUntil {
    /// Whether the result was handed out, or the task was given up.
    pub terminated: bool,
}

impl PollUntil {
    /// What one question leads to, given what the two tasks answered.
    pub open spec fn answers<C, O>(
        self,
        cancelled: Poll<C>,
        task: Poll<O>,
        after: PollUntil,
        r: Poll<Option<O>>,
    ) -> bool {
        match (cancelled, task) {
            (Poll::Ready(_), _) => r == Poll::<Option<O>>::Ready(None) && after.terminated,
            (Poll::Pending, Poll::Ready(value)) => r == Poll::Ready(Some(value))
                && after.terminated,
            (Poll::Pending, Poll::Pending) => r == Poll::<Option<O>>::Pending
                && !after.terminated,
        }
    }

    pub fn poll_until() -> (r: PollUntil)
        ensures
            !r.terminated,
    {
        PollUntil { terminated: false }
    }

    /// Asks for the result. What ends the task is asked first, and the task only where that is not
    /// done. Once there was an answer, there is none any more.
    pub fn poll<C, O, AskCanceller: FnOnce() -> Poll<C>, AskTask: FnOnce() -> Poll<O>>(
        &mut self,
        canceller: AskCanceller,
        task: AskTask,
    ) -> (r: Poll<Option<O>>)
        requires
            canceller.requires(()),
            task.requires(()),
        ensures
            if old(self).terminated {
                r == Poll::<Option<O>>::Pending && final(self).terminated
            } else {
                exists|c: Poll<C>, t: Poll<O>|
                    canceller.ensures((), c) && (c is Pending ==> task.ensures((), t))
                        && #[trigger] old(self).answers(c, t, *final(self), r)
            },
    {
        if self.terminated {
            return Poll::Pending;
        }
        let ghost before = *self;
        let cancelled = canceller();
        match cancelled {
            Poll::Ready(_) => {
                self.terminated = true;
                let ghost none = Poll::<O>::Pending;
                assert(before.answers(cancelled, none, *self, Poll::<Option<O>>::Ready(None)));
                Poll::Ready(None)
            },
            Poll::Pending => {
                let answer = task();
                let ghost seen = answer;
                match answer {
                    Poll::Ready(value) => {
                        self.terminated = true;
                        assert(before.answers(cancelled, seen, *self, Poll::Ready(Some(value))));
                        Poll::Ready(Some(value))
                    },
                    Poll::Pending => {
                        assert(before.answers(cancelled, seen, *self, Poll::<Option<O>>::Pending));
                        Poll::Pending
                    },
                }
            },
        }
    }

    /// Whether there will be no answer any more.
    pub fn is_terminated(&self) -> (r: bool)
        ensures
            r == self.terminated,
    {
        self.terminated
    }
}

/// A task that can fail, and is asked for its result until something else is done.
#[derive(Debug)]
pub struct TryPollUntil {
    pub inner: PollUntil,
}

/// The outcome of a task that was given up where there is none, with its failure first.
pub open spec fn transposed<T, E>(outcome: Option<Result<T, E>>) -> Result<Option<T>, E> {
    match outcome {
        Some(Err(e)) => Err(e),
        Some(Ok(value)) => Ok(Some(value)),
        None => Ok(None),
    }
}

impl TryPollUntil {
    pub fn try_poll_until() -> (r: TryPollUntil)
        ensures
            !r.inner.terminated,
    {
        TryPollUntil { inner: PollUntil::poll_until() }
    }

    /// The answer of the task inside, as an answer of this one.
    pub fn answer<T, E>(polled: Poll<Option<Result<T, E>>>) -> (r: Poll<Result<Option<T>, E>>)
        ensures
            match polled {
                Poll::Ready(outcome) => r == Poll::Ready(transposed(outcome)),
                Poll::Pending => r is Pending,
            },
    {
        match polled {
            Poll::Ready(Some(Err(e))) => Poll::Ready(Err(e)),
            Poll::Ready(Some(Ok(value))) => Poll::Ready(Ok(Some(value))),
            Poll::Ready(None) => Poll::Ready(Ok(None)),
            Poll::Pending => Poll::Pending,
        }
    }

    /// Asks for the result, as `PollUntil` does.
    pub fn poll<C, T, E, AskCanceller: FnOnce() -> Poll<C>, AskTask: FnOnce() -> Poll<Result<T, E>>>(
        &mut self,
        canceller: AskCanceller,
        task: AskTask,
    ) -> (r: Poll<Result<Option<T>, E>>)
        requires
            canceller.requires(()),
            task.requires(()),
        ensures
            if old(self).inner.terminated {
                r is Pending && final(self).inner.terminated
            } else {
                exists|c: Poll<C>, t: Poll<Result<T, E>>, o: Poll<Option<Result<T, E>>>|
                    canceller.ensures((), c) && (c is Pending ==> task.ensures((), t))
                        && #[trigger] old(self).inner.answers(c, t, final(self).inner, o) && match o {
                        Poll::Ready(outcome) => r == Poll::Ready(transposed(outcome)),
                        Poll::Pending => r is Pending,
                    }
            },
    {
        let ghost before = self.inner;
        let ghost ask_canceller = canceller;
        let ghost ask_task = task;
        let polled = self.inner.poll(canceller, task);
        let ghost seen = polled;
        proof {
            if !before.terminated {
                let (c, t) = choose|c: Poll<C>, t: Poll<Result<T, E>>|
                    ask_canceller.ensures((), c) && (c is Pending ==> ask_task.ensures((), t))
                        && #[trigger] before.answers(c, t, self.inner, seen);
                assert(before.answers(c, t, self.inner, seen));
            }
        }
        Self::answer(polled)
    }

    /// Whether there will be no answer any more.
    pub fn is_terminated(&self) -> (r: bool)
        ensures
            r == self.inner.terminated,
    {
        self.inner.is_terminated()
    }
}

/// A task that can fail, is asked for its result until something else is done, and then has its
/// result replaced.
#[derive(Debug)]
pub struct TryPollUntilOrElse<F> {
    pub inner: PollUntil,
    /// What makes the result of a task that was given up.
    pub make_timeout_error: Option<F>,
}

impl<F> TryPollUntilOrElse<F> {
    pub fn try_poll_until_or_else(make_alternate: F) -> (r: Self)
        ensures
            !r.inner.terminated,
            r.make_timeout_error == Some(make_alternate),
    {
        TryPollUntilOrElse {
            inner: PollUntil::poll_until(),
            make_timeout_error: Some(make_alternate),
        }
    }

    /// Asks for the result, as `PollUntil` does.
    pub fn poll<C, T, E, AskCanceller: FnOnce() -> Poll<C>, AskTask: FnOnce() -> Poll<Result<T, E>>>(
        &mut self,
        canceller: AskCanceller,
        task: AskTask,
    ) -> (r: Poll<Result<T, E>>) where F: FnOnce() -> Result<T, E>
        requires
            canceller.requires(()),
            task.requires(()),
            old(self).make_timeout_error matches Some(f) ==> f.requires(()),
        ensures
            match old(self).make_timeout_error {
                None => r is Pending && *final(self) == *old(self),
                Some(f) => if old(self).inner.terminated {
                    r is Pending && *final(self) == *old(self)
                } else {
                    exists|c: Poll<C>, t: Poll<Result<T, E>>, o: Poll<Option<Result<T, E>>>|
                        canceller.ensures((), c) && (c is Pending ==> task.ensures((), t))
                            && #[trigger] old(self).inner.answers(c, t, final(self).inner, o)
                            && match o {
                            Poll::Ready(Some(outcome)) => r == Poll::Ready(outcome)
                                && final(self).make_timeout_error == Some(f),
                            Poll::Ready(None) => r matches Poll::Ready(outcome) && f.ensures(
                                (),
                                outcome,
                            ) && final(self).make_timeout_error is None,
                            Poll::Pending => r is Pending && final(self).make_timeout_error == Some(
                                f,
                            ),
                        }
                },
            },
    {
        if self.make_timeout_error.is_none() {
            return Poll::Pending;
        }
        let ghost before = self.inner;
        let ghost ask_canceller = canceller;
        let ghost ask_task = task;
        let polled = self.inner.poll(canceller, task);
        let ghost seen = polled;
        let ghost after = self.inner;
        proof {
            if !before.terminated {
                let (c, t) = choose|c: Poll<C>, t: Poll<Result<T, E>>|
                    ask_canceller.ensures((), c) && (c is Pending ==> ask_task.ensures((), t))
                        && #[trigger] before.answers(c, t, self.inner, seen);
                assert(before.answers(c, t, self.inner, seen));
            }
        }
        match polled {
            Poll::Ready(Some(outcome)) => Poll::Ready(outcome),
            Poll::Ready(None) => {
                let make_alternate = self.make_timeout_error.take();
                match make_alternate {
                    Some(f) => {
                        let outcome = f();
                        assert(self.make_timeout_error is None);
                        assert(self.inner == after);
                        Poll::Ready(outcome)
                    },
                    None => Poll::Pending,
                }
            },
            Poll::Pending => Poll::Pending,
        }
    }

    /// Whether there will be no answer any more.
    pub fn is_terminated(&self) -> (r: bool)
        ensures
            r == (self.make_timeout_error is None || self.inner.terminated),
    {
        self.make_timeout_error.is_none() || self.inner.is_terminated()
    }
}

/// A value that is handed out once a time is over.
#[derive(Debug)]
pub struct DelayedValue<V> {
    /// Whether the value was handed out.
    pub fulfilled: bool,
    pub value: Option<V>,
}

impl<V> DelayedValue<V> {
    /// What one question leads to, given whether the time is over.
    pub open spec fn answers(self, slept: Poll<()>, after: DelayedValue<V>, r: Poll<V>) -> bool {
        match (slept, self.value) {
            (Poll::Ready(_), Some(value)) => r == Poll::Ready(value) && after.fulfilled
                && after.value is None,
            _ => r is Pending && after == self,
        }
    }

    /// Asks for the value. Once it was handed out, there is none any more.
    pub fn poll<AskSleep: FnOnce() -> Poll<()>>(&mut self, sleep: AskSleep) -> (r: Poll<V>)
        requires
            sleep.requires(()),
        ensures
            if old(self).fulfilled {
                r is Pending && *final(self) == *old(self)
            } else {
                exists|s: Poll<()>|
                    sleep.ensures((), s) && #[trigger] old(self).answers(s, *final(self), r)
            },
    {
        if self.fulfilled {
            return Poll::Pending;
        }
        let ghost before = *self;
        let slept = sleep();
        match slept {
            Poll::Ready(_) => match self.value.take() {
                None => {
                    assert(before.answers(slept, *self, Poll::<V>::Pending));
                    Poll::Pending
                },
                Some(value) => {
                    self.fulfilled = true;
                    assert(before.answers(slept, *self, Poll::Ready(value)));
                    Poll::Ready(value)
                },
            },
            Poll::Pending => {
                assert(before.answers(slept, *self, Poll::<V>::Pending));
                Poll::Pending
            },
        }
    }

    /// Whether the value was handed out.
    pub fn is_terminated(&self) -> (r: bool)
        ensures
            r == self.fulfilled,
    {
        self.fulfilled
    }
}

/// A task whose result is handed out some time after it is there.
#[derive(Debug)]
pub enum Delayed<V> {
    /// The task is being asked.
    Running,
    /// The result is there, and the time is being waited for.
    Sleeping(DelayedValue<V>),
    /// The result was handed out.
    Fulfilled,
}

/// What one question to a delayed task leads to, given what the task and the clock answered.
pub open spec fn delayed_answers<V>(
    before: Delayed<V>,
    task: Poll<V>,
    slept: Poll<()>,
    after: Delayed<V>,
    r: Poll<V>,
) -> bool {
    let kept = match before {
        Delayed::Fulfilled => None,
        Delayed::Sleeping(kept) => kept.value,
        Delayed::Running => match task {
            Poll::Ready(value) => Some(value),
            Poll::Pending => None,
        },
    };
    match (kept, slept) {
        (Some(value), Poll::Ready(_)) => r == Poll::Ready(value) && after is Fulfilled,
        (Some(value), Poll::Pending) => r is Pending && after == Delayed::Sleeping(
            DelayedValue { fulfilled: false, value: Some(value) },
        ),
        (None, _) => r is Pending && after == before,
    }
}

impl<V> Delayed<V> {
    /// Whether a result that is waited with is there.
    pub open spec fn well_formed(self) -> bool {
        self matches Delayed::Sleeping(kept) ==> !kept.fulfilled && kept.value is Some
    }

    pub fn delay() -> (r: Self)
        ensures
            r is Running,
    {
        Delayed::Running
    }

    /// Asks for the result. The time starts to run, and is asked for, as soon as the result is
    /// there.
    pub fn poll<AskTask: FnOnce() -> Poll<V>, AskSleep: FnOnce() -> Poll<()>>(
        &mut self,
        task: AskTask,
        sleep: AskSleep,
    ) -> (r: Poll<V>)
        requires
            task.requires(()),
            sleep.requires(()),
            old(self).well_formed(),
        ensures
            final(self).well_formed(),
            exists|t: Poll<V>, s: Poll<()>|
                (*old(self) is Running ==> task.ensures((), t)) && (*old(self) is Sleeping || (
                *old(self) is Running && t is Ready) ==> sleep.ensures((), s))
                    && #[trigger] delayed_answers(*old(self), t, s, *final(self), r),
    {
        let ghost before = *self;
        let ghost mut asked = Poll::<V>::Pending;
        match self {
            Delayed::Fulfilled => {
                assert(delayed_answers(
                    before,
                    Poll::<V>::Pending,
                    Poll::<()>::Pending,
                    *self,
                    Poll::<V>::Pending,
                ));
                return Poll::Pending;
            },
            Delayed::Running => {
                let answer = task();
                proof {
                    asked = answer;
                }
                match answer {
                    Poll::Pending => {
                        assert(delayed_answers(
                            before,
                            asked,
                            Poll::<()>::Pending,
                            *self,
                            Poll::<V>::Pending,
                        ));
                        return Poll::Pending;
                    },
                    Poll::Ready(value) => {
                        *self = Delayed::Sleeping(
                            DelayedValue { fulfilled: false, value: Some(value) },
                        );
                    },
                }
            },
            Delayed::Sleeping(_) => {},
        }
        let ghost ask_sleep = sleep;
        let r = self.wake(sleep);
        proof {
            let s = choose|s: Poll<()>| #[trigger]
                ask_sleep.ensures((), s) && (s is Ready <==> r is Ready);
            assert(delayed_answers(before, asked, s, *self, r));
        }
        r
    }

    /// Asks whether the time is over, and hands the result out if it is.
    fn wake<AskSleep: FnOnce() -> Poll<()>>(&mut self, sleep: AskSleep) -> (r: Poll<V>)
        requires
            sleep.requires(()),
            *old(self) is Sleeping,
            old(self).well_formed(),
        ensures
            exists|s: Poll<()>| #[trigger] sleep.ensures((), s) && (s is Ready <==> r is Ready),
            match (r, *old(self)) {
                (Poll::Ready(value), Delayed::Sleeping(kept)) => kept.value == Some(value)
                    && *final(self) is Fulfilled,
                _ => *final(self) == *old(self),
            },
    {
        let slept = sleep();
        match slept {
            Poll::Pending => Poll::Pending,
            Poll::Ready(_) => {
                let mut value: Option<V> = None;
                if let Delayed::Sleeping(kept) = self {
                    value = kept.value.take();
                }
                *self = Delayed::Fulfilled;
                match value {
                    Some(value) => Poll::Ready(value),
                    None => Poll::Pending,
                }
            },
        }
    }

    /// Whether the result was handed out.
    pub fn is_terminated(&self) -> (r: bool)
        ensures
            r == (self is Fulfilled),
    {
        match self {
            Delayed::Fulfilled => true,
            _ => false,
        }
    }
}

/// A task that can fail, and whose result, unless it is a failure, is handed out some time after
/// it is there.
#[derive(Debug)]
pub struct TryDelayed<V> {
    pub inner: Delayed<V>,
}

/// What one question to such a task leads to, given what the task and the clock answered. A failure
/// is handed on at once, and leaves the task as it is.
pub open spec fn try_delayed_answers<V, E>(
    before: TryDelayed<V>,
    task: Poll<Result<V, E>>,
    slept: Poll<()>,
    after: TryDelayed<V>,
    r: Poll<Result<V, E>>,
) -> bool {
    match (before.inner, task) {
        (Delayed::Running, Poll::Ready(Err(e))) => r == Poll::<Result<V, E>>::Ready(Err(e))
            && after == before,
        _ => {
            let task = match task {
                Poll::Ready(Ok(value)) => Poll::Ready(value),
                _ => Poll::Pending,
            };
            match r {
                Poll::Ready(Ok(value)) => delayed_answers(
                    before.inner,
                    task,
                    slept,
                    after.inner,
                    Poll::Ready(value),
                ),
                Poll::Ready(Err(_)) => false,
                Poll::Pending => delayed_answers(
                    before.inner,
                    task,
                    slept,
                    after.inner,
                    Poll::<V>::Pending,
                ),
            }
        },
    }
}

impl<V> TryDelayed<V> {
    pub fn try_delay() -> (r: Self)
        ensures
            r.inner is Running,
    {
        TryDelayed { inner: Delayed::delay() }
    }

    /// Asks for the result, as `Delayed` does.
    pub fn poll<E, AskTask: FnOnce() -> Poll<Result<V, E>>, AskSleep: FnOnce() -> Poll<()>>(
        &mut self,
        task: AskTask,
        sleep: AskSleep,
    ) -> (r: Poll<Result<V, E>>)
        requires
            task.requires(()),
            sleep.requires(()),
            old(self).inner.well_formed(),
        ensures
            final(self).inner.well_formed(),
            exists|t: Poll<Result<V, E>>, s: Poll<()>|
                (old(self).inner is Running ==> task.ensures((), t)) && (old(self).inner is Sleeping
                    || (old(self).inner is Running && t matches Poll::Ready(Ok(_)))
                    ==> sleep.ensures((), s)) && #[trigger] try_delayed_answers(
                    *old(self),
                    t,
                    s,
                    *final(self),
                    r,
                ),
    {
        let ghost before = *self;
        let ghost mut asked = Poll::<Result<V, E>>::Pending;
        let ghost none = Poll::<()>::Pending;
        match &self.inner {
            Delayed::Fulfilled => {
                assert(try_delayed_answers(
                    before,
                    asked,
                    none,
                    *self,
                    Poll::<Result<V, E>>::Pending,
                ));
                return Poll::Pending;
            },
            Delayed::Running => {
                let answer = task();
                proof {
                    asked = answer;
                }
                match answer {
                    Poll::Pending => {
                        assert(try_delayed_answers(
                            before,
                            asked,
                            none,
                            *self,
                            Poll::<Result<V, E>>::Pending,
                        ));
                        return Poll::Pending;
                    },
                    Poll::Ready(Err(e)) => {
                        assert(try_delayed_answers(
                            before,
                            asked,
                            none,
                            *self,
                            Poll::<Result<V, E>>::Ready(Err(e)),
                        ));
                        return Poll::Ready(Err(e));
                    },
                    Poll::Ready(Ok(value)) => {
                        self.inner = Delayed::Sleeping(
                            DelayedValue { fulfilled: false, value: Some(value) },
                        );
                    },
                }
            },
            Delayed::Sleeping(_) => {},
        }
        let ghost ask_sleep = sleep;
        let woken = self.inner.wake(sleep);
        let ghost seen = woken;
        let r = match woken {
            Poll::Ready(value) => Poll::Ready(Ok(value)),
            Poll::Pending => Poll::Pending,
        };
        proof {
            let s = choose|s: Poll<()>| #[trigger]
                ask_sleep.ensures((), s) && (s is Ready <==> seen is Ready);
            assert(try_delayed_answers(before, asked, s, *self, r));
        }
        r
    }

    /// Whether the result was handed out.
    pub fn is_terminated(&self) -> (r: bool)
        ensures
            r == (self.inner is Fulfilled),
    {
        self.inner.is_terminated()
    }
}

/// How far the tracking of a task has come.
#[derive(Debug, Clone, Copy, PartialEq, Eq, Structural)]
pub enum TrackingState {
    /// The task was never asked, and the tracker is not registered.
    NotStarted,
    /// The task was never asked, and the tracker is being registered.
    Registering,
    /// The task is being asked, and the tracker is registered.
    Running,
    /// The task is done, and the tracker is gone.
    Completed,
}

/// A task that is asked only after a tracker of it is registered, and whose tracker is dropped once
/// it is done.
#[derive(Debug)]
pub struct TrackedTask<Tracker> {
    pub tracker: Option<Tracker>,
    pub state: TrackingState,
}

impl<Tracker> TrackedTask<Tracker> {
    /// The tracker is held before it is registered and while the task runs.
    pub open spec fn well_formed(self) -> bool {
        self.tracker is Some <==> (self.state is NotStarted || self.state is Running)
    }

    pub fn new(tracker: Tracker) -> (r: Self)
        ensures
            r.well_formed(),
            r.state is NotStarted,
            r.tracker == Some(tracker),
    {
        TrackedTask { tracker: Some(tracker), state: TrackingState::NotStarted }
    }

    /// The tracker, to be registered before the task is first asked. It comes out once.
    pub fn start(&mut self) -> (r: Option<Tracker>)
        requires
            old(self).well_formed(),
        ensures
            final(self).well_formed(),
            match r {
                Some(tracker) => old(self).state is NotStarted && old(self).tracker == Some(tracker)
                    && final(self).state is Registering,
                None => !(old(self).state is NotStarted) && *final(self) == *old(self),
            },
    {
        match self.state {
            TrackingState::NotStarted => {
                self.state = TrackingState::Registering;
                self.tracker.take()
            },
            _ => None,
        }
    }

    /// Asks for the result: first for the tracker, as long as it is being registered, and then for
    /// the result of the task. Once that was handed out, there is none any more.
    pub fn poll<O, AskTracker: FnOnce() -> Poll<Tracker>, AskTask: FnOnce() -> Poll<O>>(
        &mut self,
        registration: AskTracker,
        task: AskTask,
    ) -> (r: Poll<O>)
        requires
            old(self).well_formed(),
            !(old(self).state is NotStarted),
            registration.requires(()),
            task.requires(()),
        ensures
            final(self).well_formed(),
            match r {
                Poll::Ready(value) => {
                    &&& old(self).state is Registering || old(self).state is Running
                    &&& old(self).state is Registering ==> exists|t: Tracker|
                        registration.ensures((), Poll::Ready(t))
                    &&& task.ensures((), Poll::Ready(value))
                    &&& final(self).state is Completed
                },
                Poll::Pending => match old(self).state {
                    TrackingState::Registering => {
                        ||| registration.ensures((), Poll::Pending) && *final(self) == *old(self)
                        ||| final(self).state is Running && (final(self).tracker matches Some(t)
                            && registration.ensures((), Poll::Ready(t))) && task.ensures(
                            (),
                            Poll::Pending,
                        )
                    },
                    TrackingState::Running => task.ensures((), Poll::Pending) && *final(self)
                        == *old(self),
                    _ => *final(self) == *old(self),
                },
            },
    {
        match self.state {
            TrackingState::NotStarted | TrackingState::Completed => {
                return Poll::Pending;
            },
            TrackingState::Registering => {
                match registration() {
                    Poll::Pending => {
                        return Poll::Pending;
                    },
                    Poll::Ready(tracker) => {
                        self.tracker = Some(tracker);
                        self.state = TrackingState::Running;
                    },
                }
            },
            TrackingState::Running => {},
        }
        let answer = task();
        match answer {
            Poll::Pending => Poll::Pending,
            Poll::Ready(value) => {
                self.state = TrackingState::Completed;
                self.tracker = None;
                Poll::Ready(value)
            },
        }
    }

    /// Whether there will be no result any more, given whether the task says so of itself.
    pub fn is_terminated(&self, task_terminated: bool) -> (r: bool)
        ensures
            r == (self.state is Completed || task_terminated),
    {
        match self.state {
            TrackingState::Completed => true,
            _ => task_terminated,
        }
    }
}

/// A task is given up exactly when what ends it is done, whatever the task would answer; else its
/// own result is handed out as it is. Either way, and only then, there is no answer any more.
pub proof fn law_cancelled_before_asked<C, O>(
    before: PollUntil,
    cancelled: Poll<C>,
    task: Poll<O>,
    after: PollUntil,
    r: Poll<Option<O>>,
)
    requires
        before.answers(cancelled, task, after, r),
    ensures
        (r matches Poll::Ready(None)) <==> cancelled is Ready,
        r matches Poll::Ready(Some(value)) ==> cancelled is Pending && task == Poll::Ready(value),
        r is Pending <==> cancelled is Pending && task is Pending,
        after.terminated <==> r is Ready,
{
}

/// The outcome of a task that can fail is its failure, its value, or that it was given up.
pub proof fn law_outcome_is_kept<T, E>(outcome: Option<Result<T, E>>)
    ensures
        match transposed(outcome) {
            Err(e) => outcome == Some(Err::<T, E>(e)),
            Ok(Some(value)) => outcome == Some(Ok::<T, E>(value)),
            Ok(None) => outcome is None,
        },
{
}

/// A delayed value is handed out exactly when the time is over, as it is and once; until then
/// nothing changes.
pub proof fn law_value_waits_for_the_time<V>(
    before: DelayedValue<V>,
    slept: Poll<()>,
    after: DelayedValue<V>,
    r: Poll<V>,
)
    requires
        before.answers(slept, after, r),
    ensures
        r is Ready <==> slept is Ready && before.value is Some,
        r matches Poll::Ready(value) ==> before.value == Some(value) && after.fulfilled
            && after.value is None,
        r is Pending ==> after == before,
{
}

/// The result of a delayed task is neither lost nor changed: once the task gave it, it is handed out
/// exactly when the time is over, and kept until then; and once it was handed out, there is none.
pub proof fn law_result_waits_for_the_time<V>(
    before: Delayed<V>,
    task: Poll<V>,
    slept: Poll<()>,
    after: Delayed<V>,
    r: Poll<V>,
)
    requires
        before.well_formed(),
        delayed_answers(before, task, slept, after, r),
    ensures
        after.well_formed(),
        r is Ready <==> after is Fulfilled && !(before is Fulfilled),
        r is Ready ==> slept is Ready,
        before is Fulfilled ==> after is Fulfilled,
        before is Running && task is Pending ==> after is Running,
        before is Running ==> (task matches Poll::Ready(value) ==> {
            &&& slept is Ready ==> r == Poll::Ready(value)
            &&& slept is Pending ==> (after matches Delayed::Sleeping(kept) && kept.value == Some(
                value,
            ))
        }),
        before matches Delayed::Sleeping(kept) ==> {
            &&& slept is Ready ==> r == Poll::Ready(kept.value->0)
            &&& slept is Pending ==> after == before
        },
{
}

/// A delayed task that can fail hands a failure out at once, and nothing else as a failure. Its value
/// waits for the time.
pub proof fn law_failure_does_not_wait<V, E>(
    before: TryDelayed<V>,
    task: Poll<Result<V, E>>,
    slept: Poll<()>,
    after: TryDelayed<V>,
    r: Poll<Result<V, E>>,
)
    requires
        before.inner.well_formed(),
        try_delayed_answers(before, task, slept, after, r),
    ensures
        r matches Poll::Ready(Err(e)) ==> before.inner is Running && task == Poll::Ready(
            Err::<V, E>(e),
        ) && after == before,
        before.inner is Running && (task matches Poll::Ready(Err(_))) ==> (r matches Poll::Ready(
            Err(_),
        )),
        r matches Poll::Ready(Ok(value)) ==> slept is Ready && after.inner is Fulfilled && (
        before.inner matches Delayed::Sleeping(kept) && kept.value == Some(value)
            || before.inner is Running && task == Poll::Ready(Ok::<V, E>(value))),
        before.inner is Running && slept is Pending ==> (task matches Poll::Ready(Ok(value)) ==> (
        after.inner matches Delayed::Sleeping(kept) && kept.value == Some(value))),
        before.inner is Running && slept is Ready ==> (task matches Poll::Ready(Ok(value)) ==> r
            == Poll::Ready(Ok::<V, E>(value))),
        before.inner is Sleeping && slept is Ready ==> (r matches Poll::Ready(Ok(_))),
        before.inner is Fulfilled ==> r is Pending && after == before,
{
}

} // verus!
