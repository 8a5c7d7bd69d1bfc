//! The state that the users of one tunnel share: whether its directions are open, why it was
//! closed, and whether it is authenticated.

use std::sync::Arc;

use vstd::prelude::*;

use crate::ext::poll::Poll;
use crate::tunnel::{TunnelCloseReason, TunnelError, TunnelName};

verus! {

/// The shared state of a tunnel.
///
/// A tunnel is closed once both of its directions are: closing it closes both, and when the second
/// of them closes by itself, so does the tunnel.
pub struct TunnelState {
    incoming_closed: bool,
    outgoing_closed: bool,
    authenticated: Option<TunnelName>,
    close_reason: Arc<TunnelCloseReason>,
}

/// What one who waits for authentication is told.
#[derive(Debug)]
pub enum AuthenticationStatus {
    /// The tunnel is closed.
    Closed(Arc<TunnelCloseReason>),
    /// The tunnel is authenticated under this name.
    Authenticated(TunnelName),
    /// Neither has happened yet: wait for the next of the two.
    Waiting,
}

/// What a tunnel can be told of.
pub struct StateView {
    pub downlink_closed: bool,
    pub uplink_closed: bool,
    pub name: Option<TunnelName>,
    pub reason: TunnelCloseReason,
}

/// What can happen to a tunnel.
pub enum StateEvent {
    /// It is closed for a reason.
    Close(TunnelCloseReason),
    /// It is reported as authenticated.
    Authenticated(TunnelName),
    /// A link could not be opened.
    LinkFailed(TunnelError),
    /// No more streams arrive.
    IncomingFailed,
}

/// What becomes of the state when something happens. A closure does not replace a reason that is
/// known; a failure does.
pub open spec fn state_step(state: StateView, event: StateEvent) -> StateView {
    match event {
        StateEvent::Close(reason) => StateView {
            downlink_closed: true,
            uplink_closed: true,
            name: state.name,
            reason: if state.reason is Unspecified {
                reason
            } else {
                state.reason
            },
        },
        StateEvent::Authenticated(name) => if (state.downlink_closed && state.uplink_closed)
            || state.name is Some {
            state
        } else {
            StateView { name: Some(name), ..state }
        },
        StateEvent::LinkFailed(e) => StateView {
            uplink_closed: true,
            reason: TunnelCloseReason::Error(e),
            ..state
        },
        StateEvent::IncomingFailed => StateView {
            downlink_closed: true,
            reason: TunnelCloseReason::Error(TunnelError::ConnectionClosed),
            ..state
        },
    }
}

/// The state after these events.
pub open spec fn state_run(state: StateView, events: Seq<StateEvent>) -> StateView
    decreases events.len(),
{
    if events.len() == 0 {
        state
    } else {
        state_step(state_run(state, events.drop_last()), events.last())
    }
}

/// A direction that is closed is never open again, and a name that a tunnel has is never replaced.
pub proof fn law_state_is_final(state: StateView, events: Seq<StateEvent>)
    ensures
        state.downlink_closed ==> state_run(state, events).downlink_closed,
        state.uplink_closed ==> state_run(state, events).uplink_closed,
        state.name is Some ==> state_run(state, events).name == state.name,
        state.downlink_closed && state.uplink_closed ==> state_run(state, events).name
            == state.name,
    decreases events.len(),
{
    if events.len() > 0 {
        law_state_is_final(state, events.drop_last());
    }
}

/// However often a tunnel is closed, and whatever is reported of it in between, the first known
/// reason stays, as long as nothing fails.
pub proof fn law_first_reason_stays(state: StateView, events: Seq<StateEvent>)
    requires
        !(state.reason is Unspecified),
        forall|i: int|
            0 <= i < events.len() ==> (#[trigger] events[i] is Close || events[i] is Authenticated),
    ensures
        state_run(state, events).reason == state.reason,
    decreases events.len(),
{
    if events.len() > 0 {
        assert forall|i: int| 0 <= i < events.drop_last().len() implies (
        #[trigger] events.drop_last()[i] is Close || events.drop_last()[i] is Authenticated) by {
            assert(events[i] is Close || events[i] is Authenticated);
        }
        law_first_reason_stays(state, events.drop_last());
        assert(events[events.len() - 1] is Close || events[events.len() - 1] is Authenticated);
    }
}

/// Incoming streams end exactly when the tunnel is closed or nothing arrives any more, and outgoing
/// ones exactly when it is closed or a link could not be opened. To fail in one direction leaves the
/// other open.
pub proof fn law_what_closes_a_direction(state: StateView, events: Seq<StateEvent>)
    ensures
        state_run(state, events).downlink_closed <==> state.downlink_closed || exists|i: int|
            0 <= i < events.len() && (#[trigger] events[i] is Close || events[i] is IncomingFailed),
        state_run(state, events).uplink_closed <==> state.uplink_closed || exists|i: int|
            0 <= i < events.len() && (#[trigger] events[i] is Close || events[i] is LinkFailed),
    decreases events.len(),
{
    if events.len() > 0 {
        let init = events.drop_last();
        law_what_closes_a_direction(state, init);
        let n = events.len() - 1;
        assert(events.last() == events[n]);
        if exists|i: int|
            0 <= i < init.len() && (#[trigger] init[i] is Close || init[i] is IncomingFailed) {
            let i = choose|i: int|
                0 <= i < init.len() && (#[trigger] init[i] is Close || init[i] is IncomingFailed);
            assert(events[i] is Close || events[i] is IncomingFailed);
        }
        if exists|i: int|
            0 <= i < init.len() && (#[trigger] init[i] is Close || init[i] is LinkFailed) {
            let i = choose|i: int|
                0 <= i < init.len() && (#[trigger] init[i] is Close || init[i] is LinkFailed);
            assert(events[i] is Close || events[i] is LinkFailed);
        }
        if exists|i: int|
            0 <= i < events.len() && (#[trigger] events[i] is Close || events[i] is IncomingFailed) {
            let i = choose|i: int|
                0 <= i < events.len() && (#[trigger] events[i] is Close
                    || events[i] is IncomingFailed);
            if i < n {
                assert(init[i] is Close || init[i] is IncomingFailed);
            }
        }
        if exists|i: int|
            0 <= i < events.len() && (#[trigger] events[i] is Close || events[i] is LinkFailed) {
            let i = choose|i: int|
                0 <= i < events.len() && (#[trigger] events[i] is Close || events[i] is LinkFailed);
            if i < n {
                assert(init[i] is Close || init[i] is LinkFailed);
            }
        }
    }
}

/// A tunnel has a name exactly when it had one, or was reported as authenticated under it while a
/// direction was open and it had none; nothing else names it.
pub proof fn law_what_names_a_tunnel(state: StateView, events: Seq<StateEvent>, name: TunnelName)
    requires
        state.name is None,
    ensures
        state_run(state, events).name == Some(name) <==> exists|i: int|
            {
                let before = state_run(state, events.take(i));
                &&& 0 <= i < events.len()
                &&& #[trigger] events[i] == StateEvent::Authenticated(name)
                &&& before.name is None
                &&& !before.downlink_closed || !before.uplink_closed
            },
    decreases events.len(),
{
    if events.len() > 0 {
        let init = events.drop_last();
        law_what_names_a_tunnel(state, init, name);
        let n = events.len() - 1;
        assert(events.last() == events[n]);
        assert(events.take(n) =~= init);
        assert forall|i: int| 0 <= i < n implies init.take(i) == #[trigger] events.take(i) && init[i]
            == events[i] by {
            assert(init.take(i) =~= events.take(i));
        }
        if state_run(state, init).name == Some(name) {
            let i = choose|i: int|
                {
                    let before = state_run(state, init.take(i));
                    &&& 0 <= i < init.len()
                    &&& #[trigger] init[i] == StateEvent::Authenticated(name)
                    &&& before.name is None
                    &&& !before.downlink_closed || !before.uplink_closed
                };
            assert(events.take(i) == init.take(i));
            assert(events[i] == StateEvent::Authenticated(name));
        }
        if exists|i: int|
            {
                let before = state_run(state, events.take(i));
                &&& 0 <= i < events.len()
                &&& #[trigger] events[i] == StateEvent::Authenticated(name)
                &&& before.name is None
                &&& !before.downlink_closed || !before.uplink_closed
            } {
            let i = choose|i: int|
                {
                    let before = state_run(state, events.take(i));
                    &&& 0 <= i < events.len()
                    &&& #[trigger] events[i] == StateEvent::Authenticated(name)
                    &&& before.name is None
                    &&& !before.downlink_closed || !before.uplink_closed
                };
            if i < n {
                assert(events.take(i) == init.take(i));
                assert(init[i] == StateEvent::Authenticated(name));
            }
        }
    }
}

/// The reason of a closure is the last failure; where nothing failed, the reason that was known, or
/// else the first that a closure gave. What is reported of authentication never changes it.
pub proof fn law_reason_of_a_closure(state: StateView, event: StateEvent)
    ensures
        ({
            let reason = state_step(state, event).reason;
            match event {
                StateEvent::LinkFailed(e) => reason == TunnelCloseReason::Error(e),
                StateEvent::IncomingFailed => reason == TunnelCloseReason::Error(
                    TunnelError::ConnectionClosed,
                ),
                StateEvent::Close(given) => {
                    &&& state.reason is Unspecified ==> reason == given
                    &&& !(state.reason is Unspecified) ==> reason == state.reason
                },
                StateEvent::Authenticated(_) => reason == state.reason,
            }
        }),
        !(event is Authenticated) ==> state_step(state, event).name == state.name,
{
}

impl TunnelState {
    /// Whether nothing can be received any more.
    pub closed spec fn downlink_closed(&self) -> bool {
        self.incoming_closed
    }

    /// Whether nothing can be opened any more.
    pub closed spec fn uplink_closed(&self) -> bool {
        self.outgoing_closed
    }

    /// Whether the tunnel is closed: both directions are.
    pub open spec fn both_closed(&self) -> bool {
        self.downlink_closed() && self.uplink_closed()
    }

    /// The name that the tunnel was authenticated under.
    pub closed spec fn name(&self) -> Option<TunnelName> {
        self.authenticated
    }

    /// Why the tunnel was closed, as far as that is known.
    pub closed spec fn reason(&self) -> TunnelCloseReason {
        *self.close_reason
    }

    /// The whole state.
    pub open spec fn state(&self) -> StateView {
        StateView {
            downlink_closed: self.downlink_closed(),
            uplink_closed: self.uplink_closed(),
            name: self.name(),
            reason: self.reason(),
        }
    }

    /// The state of a tunnel whose connection was just made.
    pub fn new() -> (r: Self)
        ensures
            !r.downlink_closed(),
            !r.uplink_closed(),
            r.name() is None,
            r.reason() is Unspecified,
    {
        TunnelState {
            incoming_closed: false,
            outgoing_closed: false,
            authenticated: None,
            close_reason: Arc::new(TunnelCloseReason::Unspecified),
        }
    }

    /// Closes both directions. The reason is kept only where none is known yet; the reason before
    /// is handed back, as a failure where it was a known one.
    pub fn close(&mut self, reason: TunnelCloseReason) -> (r: Result<
        Arc<TunnelCloseReason>,
        Arc<TunnelCloseReason>,
    >)
        ensures
            final(self).state() == state_step(old(self).state(), StateEvent::Close(reason)),
            match r {
                Ok(prev) => {
                    &&& old(self).reason() is Unspecified
                    &&& *prev == old(self).reason()
                },
                Err(prev) => {
                    &&& !(old(self).reason() is Unspecified)
                    &&& *prev == old(self).reason()
                },
            },
    {
        let prev = self.close_reason.clone();
        let unspecified = prev.is_unspecified();
        let kept = if unspecified {
            Arc::new(reason)
        } else {
            prev.clone()
        };
        self.close_reason = kept;
        self.incoming_closed = true;
        self.outgoing_closed = true;
        if unspecified {
            Ok(prev)
        } else {
            Err(prev)
        }
    }

    /// Marks the tunnel as authenticated. A closed tunnel answers with the reason of its closure;
    /// one that is authenticated already answers with none. Either is left as it was.
    pub fn report_authentication_success(&mut self, tunnel_name: TunnelName) -> (r: Result<
        (),
        Option<Arc<TunnelCloseReason>>,
    >)
        ensures
            final(self).state() == state_step(
                old(self).state(),
                StateEvent::Authenticated(tunnel_name),
            ),
            if old(self).both_closed() {
                &&& r matches Err(Some(reason))
                &&& *reason == old(self).reason()
            } else if old(self).name() is Some {
                r matches Err(None)
            } else {
                r is Ok
            },
    {
        if self.is_closed() {
            Err(Some(self.close_reason.clone()))
        } else if self.authenticated.is_some() {
            Err(None)
        } else {
            self.authenticated = Some(tunnel_name);
            Ok(())
        }
    }

    /// What one who waits for authentication is told right away.
    pub fn on_authenticated(&self) -> (r: AuthenticationStatus)
        ensures
            if self.both_closed() {
                &&& r matches AuthenticationStatus::Closed(reason)
                &&& *reason == self.reason()
            } else {
                match self.name() {
                    Some(name) => r == AuthenticationStatus::Authenticated(name),
                    None => r is Waiting,
                }
            },
    {
        if self.is_closed() {
            return AuthenticationStatus::Closed(self.close_reason.clone());
        }
        match &self.authenticated {
            Some(name) => AuthenticationStatus::Authenticated(name.clone()),
            None => AuthenticationStatus::Waiting,
        }
    }

    /// What one who waited for authentication is told: the name that came, or, where the tunnel
    /// was closed first, the reason of its closure.
    pub fn authentication_outcome(&self, next: Option<TunnelName>) -> (r: Result<
        TunnelName,
        Arc<TunnelCloseReason>,
    >)
        ensures
            match next {
                Some(name) => r == Ok::<TunnelName, Arc<TunnelCloseReason>>(name),
                None => r matches Err(reason) && *reason == self.reason(),
            },
    {
        match next {
            Some(name) => Ok(name),
            None => Err(self.close_reason.clone()),
        }
    }

    /// Whether a link may be tried: a tunnel whose outgoing direction is closed refuses at once.
    pub fn open_link(&self) -> (r: Result<(), TunnelError>)
        ensures
            r == if self.uplink_closed() {
                Err::<(), TunnelError>(TunnelError::ConnectionClosed)
            } else {
                Ok(())
            },
    {
        if self.outgoing_closed {
            Err(TunnelError::ConnectionClosed)
        } else {
            Ok(())
        }
    }

    /// Notes that a link could not be opened: the error becomes the reason, and the outgoing
    /// direction is closed.
    pub fn link_failed(&mut self, error: TunnelError)
        ensures
            final(self).state() == state_step(old(self).state(), StateEvent::LinkFailed(error)),
    {
        self.close_reason = Arc::new(TunnelCloseReason::Error(error));
        self.outgoing_closed = true;
    }

    /// Notes that no more streams arrive because the connection failed: that the connection is
    /// closed becomes the reason, and the incoming direction is closed.
    pub fn incoming_failed(&mut self)
        ensures
            final(self).state() == state_step(old(self).state(), StateEvent::IncomingFailed),
    {
        self.close_reason = Arc::new(TunnelCloseReason::Error(TunnelError::ConnectionClosed));
        self.incoming_closed = true;
    }

    /// Whether incoming streams may be taken.
    pub fn downlink(&self) -> (r: bool)
        ensures
            r == !self.downlink_closed(),
    {
        !self.incoming_closed
    }

    /// Whether both directions are closed.
    pub fn is_closed(&self) -> (r: bool)
        ensures
            r == self.both_closed(),
    {
        self.incoming_closed && self.outgoing_closed
    }

    /// Whether the outgoing direction is closed.
    pub fn is_closed_uplink(&self) -> (r: bool)
        ensures
            r == self.uplink_closed(),
    {
        self.outgoing_closed
    }

    /// Whether the incoming direction is closed.
    pub fn is_closed_downlink(&self) -> (r: bool)
        ensures
            r == self.downlink_closed(),
    {
        self.incoming_closed
    }

    /// What one who waits for the tunnel to be closed is told: the reason, once it is.
    pub fn on_closed(&self) -> (r: Poll<Arc<TunnelCloseReason>>)
        ensures
            match r {
                Poll::Ready(reason) => self.both_closed() && *reason == self.reason(),
                Poll::Pending => !self.both_closed(),
            },
    {
        if self.is_closed() {
            Poll::Ready(self.close_reason.clone())
        } else {
            Poll::Pending
        }
    }

    /// What one who waits for the outgoing direction to be closed is told.
    pub fn on_closed_uplink(&self) -> (r: Poll<Arc<TunnelCloseReason>>)
        ensures
            match r {
                Poll::Ready(reason) => self.uplink_closed() && *reason == self.reason(),
                Poll::Pending => !self.uplink_closed(),
            },
    {
        if self.outgoing_closed {
            Poll::Ready(self.close_reason.clone())
        } else {
            Poll::Pending
        }
    }

    /// What one who waits for the incoming direction to be closed is told.
    pub fn on_closed_downlink(&self) -> (r: Poll<Arc<TunnelCloseReason>>)
        ensures
            match r {
                Poll::Ready(reason) => self.downlink_closed() && *reason == self.reason(),
                Poll::Pending => !self.downlink_closed(),
            },
    {
        if self.incoming_closed {
            Poll::Ready(self.close_reason.clone())
        } else {
            Poll::Pending
        }
    }

    /// Why the tunnel was closed, as far as that is known.
    pub fn close_reason(&self) -> (r: Arc<TunnelCloseReason>)
        ensures
            *r == self.reason(),
    {
        self.close_reason.clone()
    }
}

} // verus!
