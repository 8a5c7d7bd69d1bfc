use std::sync::mpsc::{channel as std_channel, Receiver, Sender};
use std::sync::Arc;

use snocat::ext::poll::Poll;
use snocat::tunnel::control::{AuthenticationStatus, TunnelState};
use snocat::tunnel::duplex::{channel, channel_with_baggage, DuplexTunnel, EntangledTunnels};
use snocat::tunnel::id::{
    ConstructedTunnelStream, ConstructedTunnelTryStream, MonotonicAtomicGenerator, TunnelId,
};
use snocat::tunnel::{
    ConnectionLoss, IntoArcTunnel, IntoBoxedTunnel, IntoTunnel, Sided, TunnelCloseReason,
    TunnelError, TunnelName, TunnelSide, WithTunnelId,
};

#[derive(Debug, Clone, PartialEq, Eq)]
struct FakeTunnelParams;

#[derive(Debug, PartialEq, Eq)]
struct FakeTunnel {
    tunnel_id: TunnelId,
}

impl WithTunnelId for FakeTunnel {
    fn id(&self) -> &TunnelId {
        &self.tunnel_id
    }
}

impl IntoTunnel for FakeTunnelParams {
    type Tunnel = FakeTunnel;

    fn into_tunnel(self, tunnel_id: TunnelId) -> FakeTunnel {
        FakeTunnel { tunnel_id }
    }
}

type FakeStream<I> = ConstructedTunnelStream<std::vec::IntoIter<I>, MonotonicAtomicGenerator>;
type FakeTryStream<I> = ConstructedTunnelTryStream<std::vec::IntoIter<I>, MonotonicAtomicGenerator>;

fn collect(outputs: &mut FakeStream<FakeTunnelParams>) -> Vec<FakeTunnel> {
    let mut res = Vec::new();
    loop {
        let polled = match outputs {
            ConstructedTunnelStream::Active { source, .. } => Poll::Ready(source.next()),
            ConstructedTunnelStream::Ended => Poll::Pending,
        };
        match outputs.poll_next(polled) {
            Poll::Ready(Some(tunnel)) => res.push(tunnel),
            Poll::Ready(None) => return res,
            Poll::Pending => panic!("The source never waits"),
        }
    }
}

fn try_collect<E>(
    outputs: &mut FakeTryStream<Result<FakeTunnelParams, E>>,
) -> Result<Vec<FakeTunnel>, E> {
    let mut res = Vec::new();
    loop {
        let polled = match outputs {
            ConstructedTunnelTryStream::Active { source, .. } => Poll::Ready(source.next()),
            ConstructedTunnelTryStream::Ended { .. } => Poll::Pending,
        };
        match outputs.poll_next(polled) {
            Poll::Ready(Some(Ok(tunnel))) => res.push(tunnel),
            Poll::Ready(Some(Err(e))) => return Err(e),
            Poll::Ready(None) => return Ok(res),
            Poll::Pending => panic!("The source never waits"),
        }
    }
}

#[test]
fn fused_tunnel_id_stream() {
    let s = Vec::<FakeTunnelParams>::new().into_iter();
    let g = MonotonicAtomicGenerator::new(0);
    let mut outputs = ConstructedTunnelStream::construct_tunnels(g, s);
    let res = collect(&mut outputs);
    assert!(
        res.is_empty(),
        "No items may be present in the result in this test"
    );
    assert!(
        outputs.is_terminated(),
        "Construction stream must be terminated after exhaustion"
    );
    assert!(matches!(outputs, ConstructedTunnelStream::Ended));
}

#[test]
fn fused_tunnel_id_try_stream() {
    let s = Vec::<Result<FakeTunnelParams, ()>>::new().into_iter();
    let g = MonotonicAtomicGenerator::new(0);
    let mut outputs = ConstructedTunnelTryStream::try_construct_tunnels(g, s);
    let res = try_collect(&mut outputs)
        .expect("Must not have produced a failure for an empty input set");
    assert!(
        res.is_empty(),
        "No items may be present in the result in this test"
    );
    assert!(
        outputs.is_terminated(),
        "Construction try-stream must be terminated after exhaustion"
    );
    assert!(matches!(outputs, ConstructedTunnelTryStream::Ended { .. }));
}

#[test]
fn tunnel_id_stream_incrementing() {
    const SAMPLE_COUNT: usize = 3;
    let s = vec![FakeTunnelParams; SAMPLE_COUNT].into_iter();
    let g = MonotonicAtomicGenerator::new(0);
    let mut outputs = ConstructedTunnelStream::construct_tunnels(g, s);
    let res = collect(&mut outputs);
    assert_eq!(
        res,
        (0..SAMPLE_COUNT)
            .map(|x| FakeTunnel {
                tunnel_id: (x as u64).into()
            })
            .collect::<Vec<_>>(),
        "Test results must match the expected output count and values"
    );
    assert!(
        outputs.is_terminated(),
        "Construction stream must be terminated after exhaustion"
    );
}

#[test]
fn tunnel_id_try_stream_incrementing() {
    const SAMPLE_COUNT: usize = 3;
    let s = vec![Result::<_, ()>::Ok(FakeTunnelParams); SAMPLE_COUNT].into_iter();
    let g = MonotonicAtomicGenerator::new(0);
    let mut outputs = ConstructedTunnelTryStream::try_construct_tunnels(g, s);
    let res = try_collect(&mut outputs).expect("Must not have produced an error");
    assert_eq!(
        res,
        (0..SAMPLE_COUNT)
            .map(|x| FakeTunnel {
                tunnel_id: (x as u64).into()
            })
            .collect::<Vec<_>>(),
        "Test results must match the expected output count and values"
    );
    assert!(
        outputs.is_terminated(),
        "Construction try-stream must be terminated after exhaustion"
    );
}

#[test]
fn try_stream_is_spent_after_a_failure() {
    let s = vec![Ok(FakeTunnelParams), Err(7), Ok(FakeTunnelParams)].into_iter();
    let mut outputs =
        ConstructedTunnelTryStream::try_construct_tunnels(MonotonicAtomicGenerator::new(5), s);
    assert_eq!(try_collect(&mut outputs), Err(7));
    assert!(matches!(
        outputs,
        ConstructedTunnelTryStream::Ended { failed: true }
    ));
    assert!(matches!(
        outputs.poll_next(Poll::<Option<Result<FakeTunnelParams, u8>>>::Pending),
        Poll::Ready(None)
    ));
}

#[test]
fn identities_start_again_after_the_largest() {
    let mut g = MonotonicAtomicGenerator::new(u64::MAX - 1);
    assert_eq!(g.next().inner(), u64::MAX - 1);
    assert_eq!(g.next().inner(), u64::MAX);
    assert_eq!(g.next().inner(), 0);
    assert_eq!(u64::from(g.next()), 1);
    assert_eq!(
        *IntoArcTunnel(FakeTunnelParams).into_tunnel(TunnelId::new(4)).id(),
        TunnelId::new(4)
    );
    assert_eq!(
        *IntoBoxedTunnel(FakeTunnelParams).into_tunnel(TunnelId::new(5)).id(),
        TunnelId::new(5)
    );
}

type Link = (Sender<u8>, Receiver<u8>);
type Pair = EntangledTunnels<Sender<Link>, Receiver<Link>, (), ()>;

fn duplex_pair() -> Pair {
    channel(std_channel::<Link>(), std_channel::<Link>())
}

fn open_link(channel_to_remote: &Sender<Link>) -> Result<Link, TunnelError> {
    let (to_remote, from_local) = std_channel();
    let (to_local, from_remote) = std_channel();
    let handed_over = channel_to_remote.send((to_local, from_local)).is_ok();
    DuplexTunnel::<Sender<Link>, Receiver<Link>, ()>::open_link(
        handed_over,
        (to_remote, from_remote),
    )
}

#[test]
fn duplex_duplex_tunnel() {
    let (a_tun, b_tun) = duplex_pair().into_pair();
    open_link(&a_tun.channel_to_remote).unwrap();
    let (a_inc, b_inc) = (a_tun.incoming, b_tun.incoming);
    drop(a_tun.channel_to_remote);
    let count_of_b: usize = b_inc.streams().iter().count();
    assert_eq!(count_of_b, 1);
    open_link(&b_tun.channel_to_remote).unwrap();
    drop(b_tun.channel_to_remote);
    let count_of_a: usize = a_inc.streams().iter().count();
    assert_eq!(count_of_a, 1);
}

#[test]
fn what_one_tunnel_sends_the_other_receives() {
    let EntangledTunnels {
        listener,
        connector,
    } = duplex_pair();
    assert_eq!(*listener.id(), TunnelId::new(0));
    assert_eq!(*connector.id(), TunnelId::new(1));
    assert_eq!(listener.side(), TunnelSide::Listen);
    assert_eq!(connector.side(), TunnelSide::Connect);
    assert_eq!(*listener.incoming.id(), TunnelId::new(0));
    assert_eq!(listener.incoming.side(), TunnelSide::Listen);
    assert_eq!(*connector.incoming.id(), TunnelId::new(1));
    assert_eq!(connector.incoming.side(), TunnelSide::Connect);
    let (send, _recv) = open_link(&connector.channel_to_remote).unwrap();
    let (_other_send, other_recv) = listener.incoming.inner.recv().unwrap();
    send.send(42).unwrap();
    assert_eq!(other_recv.recv().unwrap(), 42);
    drop(listener.incoming);
    assert!(matches!(
        open_link(&connector.channel_to_remote),
        Err(TunnelError::ConnectionClosed)
    ));
}

#[test]
fn tunnels_carry_their_baggage() {
    let pair = channel_with_baggage(("lu", "rd"), ("ru", "ld"), 'l', 'c');
    assert_eq!(pair.listener.baggage, 'l');
    assert_eq!(pair.connector.baggage, 'c');
    assert_eq!(pair.listener.channel_to_remote, "lu");
    assert_eq!(pair.connector.incoming.inner, "rd");
    assert_eq!(pair.connector.channel_to_remote, "ru");
    assert_eq!(pair.listener.incoming.inner, "ld");
}

fn graceful() -> TunnelCloseReason {
    TunnelCloseReason::GracefulExit {
        remote_initiated: true,
    }
}

#[test]
fn first_reason_of_closure_is_kept() {
    let mut state = TunnelState::new();
    assert!(!state.is_closed() && state.downlink());
    assert!(matches!(state.on_closed(), Poll::Pending));
    assert_eq!(*state.close(graceful()).unwrap(), TunnelCloseReason::Unspecified);
    assert!(state.is_closed() && state.is_closed_uplink() && state.is_closed_downlink());
    let second = state.close(TunnelCloseReason::Error(TunnelError::TimedOut));
    assert_eq!(*second.unwrap_err(), graceful());
    assert!(matches!(state.on_closed(), Poll::Ready(r) if *r == graceful()));
    assert_eq!(state.open_link(), Err(TunnelError::ConnectionClosed));
    assert!(!state.downlink());
}

#[test]
fn tunnel_without_both_directions_is_closed() {
    let mut state = TunnelState::new();
    state.link_failed(TunnelError::TimedOut);
    assert!(state.is_closed_uplink() && !state.is_closed_downlink() && !state.is_closed());
    assert!(matches!(state.on_closed_uplink(), Poll::Ready(_)));
    assert!(matches!(state.on_closed_downlink(), Poll::Pending));
    assert_eq!(
        *state.close_reason(),
        TunnelCloseReason::Error(TunnelError::TimedOut)
    );
    state.incoming_failed();
    assert!(state.is_closed());
    assert_eq!(
        *state.close_reason(),
        TunnelCloseReason::Error(TunnelError::ConnectionClosed)
    );
}

#[test]
fn tunnels_are_authenticated_once() {
    let name = |s: &str| TunnelName::new(s.to_string());
    let mut state = TunnelState::new();
    assert!(matches!(
        state.on_authenticated(),
        AuthenticationStatus::Waiting
    ));
    assert!(state.report_authentication_success(name("a")).is_ok());
    assert!(matches!(
        state.report_authentication_success(name("b")),
        Err(None)
    ));
    assert!(matches!(
        state.on_authenticated(),
        AuthenticationStatus::Authenticated(n) if n == name("a")
    ));
    let _ = state.close(graceful());
    assert!(matches!(
        state.report_authentication_success(name("c")),
        Err(Some(r)) if *r == graceful()
    ));
    assert!(matches!(
        state.on_authenticated(),
        AuthenticationStatus::Closed(r) if *r == graceful()
    ));
    assert_eq!(*state.authentication_outcome(None).unwrap_err(), graceful());
    assert_eq!(
        state.authentication_outcome(Some(name("d"))),
        Ok(name("d"))
    );
}

#[test]
fn reasons_in_words() {
    let text = |r: TunnelCloseReason| r.to_text();
    assert_eq!(
        text(graceful()),
        "Tunnel closed gracefully - initiator: remote"
    );
    assert_eq!(
        text(TunnelCloseReason::AuthenticationFailure {
            remote_responsible: None
        }),
        "Tunnel failed authentication - responsibility: unknown"
    );
    assert_eq!(
        text(TunnelCloseReason::Error(TunnelError::TimedOut)),
        "Tunnel closed due to error: Connection timed out"
    );
    assert_eq!(
        text(TunnelCloseReason::Unspecified),
        "Tunnel closed without indication of reason"
    );
    assert!(graceful().is_graceful_exit() && !graceful().is_unspecified());
    assert_eq!(
        TunnelError::from_connection(ConnectionLoss::Reset),
        TunnelError::TransportError
    );
    assert_eq!(
        TunnelError::from_connection(ConnectionLoss::LocallyClosed).message(),
        "Connection closed locally"
    );
    let shared = Arc::new(FakeTunnel {
        tunnel_id: TunnelId::new(3),
    });
    assert_eq!(*shared.id(), TunnelId::new(3));
}

/// Identities are in order as their numbers are, and names are the same as their texts are.
#[test]
fn identities_are_ordered_and_names_are_equal() {
    assert_eq!(TunnelId::new(7).inner(), 7);
    assert!(TunnelId::new(1) < TunnelId::new(2));
    assert!(!(TunnelId::new(2) < TunnelId::new(2)) && TunnelId::new(2) == TunnelId::new(2));
    assert!(TunnelId::new(u64::MAX) > TunnelId::new(0));
    assert_eq!(TunnelId::new(3).cmp(&TunnelId::new(2)), std::cmp::Ordering::Greater);
    assert_eq!(TunnelName::new("Name".to_string()).raw(), "Name");
    assert!(TunnelName::new("a".to_string()) == TunnelName::new("a".to_string()));
    assert!(TunnelName::new("a".to_string()) != TunnelName::new("A".to_string()));
    assert!(TunnelName::new("a".to_string()) != TunnelName::new("aa".to_string()));
}
