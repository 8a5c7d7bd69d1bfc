//! Streams that are spent after their first failure.

use vstd::prelude::*;

use crate::ext::poll::Poll;

verus! {

/// A stream that is spent once its source is, or after the first failure.
#[derive(Debug, Clone)]
pub enum TryFuseStream<S> {
    Active { source: S },
    Ended { failed: bool },
}

/// How a source becomes such a stream.
pub trait TryStreamExtExt: Sized {
    /// The source, up to its end or its first failure.
    fn try_fuse(self) -> (r: TryFuseStream<Self>)
        ensures
            r == (TryFuseStream::Active { source: self }),
    ;
}

impl<S> TryStreamExtExt for S {
    fn try_fuse(self) -> TryFuseStream<S> {
        TryFuseStream::new(self)
    }
}

/// Where the stream stands after its source gave `polled`, and what the stream gives.
pub open spec fn fuse_step<S, T, E>(
    stream: TryFuseStream<S>,
    polled: Poll<Option<Result<T, E>>>,
) -> (TryFuseStream<S>, Poll<Option<Result<T, E>>>) {
    match (stream, polled) {
        (TryFuseStream::Ended { .. }, _) => (stream, Poll::Ready(None)),
        (_, Poll::Ready(None)) => (TryFuseStream::Ended { failed: false }, polled),
        (_, Poll::Ready(Some(Err(_)))) => (TryFuseStream::Ended { failed: true }, polled),
        _ => (stream, polled),
    }
}

impl<S> TryFuseStream<S> {
    pub fn new(source: S) -> (r: Self)
        ensures
            r == (TryFuseStream::Active { source }),
    {
        TryFuseStream::Active { source }
    }

    /// Takes what the source gave when it was asked, and hands on what this stream gives. A spent
    /// stream has no source any more, and gives `Ready(None)` forever.
    pub fn poll_next<T, E>(&mut self, polled: Poll<Option<Result<T, E>>>) -> (r: Poll<
        Option<Result<T, E>>,
    >)
        ensures
            (*final(self), r) == fuse_step(*old(self), polled),
    {
        if self.is_terminated() {
            return Poll::Ready(None);
        }
        match &polled {
            Poll::Ready(None) => {
                *self = TryFuseStream::Ended { failed: false };
            },
            Poll::Ready(Some(Err(_))) => {
                *self = TryFuseStream::Ended { failed: true };
            },
            _ => {},
        }
        polled
    }

    /// Whether the stream is spent.
    pub fn is_terminated(&self) -> (r: bool)
        ensures
            r == (self is Ended),
    {
        match self {
            TryFuseStream::Active { .. } => false,
            TryFuseStream::Ended { .. } => true,
        }
    }
}

/// What a stream gives when its source gives these one after the other.
pub open spec fn fuse_run<S, T, E>(
    stream: TryFuseStream<S>,
    polled: Seq<Poll<Option<Result<T, E>>>>,
) -> (TryFuseStream<S>, Seq<Poll<Option<Result<T, E>>>>)
    decreases polled.len(),
{
    if polled.len() == 0 {
        (stream, Seq::empty())
    } else {
        let (before, given) = fuse_run(stream, polled.drop_last());
        let (after, last) = fuse_step(before, polled.last());
        (after, given.push(last))
    }
}

/// Whether a source is done when it gives this.
pub open spec fn ends_stream<T, E>(polled: Poll<Option<Result<T, E>>>) -> bool {
    match polled {
        Poll::Ready(None) => true,
        Poll::Ready(Some(Err(_))) => true,
        _ => false,
    }
}

/// Up to its end or its first failure, a stream gives what its source gives; from there on it is
/// spent, whatever the source would give.
pub proof fn law_fused_after_failure<S, T, E>(source: S, polled: Seq<Poll<Option<Result<T, E>>>>)
    ensures
        ({
            let (after, given) = fuse_run(TryFuseStream::Active { source }, polled);
            &&& given.len() == polled.len()
            &&& (after is Ended <==> exists|i: int|
                0 <= i < polled.len() && ends_stream(#[trigger] polled[i]))
            &&& forall|i: int|
                0 <= i < polled.len() ==> #[trigger] given[i] == if exists|j: int|
                    0 <= j < i && ends_stream(#[trigger] polled[j]) {
                    Poll::Ready(None)
                } else {
                    polled[i]
                }
        }),
    decreases polled.len(),
{
    if polled.len() > 0 {
        let before = polled.drop_last();
        law_fused_after_failure(source, before);
        let (middle, given) = fuse_run(TryFuseStream::Active { source }, before);
        let (after, all) = fuse_run(TryFuseStream::Active { source }, polled);
        let n = before.len() as int;
        if middle is Ended {
            let i = choose|i: int| 0 <= i < before.len() && ends_stream(#[trigger] before[i]);
            assert(ends_stream(polled[i]));
        } else {
            assert(forall|j: int| 0 <= j < n ==> !ends_stream(#[trigger] polled[j])) by {
                assert forall|j: int| 0 <= j < n implies !ends_stream(#[trigger] polled[j]) by {
                    assert(before[j] == polled[j]);
                }
            }
        }
        assert forall|i: int| 0 <= i < polled.len() implies #[trigger] all[i] == (if exists|j: int|
            0 <= j < i && ends_stream(#[trigger] polled[j]) {
            Poll::Ready(None)
        } else {
            polled[i]
        }) by {
            if i < n {
                assert(all[i] == given[i]);
                if exists|j: int| 0 <= j < i && ends_stream(#[trigger] polled[j]) {
                    let j = choose|j: int| 0 <= j < i && ends_stream(#[trigger] polled[j]);
                    assert(ends_stream(before[j]));
                } else {
                    assert forall|j: int| 0 <= j < i implies !ends_stream(#[trigger] before[j]) by {
                        assert(before[j] == polled[j]);
                    }
                }
            }
        }
        if ends_stream(polled[n]) {
            assert(ends_stream(polled[n]));
        }
    }
}

/// An active stream is spent exactly by the end or a failure of its source, and notes which of the
/// two it was; a spent one stays as it is.
pub proof fn law_fused_notes_its_end<S, T, E>(
    stream: TryFuseStream<S>,
    polled: Poll<Option<Result<T, E>>>,
)
    ensures
        ({
            let after = fuse_step(stream, polled).0;
            &&& stream is Ended ==> after == stream
            &&& stream is Active && after is Active ==> after == stream
            &&& stream is Active ==> (after matches TryFuseStream::Ended { failed } && !failed
                <==> (polled matches Poll::Ready(None)))
            &&& stream is Active ==> (after matches TryFuseStream::Ended { failed } && failed
                <==> (polled matches Poll::Ready(Some(Err(_)))))
        }),
{
}

} // verus!
