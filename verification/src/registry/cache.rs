//! A registry in front of another: what is read from the one behind is kept in the one in front,
//! and what is written goes to both.

use std::sync::Arc;

use vstd::prelude::*;

verus! {

/// The two registries, and how the records of one become records of the other.
pub struct WriteThroughCache<Encode, Decode, Cache, Target> {
    pub encode: Arc<Encode>,
    pub decode: Arc<Decode>,
    /// The registry in front.
    pub a: Arc<Cache>,
    /// The registry behind.
    pub b: Arc<Target>,
}

/// Names a registration in both registries.
#[derive(Debug, Clone, Copy, Hash, PartialEq, Eq)]
pub struct CacheIdentifier<CacheIdent, TargetIdent> {
    pub cache_ident: CacheIdent,
    pub target_ident: TargetIdent,
}

impl<CacheIdent, TargetIdent> CacheIdentifier<CacheIdent, TargetIdent> {
    pub fn new(cache_ident: CacheIdent, target_ident: TargetIdent) -> (r: Self)
        ensures
            r == (CacheIdentifier { cache_ident, target_ident }),
    {
        CacheIdentifier { cache_ident, target_ident }
    }
}

/// Which of the two registries failed.
#[derive(Debug, Clone, Copy, PartialEq, Eq)]
pub enum WriteThroughCacheError<A, B> {
    CacheError(A),
    TargetError(B),
}

/// What is to be done next in a lookup.
#[derive(Debug)]
pub enum LookupStep<R, A, B> {
    /// Look the name up in the registry behind.
    AskTarget,
    /// Register this record in the registry in front.
    Store(R),
    /// This is the outcome.
    Finish(Result<Option<R>, WriteThroughCacheError<A, B>>),
}

/// What the answer of the registry in front leads to: what it holds is the outcome.
pub open spec fn cache_step<R, A, B>(cached: Result<Option<R>, A>) -> LookupStep<R, A, B> {
    match cached {
        Ok(Some(record)) => LookupStep::Finish(Ok(Some(record))),
        Ok(None) => LookupStep::AskTarget,
        Err(e) => LookupStep::Finish(Err(WriteThroughCacheError::CacheError(e))),
    }
}

/// What the answer of the registry behind, once decoded, leads to: what it holds is kept in the
/// registry in front.
pub open spec fn target_step<R, A, B>(decoded: Result<Option<R>, B>) -> LookupStep<R, A, B> {
    match decoded {
        Ok(Some(record)) => LookupStep::Store(record),
        Ok(None) => LookupStep::Finish(Ok(None)),
        Err(e) => LookupStep::Finish(Err(WriteThroughCacheError::TargetError(e))),
    }
}

/// What the registry in front being told of a record leads to.
pub open spec fn store_step<R, I, A, B>(record: R, stored: Result<I, A>) -> Result<
    Option<R>,
    WriteThroughCacheError<A, B>,
> {
    match stored {
        Ok(_) => Ok(Some(record)),
        Err(e) => Err(WriteThroughCacheError::CacheError(e)),
    }
}

impl<Encode, Decode, Cache, Target> WriteThroughCache<Encode, Decode, Cache, Target> {
    pub fn new(cache: Arc<Cache>, target: Arc<Target>, encode: Encode, decode: Decode) -> (r: Self)
        ensures
            *r.encode == encode,
            *r.decode == decode,
            r.a == cache,
            r.b == target,
    {
        WriteThroughCache {
            a: cache,
            b: target,
            encode: Arc::new(encode),
            decode: Arc::new(decode),
        }
    }

    /// Goes on with a lookup once the registry in front has answered: what it holds is the outcome.
    pub fn lookup<R, A, B>(cached: Result<Option<R>, A>) -> (r: LookupStep<R, A, B>)
        ensures
            r == cache_step::<R, A, B>(cached),
    {
        match cached {
            Ok(Some(record)) => LookupStep::Finish(Ok(Some(record))),
            Ok(None) => LookupStep::AskTarget,
            Err(e) => LookupStep::Finish(Err(WriteThroughCacheError::CacheError(e))),
        }
    }

    /// Goes on with a lookup once the registry behind has answered: what it holds is decoded, and
    /// kept in the registry in front.
    pub fn lookup_target<R, T, A, B>(&self, found: Result<Option<T>, B>) -> (r: LookupStep<R, A, B>)
        where Decode: Fn(T) -> R
        requires
            found matches Ok(Some(t)) ==> (*self.decode).requires((t,)),
        ensures
            match found {
                Ok(Some(t)) => exists|record: R| #[trigger]
                    (*self.decode).ensures((t,), record) && r == target_step::<R, A, B>(
                        Ok(Some(record)),
                    ),
                Ok(None) => r == target_step::<R, A, B>(Ok(None)),
                Err(e) => r == target_step::<R, A, B>(Err(e)),
            },
    {
        match found {
            Ok(Some(t)) => {
                let decode = &*self.decode;
                LookupStep::Store(decode(t))
            },
            Ok(None) => LookupStep::Finish(Ok(None)),
            Err(e) => LookupStep::Finish(Err(WriteThroughCacheError::TargetError(e))),
        }
    }

    /// Ends a lookup once the registry in front was told of the record.
    pub fn lookup_stored<R, I, A, B>(record: R, stored: Result<I, A>) -> (r: Result<
        Option<R>,
        WriteThroughCacheError<A, B>,
    >)
        ensures
            r == store_step::<R, I, A, B>(record, stored),
    {
        match stored {
            Ok(_) => Ok(Some(record)),
            Err(e) => Err(WriteThroughCacheError::CacheError(e)),
        }
    }

    /// The record that the registry behind is told of, when the registry in front is told of
    /// `record`.
    pub fn register<R, T>(&self, record: &R) -> (r: T) where Encode: Fn(&R) -> T
        requires
            (*self.encode).requires((record,)),
        ensures
            (*self.encode).ensures((record,), r),
    {
        let encode = &*self.encode;
        encode(record)
    }

    /// The record that was taken out of the two registries: that of the registry in front, else
    /// that of the registry behind, decoded.
    pub fn deregister<R, T>(&self, cached: Option<R>, found: Option<T>) -> (r: Option<R>) where
        Decode: Fn(T) -> R,

        requires
            cached is None && found is Some ==> (*self.decode).requires((found->0,)),
        ensures
            match (cached, found) {
                (Some(record), _) => r == Some(record),
                (None, Some(t)) => r matches Some(record) && (*self.decode).ensures((t,), record),
                (None, None) => r is None,
            },
    {
        match cached {
            Some(record) => Some(record),
            None => match found {
                Some(t) => {
                    let decode = &*self.decode;
                    Some(decode(t))
                },
                None => None,
            },
        }
    }
}

/// The answers of the two registries to an operation on both, as far as they have come.
#[derive(Debug)]
pub struct BothAnswers<X, Y> {
    pub cache: Option<X>,
    pub target: Option<Y>,
}

impl<X, Y> BothAnswers<X, Y> {
    /// No answer has come.
    pub fn none() -> (r: Self)
        ensures
            r.cache is None,
            r.target is None,
    {
        BothAnswers { cache: None, target: None }
    }

    /// Takes the answer of the registry in front.
    pub fn cache_answered<A, B>(self, answer: Result<X, A>) -> (r: Result<
        Self,
        WriteThroughCacheError<A, B>,
    >)
        ensures
            match answer {
                Ok(x) => r == Ok::<Self, WriteThroughCacheError<A, B>>(
                    BothAnswers { cache: Some(x), target: self.target },
                ),
                Err(e) => r == Err::<Self, WriteThroughCacheError<A, B>>(
                    WriteThroughCacheError::CacheError(e),
                ),
            },
    {
        match answer {
            Ok(x) => Ok(BothAnswers { cache: Some(x), target: self.target }),
            Err(e) => Err(WriteThroughCacheError::CacheError(e)),
        }
    }

    /// Takes the answer of the registry behind.
    pub fn target_answered<A, B>(self, answer: Result<Y, B>) -> (r: Result<
        Self,
        WriteThroughCacheError<A, B>,
    >)
        ensures
            match answer {
                Ok(y) => r == Ok::<Self, WriteThroughCacheError<A, B>>(
                    BothAnswers { cache: self.cache, target: Some(y) },
                ),
                Err(e) => r == Err::<Self, WriteThroughCacheError<A, B>>(
                    WriteThroughCacheError::TargetError(e),
                ),
            },
    {
        match answer {
            Ok(y) => Ok(BothAnswers { cache: self.cache, target: Some(y) }),
            Err(e) => Err(WriteThroughCacheError::TargetError(e)),
        }
    }

    /// Both answers, once they have come.
    pub fn both(self) -> (r: Option<(X, Y)>)
        ensures
            match (self.cache, self.target) {
                (Some(x), Some(y)) => r == Some((x, y)),
                _ => r is None,
            },
    {
        match (self.cache, self.target) {
            (Some(x), Some(y)) => Some((x, y)),
            _ => None,
        }
    }
}

/// A whole lookup of `name`, where neither registry fails: what it gives, and what the registry in
/// front holds afterwards. `behind` is what the registry behind holds under the name, decoded.
pub open spec fn lookup_run<R>(
    front: Map<Seq<char>, R>,
    behind: Option<R>,
    name: Seq<char>,
) -> (Option<R>, Map<Seq<char>, R>) {
    match cache_step::<R, (), ()>(Ok(front.get(name))) {
        LookupStep::Finish(outcome) => (outcome->Ok_0, front),
        LookupStep::Store(record) => (Some(record), front.insert(name, record)),
        LookupStep::AskTarget => match target_step::<R, (), ()>(Ok(behind)) {
            LookupStep::Store(record) => (
                store_step::<R, (), (), ()>(record, Ok(()))->Ok_0,
                front.insert(name, record),
            ),
            LookupStep::Finish(outcome) => (outcome->Ok_0, front),
            LookupStep::AskTarget => (None, front),
        },
    }
}

/// A lookup finds what the registry in front holds, and else what the registry behind does.
pub proof fn law_lookup_prefers_front<R>(
    front: Map<Seq<char>, R>,
    behind: Option<R>,
    name: Seq<char>,
)
    ensures
        lookup_run(front, behind, name).0 == if front.contains_key(name) {
            Some(front[name])
        } else {
            behind
        },
{
}

/// Once a lookup has found a record, the registry in front answers the same lookup with the same
/// record, whatever has become of the registry behind.
pub proof fn law_lookup_is_cached<R>(
    front: Map<Seq<char>, R>,
    behind: Option<R>,
    later: Option<R>,
    name: Seq<char>,
)
    requires
        lookup_run(front, behind, name).0 is Some,
    ensures
        ({
            let (found, kept) = lookup_run(front, behind, name);
            lookup_run(kept, later, name) == (found, kept)
        }),
{
}

/// A lookup changes nothing in the registry in front but the entry of its name.
pub proof fn law_lookup_leaves_others<R>(
    front: Map<Seq<char>, R>,
    behind: Option<R>,
    name: Seq<char>,
    other: Seq<char>,
)
    requires
        other != name,
    ensures
        lookup_run(front, behind, name).1.get(other) == front.get(other),
{
}

/// A lookup fails exactly when a registry that it asked failed, and with what that one reported. The
/// registry behind is asked exactly when the one in front answered that it holds nothing, and what
/// the registry behind holds is what is stored and found.
pub proof fn law_lookup_fails_as_reported<R, I, A, B>(
    cached: Result<Option<R>, A>,
    decoded: Result<Option<R>, B>,
    record: R,
    stored: Result<I, A>,
)
    ensures
        cache_step::<R, A, B>(cached) is AskTarget <==> (cached matches Ok(None)),
        !(cache_step::<R, A, B>(cached) is Store),
        cache_step::<R, A, B>(cached) matches LookupStep::Finish(outcome) ==> match outcome {
            Ok(found) => cached == Ok::<Option<R>, A>(found),
            Err(WriteThroughCacheError::CacheError(e)) => cached == Err::<Option<R>, A>(e),
            Err(WriteThroughCacheError::TargetError(_)) => false,
        },
        !(target_step::<R, A, B>(decoded) is AskTarget),
        target_step::<R, A, B>(decoded) matches LookupStep::Store(kept) ==> decoded == Ok::<
            Option<R>,
            B,
        >(Some(kept)),
        target_step::<R, A, B>(decoded) matches LookupStep::Finish(outcome) ==> match outcome {
            Ok(found) => found is None && decoded == Ok::<Option<R>, B>(None),
            Err(WriteThroughCacheError::TargetError(e)) => decoded == Err::<Option<R>, B>(e),
            Err(WriteThroughCacheError::CacheError(_)) => false,
        },
        match store_step::<R, I, A, B>(record, stored) {
            Ok(found) => found == Some(record) && stored is Ok,
            Err(WriteThroughCacheError::CacheError(e)) => stored == Err::<I, A>(e),
            Err(WriteThroughCacheError::TargetError(_)) => false,
        },
{
}

} // verus!
