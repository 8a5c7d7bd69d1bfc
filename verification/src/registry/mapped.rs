//! A registry whose records, identifiers and errors are converted to those of another.

use std::marker::PhantomData;

use vstd::prelude::*;

verus! {

/// A registry with other types of records, identifiers and errors on its outside.
pub struct MappedTunnelRegistry<Inner, Record, Identifier, InnerError, Error> {
    pub inner: Inner,
    pub phantom_record: PhantomData<Record>,
    pub phantom_identifier: PhantomData<Identifier>,
    pub phantom_inner_error: PhantomData<InnerError>,
    pub phantom_error: PhantomData<Error>,
}

/// How an operation on such a registry can fail.
#[derive(Debug, Clone, Copy, PartialEq, Eq)]
pub enum MappedTunnelRegistryError<Inner> {
    /// The registry inside failed.
    Mapped(Inner),
    /// A value given from outside stands for none of the registry inside.
    Downcast,
}

impl<
    Inner,
    Record,
    Identifier,
    InnerError,
    Error: From<MappedTunnelRegistryError<InnerError>>,
> MappedTunnelRegistry<Inner, Record, Identifier, InnerError, Error> {
    pub fn new(inner: Inner) -> (r: Self)
        ensures
            r.inner == inner,
    {
        MappedTunnelRegistry {
            inner,
            phantom_record: PhantomData,
            phantom_identifier: PhantomData,
            phantom_inner_error: PhantomData,
            phantom_error: PhantomData,
        }
    }

    /// An error of the registry inside, as it is seen outside.
    pub fn map_error<E>(e: E) -> (r: Error) where InnerError: From<E>
        ensures
            exists|i: InnerError|
                call_ensures(<InnerError as From<E>>::from, (e,), i) && #[trigger] call_ensures(
                    <Error as From<MappedTunnelRegistryError<InnerError>>>::from,
                    (MappedTunnelRegistryError::Mapped(i),),
                    r,
                ),
    {
        let inner = <InnerError as From<E>>::from(e);
        <Error as From<MappedTunnelRegistryError<InnerError>>>::from(
            MappedTunnelRegistryError::Mapped(inner),
        )
    }

    /// What a lookup or a deregistration gives outside, from what it gave inside.
    pub fn lookup<R, E>(found: Result<Option<R>, E>) -> (r: Result<Option<Record>, Error>) where
        Record: From<R>,
        InnerError: From<E>,

        ensures
            match found {
                Ok(Some(record)) => r matches Ok(Some(o)) && call_ensures(
                    <Record as From<R>>::from,
                    (record,),
                    o,
                ),
                Ok(None) => r matches Ok(None),
                Err(e) => r matches Err(o) && call_ensures(Self::map_error::<E>, (e,), o),
            },
    {
        match found {
            Ok(Some(record)) => Ok(Some(<Record as From<R>>::from(record))),
            Ok(None) => Ok(None),
            Err(e) => Err(Self::map_error(e)),
        }
    }

    /// What is handed to the registry inside, from the conversion of what was given outside.
    pub fn accept<X, E>(converted: Result<X, E>) -> (r: Result<X, Error>)
        ensures
            match converted {
                Ok(x) => r == Ok::<X, Error>(x),
                Err(_) => r matches Err(o) && call_ensures(
                    <Error as From<MappedTunnelRegistryError<InnerError>>>::from,
                    (MappedTunnelRegistryError::Downcast,),
                    o,
                ),
            },
    {
        match converted {
            Ok(x) => Ok(x),
            Err(_) => Err(
                <Error as From<MappedTunnelRegistryError<InnerError>>>::from(
                    MappedTunnelRegistryError::Downcast,
                ),
            ),
        }
    }

    /// What a registration gives outside, from what it gave inside.
    pub fn register<I, E>(registered: Result<I, E>) -> (r: Result<Identifier, Error>) where
        Identifier: From<I>,
        InnerError: From<E>,

        ensures
            match registered {
                Ok(i) => r matches Ok(o) && call_ensures(<Identifier as From<I>>::from, (i,), o),
                Err(e) => r matches Err(o) && call_ensures(Self::map_error::<E>, (e,), o),
            },
    {
        match registered {
            Ok(i) => Ok(<Identifier as From<I>>::from(i)),
            Err(e) => Err(Self::map_error(e)),
        }
    }
}

} // verus!
