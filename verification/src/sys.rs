//! The native stores, one module each.
//!
//! No module here calls its store. Each turns an operation into the native
//! calls that it consists of, one at a time: an operation starts with a
//! `Step`, which either asks for one native call and names the state to go on
//! from, or holds the result. The caller performs the call and hands its
//! answer to `resume`, until the step holds the result.

use crate::error::{Error, Failure, Fault};
use crate::text::{decode, decoded};
use vstd::prelude::*;

pub mod android;
pub mod apple;
pub mod linux;
pub mod windows;

verus! {

/// What a native call hands back: `Ok(None)` where it succeeded and found or
/// returned nothing, `Ok(Some(..))` with what it read.
pub type Reply<P, E> = Result<Option<P>, Failure<E>>;

/// How an operation ends, as contracts see it: with nothing, with the secret
/// that was loaded, or with a fault.
pub type Outcome<E> = Result<Option<Seq<char>>, Fault<E>>;

/// The operation succeeded and hands nothing back.
pub open spec fn nothing<E>() -> Outcome<E> {
    Ok(None)
}

/// The operation succeeded and hands back a secret.
pub open spec fn found<E>(secret: Seq<char>) -> Outcome<E> {
    Ok(Some(secret))
}

/// The operation failed.
pub open spec fn failed<E>(fault: Fault<E>) -> Outcome<E> {
    Err(fault)
}

/// The outcome that a result stands for.
pub open spec fn outcome<E>(result: Result<Option<String>, Error<E>>) -> Outcome<E> {
    match result {
        Ok(Some(secret)) => Ok(Some(secret@)),
        Ok(None) => Ok(None),
        Err(error) => Err(error@),
    }
}

/// The outcome of reading `bytes` back as a secret.
pub open spec fn secret_of<E>(bytes: Seq<u8>) -> Outcome<E> {
    match decoded(bytes) {
        Some(secret) => Ok(Some(secret)),
        None => Err(Fault::Utf8),
    }
}

/// Reads bytes back as a secret: the text that they encode, or the error of
/// bytes that are not UTF-8.
pub fn read_back<E>(bytes: Vec<u8>) -> (result: Result<Option<String>, Error<E>>)
    ensures
        outcome(result) == secret_of::<E>(bytes@),
{
    match decode(bytes) {
        Ok(secret) => Ok(Some(secret)),
        Err(error) => Err(Error::Utf8(error)),
    }
}

/// What a store reports where no entry has the key that a call names: the
/// failure `report`, marked as one of absence.
pub open spec fn missing<E>(report: Failure<E>) -> Failure<E> {
    Failure { not_found: true, message: report.message, cause: report.cause }
}

/// The outcome of a call that ends an operation which hands nothing back.
pub open spec fn settled<P, E>(reply: Reply<P, E>) -> Outcome<E> {
    match reply {
        Ok(_) => Ok(None),
        Err(failure) => Err(Fault::Native(failure)),
    }
}

} // verus!
