//! The one error type that every backend reports through.

use std::string::FromUtf8Error;
use vstd::prelude::*;

verus! {

/// What a native store reported when a call failed.
///
/// `cause` is the store's own error value, whatever its type; the library
/// carries it through untouched. `message` is its text. `not_found` says that
/// the call failed because no entry has the key it named.
#[derive(Debug, PartialEq, Eq)]
pub struct Failure<E> {
    pub not_found: bool,
    pub message: String,
    pub cause: E,
}

/// The error of every keychain operation.
#[derive(Debug, PartialEq, Eq)]
pub enum Error<E> {
    /// The native store failed.
    Native(Failure<E>),
    /// The bytes read back are not UTF-8.
    Utf8(FromUtf8Error),
    /// No data directory could be determined for the files of the fallback
    /// store.
    Directories,
    /// The item to update or delete does not exist.
    NotFound,
}

/// An [`Error`] without the value that the standard library made for
/// undecodable bytes: what contracts speak of.
pub enum Fault<E> {
    Native(Failure<E>),
    Utf8,
    Directories,
    NotFound,
}

/// The error that lies underneath an [`Error`].
#[derive(Debug, PartialEq, Eq)]
pub enum Cause<'a, E> {
    Native(&'a E),
    Utf8(&'a FromUtf8Error),
}

impl<E> Error<E> {
    /// The text of the error: that of the native store where it failed, what
    /// the standard library's error for bytes that are not UTF-8 displays,
    /// and a text of this library's own for the other two.
    pub fn message(&self) -> (message: String)
        ensures
            match *self {
                Error::Native(failure) => message@ == failure.message@,
                Error::Utf8(error) => vstd::string::to_string_from_display_ensures::<FromUtf8Error>(
                    &error,
                    message,
                ),
                Error::Directories => message@ == "no data directory could be determined"@,
                Error::NotFound => message@ == "no matching keychain item"@,
            },
    {
        match self {
            Error::Native(failure) => failure.message.clone(),
            Error::Utf8(error) => error.to_string(),
            Error::Directories => "no data directory could be determined".to_owned(),
            Error::NotFound => "no matching keychain item".to_owned(),
        }
    }

    /// The error underneath: the native store's own, or the standard
    /// library's for bytes that are not UTF-8. The other two have none.
    pub fn source(&self) -> (cause: Option<Cause<'_, E>>)
        ensures
            match *self {
                Error::Native(failure) => cause == Some(Cause::Native(&failure.cause)),
                Error::Utf8(error) => cause == Some(Cause::<E>::Utf8(&error)),
                Error::Directories => cause is None,
                Error::NotFound => cause is None,
            },
    {
        match self {
            Error::Native(failure) => Some(Cause::Native(&failure.cause)),
            Error::Utf8(error) => Some(Cause::Utf8(error)),
            Error::Directories => None,
            Error::NotFound => None,
        }
    }
}

impl<E> View for Error<E> {
    type V = Fault<E>;

    open spec fn view(&self) -> Fault<E> {
        match *self {
            Error::Native(failure) => Fault::Native(failure),
            Error::Utf8(_) => Fault::Utf8,
            Error::Directories => Fault::Directories,
            Error::NotFound => Fault::NotFound,
        }
    }
}

} // verus!
