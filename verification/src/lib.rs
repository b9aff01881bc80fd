//! A library for managing keychain items.
//!
//! A keychain item is a secret that the operating system keeps under a logical
//! key: a service, an optional username and a class. This crate holds the part
//! of that job that needs no operating system: the identity of an item, the
//! request that creates one, the sparse request that changes one, and, for
//! every native store, the exact sequence of native calls that an operation
//! consists of together with what each answer leads to. The calls themselves
//! are made by the caller, who hands every answer back.
//!
//! ```text
//! let item = KeychainItemBuilder::new("hello_world", "hunter2").username("username");
//! let mut step = sys::linux::store(item);
//! let stored = loop {
//!     match step {
//!         Step::Call(request, state) => step = sys::linux::resume(state, perform(request)),
//!         Step::Finished(result) => break result,
//!     }
//! };
//! let id = item.store(stored.map(drop))?;
//! ```
//!
//! Each module of [`sys`] says what its operations ask of the store, and ends
//! with what follows for a store that behaves: that a stored secret is loaded
//! again, that a deleted one is gone, that an update with nothing in it
//! changes nothing, that an update of the secret alone keeps the handle
//! valid, that an update of the key moves the item, and what an interrupted
//! update leaves behind.

use vstd::prelude::*;

pub mod error;
pub mod sys;
pub mod text;

pub use error::{Cause, Error, Failure, Fault};
use text::{same_optional_text, same_text};

verus! {

/// The class of a keychain item.
#[derive(Copy, Clone, Debug, PartialEq, Eq, Structural)]
pub enum Class {
    Generic,
    Internet,
}

impl Default for Class {
    fn default() -> (class: Self)
        ensures
            class == Class::Generic,
    {
        Class::Generic
    }
}

/// The text behind an optional string slice.
pub open spec fn optional_text(s: Option<&str>) -> Option<Seq<char>> {
    match s {
        Some(s) => Some(s@),
        None => None,
    }
}

/// The logical key of a stored item: what an [`Identifier`] stands for.
///
/// Two identities are equal exactly when service, username and class are.
pub struct Identity {
    pub service: Seq<char>,
    pub username: Option<Seq<char>>,
    pub class: Class,
}

impl Identity {
    /// Neither the service nor the username, where there is one, holds
    /// `separator`. The stores that join username and service into one name
    /// tell such identities apart; of others they promise nothing.
    pub open spec fn is_free_of(self, separator: char) -> bool {
        &&& !self.service.contains(separator)
        &&& self.username matches Some(username) ==> !username.contains(separator)
    }
}

/// What a [`KeychainItemBuilder`] has collected.
pub struct Item {
    pub service: Seq<char>,
    pub secret: Seq<char>,
    pub class: Class,
    pub username: Option<Seq<char>>,
}

impl Item {
    /// The identity under which the item is stored.
    pub open spec fn identity(self) -> Identity {
        Identity { service: self.service, username: self.username, class: self.class }
    }
}

/// What an [`UpdateOptions`] has collected: a field that is `None` keeps its
/// current value.
pub struct Changes {
    pub service: Option<Seq<char>>,
    pub secret: Option<Seq<char>>,
    pub class: Option<Class>,
    pub username: Option<Seq<char>>,
}

impl Changes {
    /// No field is overridden.
    pub open spec fn is_empty(self) -> bool {
        self.service is None && self.secret is None && self.class is None && self.username is None
    }

    /// The secret that an item has once the changes are made: the new one
    /// where the changes hold one, the current one otherwise.
    pub open spec fn apply_secret(self, current: Seq<char>) -> Seq<char> {
        match self.secret {
            Some(secret) => secret,
            None => current,
        }
    }

    /// The identity that `current` turns into: every override applied, every
    /// other field inherited.
    pub open spec fn apply(self, current: Identity) -> Identity {
        Identity {
            service: match self.service {
                Some(service) => service,
                None => current.service,
            },
            username: match self.username {
                Some(username) => Some(username),
                None => current.username,
            },
            class: match self.class {
                Some(class) => class,
                None => current.class,
            },
        }
    }
}

/// Changes that are empty leave identity and secret as they are.
pub proof fn lemma_empty_changes(changes: Changes, current: Identity, secret: Seq<char>)
    requires
        changes.is_empty(),
    ensures
        changes.apply(current) == current,
        changes.apply_secret(secret) == secret,
{
}

/// Every field of the new identity is the override where there is one and
/// the current value where there is none; a username, once there, cannot be
/// taken away.
pub proof fn lemma_changes_override_or_inherit(changes: Changes, current: Identity)
    ensures
        changes.service is Some ==> changes.apply(current).service == changes.service->0,
        changes.service is None ==> changes.apply(current).service == current.service,
        changes.username is Some ==> changes.apply(current).username == changes.username,
        changes.username is None ==> changes.apply(current).username == current.username,
        changes.class is Some ==> changes.apply(current).class == changes.class->0,
        changes.class is None ==> changes.apply(current).class == current.class,
        current.username is Some ==> changes.apply(current).username is Some,
{
}

/// Builder to add an item to the keychain.
///
/// See the crate-level docs for more information.
#[derive(Copy, Clone, Debug, Eq)]
pub struct KeychainItemBuilder<'a> {
    service: &'a str,
    secret: &'a str,
    class: Class,
    username: Option<&'a str>,
}

impl<'a> View for KeychainItemBuilder<'a> {
    type V = Item;

    closed spec fn view(&self) -> Item {
        Item {
            service: self.service@,
            secret: self.secret@,
            class: self.class,
            username: optional_text(self.username),
        }
    }
}

impl<'a> PartialEq for KeychainItemBuilder<'a> {
    /// Two builders are equal exactly when they have collected the same.
    fn eq(&self, other: &Self) -> (equal: bool) {
        same_text(self.service, other.service) && same_text(self.secret, other.secret)
            && self.class == other.class && same_optional_text(self.username, other.username)
    }
}

impl<'a> vstd::std_specs::cmp::PartialEqSpecImpl for KeychainItemBuilder<'a> {
    open spec fn obeys_eq_spec() -> bool {
        true
    }

    open spec fn eq_spec(&self, other: &Self) -> bool {
        self@ == other@
    }
}

impl<'a> KeychainItemBuilder<'a> {
    /// Creates a new `KeychainItemBuilder`.
    pub fn new(service: &'a str, secret: &'a str) -> (item: Self)
        ensures
            item@ == (Item {
                service: service@,
                secret: secret@,
                class: Class::Generic,
                username: None,
            }),
    {
        Self { service, secret, class: Class::default(), username: None }
    }

    /// Sets the class for the keychain item.
    pub fn class(self, class: Class) -> (item: Self)
        ensures
            item@ == (Item { class, ..self@ }),
    {
        Self { class, ..self }
    }

    /// Sets the username for the keychain item.
    pub fn username(self, username: &'a str) -> (item: Self)
        ensures
            item@ == (Item { username: Some(username@), ..self@ }),
    {
        Self { username: Some(username), ..self }
    }

    /// Hands out the handle of the item once the native store has taken it:
    /// `stored` is how the store operation of the backend ended. The handle
    /// holds exactly the fields used at creation time.
    pub fn store<E>(self, stored: Result<(), Error<E>>) -> (handle: Result<Identifier<'a>, Error<E>>)
        ensures
            stored is Ok ==> handle is Ok && handle->Ok_0@ == self@.identity(),
            stored is Err ==> handle is Err && handle->Err_0 == stored->Err_0,
    {
        match stored {
            Ok(()) => Ok(self.identifier()),
            Err(error) => Err(error),
        }
    }

    /// The identity under which the item is stored.
    pub fn identifier(&self) -> (identifier: Identifier<'a>)
        ensures
            identifier@ == self@.identity(),
    {
        Identifier { service: self.service, username: self.username, class: self.class }
    }

    pub(crate) fn service_text(&self) -> (service: &'a str)
        ensures
            service@ == self@.service,
    {
        self.service
    }

    pub(crate) fn secret_text(&self) -> (secret: &'a str)
        ensures
            secret@ == self@.secret,
    {
        self.secret
    }

    pub(crate) fn username_text(&self) -> (username: Option<&'a str>)
        ensures
            optional_text(username) == self@.username,
    {
        self.username
    }

    pub(crate) fn item_class(&self) -> (class: Class)
        ensures
            class == self@.class,
    {
        self.class
    }
}

/// The fields of a stored item that an update changes.
#[derive(Debug, Eq)]
pub struct UpdateOptions<'a> {
    service: Option<&'a str>,
    secret: Option<&'a str>,
    class: Option<Class>,
    username: Option<&'a str>,
}

impl<'a> View for UpdateOptions<'a> {
    type V = Changes;

    closed spec fn view(&self) -> Changes {
        Changes {
            service: optional_text(self.service),
            secret: optional_text(self.secret),
            class: self.class,
            username: optional_text(self.username),
        }
    }
}

impl<'a> Clone for UpdateOptions<'a> {
    fn clone(&self) -> (copy: Self)
        ensures
            copy@ == self@,
    {
        Self {
            service: self.service,
            secret: self.secret,
            class: self.class,
            username: self.username,
        }
    }
}

impl<'a> PartialEq for UpdateOptions<'a> {
    /// Two sets of options are equal exactly when they override the same
    /// fields with the same values.
    fn eq(&self, other: &Self) -> (equal: bool) {
        same_optional_text(self.service, other.service) && same_optional_text(
            self.secret,
            other.secret,
        ) && match (self.class, other.class) {
            (Some(class), Some(other_class)) => class == other_class,
            (None, None) => true,
            _ => false,
        } && same_optional_text(self.username, other.username)
    }
}

impl<'a> vstd::std_specs::cmp::PartialEqSpecImpl for UpdateOptions<'a> {
    open spec fn obeys_eq_spec() -> bool {
        true
    }

    open spec fn eq_spec(&self, other: &Self) -> bool {
        self@ == other@
    }
}

impl<'a> Default for UpdateOptions<'a> {
    fn default() -> (options: Self)
        ensures
            options@.is_empty(),
    {
        Self { service: None, secret: None, class: None, username: None }
    }
}

impl<'a> UpdateOptions<'a> {
    /// Options that change nothing.
    pub fn new() -> (options: Self)
        ensures
            options@ == (Changes { service: None, secret: None, class: None, username: None }),
    {
        Self { service: None, secret: None, class: None, username: None }
    }

    /// Sets the service for the keychain item.
    pub fn service(self, service: &'a str) -> (options: Self)
        ensures
            options@ == (Changes { service: Some(service@), ..self@ }),
    {
        Self { service: Some(service), ..self }
    }

    /// Sets the secret for the keychain item.
    pub fn secret(self, secret: &'a str) -> (options: Self)
        ensures
            options@ == (Changes { secret: Some(secret@), ..self@ }),
    {
        Self { secret: Some(secret), ..self }
    }

    /// Sets the class for the keychain item.
    pub fn class(self, class: Class) -> (options: Self)
        ensures
            options@ == (Changes { class: Some(class), ..self@ }),
    {
        Self { class: Some(class), ..self }
    }

    /// Sets the username for the keychain item.
    pub fn username(self, username: &'a str) -> (options: Self)
        ensures
            options@ == (Changes { username: Some(username@), ..self@ }),
    {
        Self { username: Some(username), ..self }
    }

    pub(crate) fn service_text(&self) -> (service: Option<&'a str>)
        ensures
            optional_text(service) == self@.service,
    {
        self.service
    }

    pub(crate) fn secret_text(&self) -> (secret: Option<&'a str>)
        ensures
            optional_text(secret) == self@.secret,
    {
        self.secret
    }

    pub(crate) fn username_text(&self) -> (username: Option<&'a str>)
        ensures
            optional_text(username) == self@.username,
    {
        self.username
    }

    pub(crate) fn new_class(&self) -> (class: Option<Class>)
        ensures
            class == self@.class,
    {
        self.class
    }
}

/// An identifier returned by [`KeychainItemBuilder::store`] to later load,
/// update or delete the item.
#[derive(Copy, Clone, Debug, Eq)]
pub struct Identifier<'a> {
    pub service: &'a str,
    pub username: Option<&'a str>,
    pub class: Class,
}

impl<'a> View for Identifier<'a> {
    type V = Identity;

    open spec fn view(&self) -> Identity {
        Identity { service: self.service@, username: optional_text(self.username), class: self.class }
    }
}

impl<'a> PartialEq for Identifier<'a> {
    /// Two identifiers are equal exactly when service, username and class
    /// are.
    fn eq(&self, other: &Self) -> (equal: bool) {
        same_text(self.service, other.service) && same_optional_text(self.username, other.username)
            && self.class == other.class
    }
}

impl<'a> vstd::std_specs::cmp::PartialEqSpecImpl for Identifier<'a> {
    open spec fn obeys_eq_spec() -> bool {
        true
    }

    open spec fn eq_spec(&self, other: &Self) -> bool {
        self@ == other@
    }
}

impl<'a> Identifier<'a> {
    /// An owned copy of the identifier.
    pub fn to_owned(&self) -> (owned: OwnedIdentifier)
        ensures
            owned@ == self@,
    {
        OwnedIdentifier {
            service: self.service.to_owned(),
            username: match self.username {
                Some(username) => Some(username.to_owned()),
                None => None,
            },
            class: self.class,
        }
    }

    /// The identifier that the item has once `options` are applied: every
    /// override taken, every other field inherited.
    pub fn updated(&self, options: &UpdateOptions<'a>) -> (new_id: Self)
        ensures
            new_id@ == options@.apply(self@),
    {
        Self {
            service: match options.service {
                Some(service) => service,
                None => self.service,
            },
            username: match options.username {
                Some(username) => Some(username),
                None => self.username,
            },
            class: match options.class {
                Some(class) => class,
                None => self.class,
            },
        }
    }

    /// Hands out the handle of the updated item once the native store has
    /// been changed: `updated` is how the update operation of the backend
    /// ended. Where neither service nor username changes, `self` stays a
    /// valid handle beside the one returned.
    pub fn update<E>(&self, options: UpdateOptions<'a>, updated: Result<(), Error<E>>) -> (handle:
        Result<Self, Error<E>>)
        ensures
            updated is Ok ==> handle is Ok && handle->Ok_0@ == options@.apply(self@),
            updated is Err ==> handle is Err && handle->Err_0 == updated->Err_0,
    {
        match updated {
            Ok(()) => Ok(self.updated(&options)),
            Err(error) => Err(error),
        }
    }
}

/// An [`Identifier`] that owns its text.
#[derive(Debug, Eq)]
pub struct OwnedIdentifier {
    pub service: String,
    pub username: Option<String>,
    pub class: Class,
}

impl View for OwnedIdentifier {
    type V = Identity;

    open spec fn view(&self) -> Identity {
        Identity {
            service: self.service@,
            username: match self.username {
                Some(username) => Some(username@),
                None => None,
            },
            class: self.class,
        }
    }
}

impl Clone for OwnedIdentifier {
    fn clone(&self) -> (copy: Self)
        ensures
            copy@ == self@,
    {
        self.as_ref().to_owned()
    }
}

impl PartialEq for OwnedIdentifier {
    /// Two identifiers are equal exactly when service, username and class
    /// are.
    fn eq(&self, other: &Self) -> (equal: bool) {
        self.as_ref() == other.as_ref()
    }
}

impl vstd::std_specs::cmp::PartialEqSpecImpl for OwnedIdentifier {
    open spec fn obeys_eq_spec() -> bool {
        true
    }

    open spec fn eq_spec(&self, other: &Self) -> bool {
        self@ == other@
    }
}

impl OwnedIdentifier {
    /// The identifier as a borrowed handle.
    pub fn as_ref(&self) -> (identifier: Identifier<'_>)
        ensures
            identifier@ == self@,
    {
        Identifier {
            service: self.service.as_str(),
            username: match &self.username {
                Some(username) => Some(username.as_str()),
                None => None,
            },
            class: self.class,
        }
    }

    /// See [`Identifier::update`].
    pub fn update<'a, E>(&'a self, options: UpdateOptions<'a>, updated: Result<(), Error<E>>) -> (handle:
        Result<Identifier<'a>, Error<E>>)
        ensures
            updated is Ok ==> handle is Ok && handle->Ok_0@ == options@.apply(self@),
            updated is Err ==> handle is Err && handle->Err_0 == updated->Err_0,
    {
        self.as_ref().update(options, updated)
    }
}

} // verus!
