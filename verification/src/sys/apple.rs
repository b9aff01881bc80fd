//! The keychain of macOS and iOS: one item per class, service and account.
//!
//! Service, class and username map to the keychain's own attributes. An item
//! without a username is kept under the empty account: a search that names
//! no account would find every account of the service. An identity without
//! a username and one with an empty username are therefore one item.
//!
//! What is said here of a keychain takes it to keep one item for each class,
//! service and account, and to find an item by all three.

use crate::error::{Error, Failure, Fault};
use crate::sys::{
    failed, found, missing, nothing, outcome, read_back, secret_of, settled, Outcome, Reply,
};
use crate::{Changes, Class, Identifier, Identity, Item, KeychainItemBuilder, UpdateOptions};
use vstd::prelude::*;
use vstd::string::StrSliceExecFns;
use vstd::utf8::{encode_utf8, encode_utf8_decode_utf8, encode_utf8_valid_utf8};

verus! {

/// The class of an item as the keychain knows it.
#[derive(Copy, Clone, Debug, PartialEq, Eq)]
pub enum ItemClass {
    GenericPassword,
    InternetPassword,
}

/// The keychain's class for a class of this library.
pub open spec fn class_of(class: Class) -> ItemClass {
    match class {
        Class::Generic => ItemClass::GenericPassword,
        Class::Internet => ItemClass::InternetPassword,
    }
}

/// The keychain's class for a class of this library.
pub fn convert_class(class: Class) -> (item_class: ItemClass)
    ensures
        item_class == class_of(class),
{
    match class {
        Class::Generic => ItemClass::GenericPassword,
        Class::Internet => ItemClass::InternetPassword,
    }
}

/// What a search is narrowed by: class, service and account.
#[derive(Copy, Clone, Debug, PartialEq, Eq)]
pub struct SearchOptions<'a> {
    pub service: &'a str,
    pub class: ItemClass,
    pub account: &'a str,
}

/// The key of an item in the keychain.
pub struct Key {
    pub service: Seq<char>,
    pub class: ItemClass,
    pub account: Seq<char>,
}

/// The account of a username: the username, and the empty account where
/// there is none.
pub open spec fn account_of(username: Option<Seq<char>>) -> Seq<char> {
    match username {
        Some(username) => username,
        None => Seq::empty(),
    }
}

/// The account of a username.
pub fn account<'a>(username: Option<&'a str>) -> (account: &'a str)
    ensures
        account@ == account_of(crate::optional_text(username)),
{
    match username {
        Some(username) => username,
        None => {
            proof {
                reveal_strlit("");
                assert(""@ =~= Seq::<char>::empty());
            }
            ""
        },
    }
}

impl<'a> View for SearchOptions<'a> {
    type V = Key;

    open spec fn view(&self) -> Key {
        Key { service: self.service@, class: self.class, account: self.account@ }
    }
}

/// The key of an identity: service, class and username map to the
/// keychain's own attributes.
pub open spec fn key_of(identity: Identity) -> Key {
    Key {
        service: identity.service,
        class: class_of(identity.class),
        account: account_of(identity.username),
    }
}

/// The search that finds the item of an identifier.
pub fn search_options<'a>(identifier: &Identifier<'a>) -> (options: SearchOptions<'a>)
    ensures
        options@ == key_of(identifier@),
{
    SearchOptions {
        service: identifier.service,
        class: convert_class(identifier.class),
        account: account(identifier.username),
    }
}

/// A call of the keychain.
#[derive(Debug, PartialEq, Eq)]
pub enum Request<'a> {
    /// Add an item. The keychain refuses one whose key is taken.
    Add { class: ItemClass, service: &'a str, account: &'a str, data: Vec<u8> },
    /// Hand back the data of the first item that the search finds.
    Search { options: SearchOptions<'a> },
    /// Change the item that the search finds: every field that is given.
    Update {
        options: SearchOptions<'a>,
        new_service: Option<&'a str>,
        new_data: Option<Vec<u8>>,
        new_class: Option<ItemClass>,
        new_account: Option<&'a str>,
    },
    /// Drop the item that the search finds.
    Delete { options: SearchOptions<'a> },
}

/// What a [`Request`] holds.
pub enum RequestView {
    Add { key: Key, data: Seq<u8> },
    Search { key: Key },
    Update {
        key: Key,
        new_service: Option<Seq<char>>,
        new_data: Option<Seq<u8>>,
        new_class: Option<ItemClass>,
        new_account: Option<Seq<char>>,
    },
    Delete { key: Key },
}

/// The bytes behind an optional buffer.
pub open spec fn bytes(data: Option<Vec<u8>>) -> Option<Seq<u8>> {
    match data {
        Some(data) => Some(data@),
        None => None,
    }
}

impl<'a> View for Request<'a> {
    type V = RequestView;

    open spec fn view(&self) -> RequestView {
        match *self {
            Request::Add { class, service, account, data } => RequestView::Add {
                key: Key { service: service@, class, account: account@ },
                data: data@,
            },
            Request::Search { options } => RequestView::Search { key: options@ },
            Request::Update {
                options,
                new_service,
                new_data,
                new_class,
                new_account,
            } => RequestView::Update {
                key: options@,
                new_service: crate::optional_text(new_service),
                new_data: bytes(new_data),
                new_class,
                new_account: crate::optional_text(new_account),
            },
            Request::Delete { options } => RequestView::Delete { key: options@ },
        }
    }
}

/// Where an operation stands while a call is under way.
#[derive(Copy, Clone, Debug, PartialEq, Eq)]
pub enum State {
    /// The call is the last one: the operation ends as the call does.
    Last,
    /// The call searches the item whose secret is asked for.
    Load,
}

/// What an operation needs next: a call and the state to resume from with
/// its answer, or nothing more.
#[derive(Debug, PartialEq, Eq)]
pub enum Step<'a, E> {
    Call(Request<'a>, State),
    Finished(Result<Option<String>, Error<E>>),
}

/// What a [`Step`] holds.
pub enum StepView<E> {
    Call(RequestView, State),
    Finished(Outcome<E>),
}

impl<'a, E> View for Step<'a, E> {
    type V = StepView<E>;

    open spec fn view(&self) -> StepView<E> {
        match *self {
            Step::Call(request, state) => StepView::Call(request@, state),
            Step::Finished(result) => StepView::Finished(outcome(result)),
        }
    }
}

/// What the answer to a call holds.
pub open spec fn answered<E>(reply: Reply<Vec<u8>, E>) -> Reply<Seq<u8>, E> {
    match reply {
        Ok(Some(data)) => Ok(Some(data@)),
        Ok(None) => Ok(None),
        Err(failure) => Err(failure),
    }
}

/// The class that an update sets.
pub open spec fn new_class(class: Option<Class>) -> Option<ItemClass> {
    match class {
        Some(class) => Some(class_of(class)),
        None => None,
    }
}

/// The data that an update sets.
pub open spec fn new_data(secret: Option<Seq<char>>) -> Option<Seq<u8>> {
    match secret {
        Some(secret) => Some(encode_utf8(secret)),
        None => None,
    }
}

/// Storing an item is one call: add it.
pub open spec fn store_step<E>(item: Item) -> StepView<E> {
    StepView::Call(
        RequestView::Add { key: key_of(item.identity()), data: encode_utf8(item.secret) },
        State::Last,
    )
}

/// Loading a secret is one call: search the item.
pub open spec fn load_step<E>(identity: Identity) -> StepView<E> {
    StepView::Call(RequestView::Search { key: key_of(identity) }, State::Load)
}

/// Updating an item is one call: the keychain changes the item that a search
/// finds, also where its key changes.
pub open spec fn update_step<E>(identity: Identity, changes: Changes) -> StepView<E> {
    StepView::Call(
        RequestView::Update {
            key: key_of(identity),
            new_service: changes.service,
            new_data: new_data(changes.secret),
            new_class: new_class(changes.class),
            new_account: changes.username,
        },
        State::Last,
    )
}

/// Deleting an item is one call.
pub open spec fn delete_step<E>(identity: Identity) -> StepView<E> {
    StepView::Call(RequestView::Delete { key: key_of(identity) }, State::Last)
}

/// What follows the answer to a call: the last call ends the operation as it
/// ended itself; a load ends with the secret found, with nothing where no
/// item is there, with the failure otherwise.
pub open spec fn resume_step<E>(state: State, reply: Reply<Seq<u8>, E>) -> StepView<E> {
    match state {
        State::Last => StepView::Finished(settled(reply)),
        State::Load => StepView::Finished(
            match reply {
                Ok(Some(data)) => secret_of(data),
                Ok(None) => Ok(None),
                Err(failure) => if failure.not_found {
                    Ok(None)
                } else {
                    Err(Fault::Native(failure))
                },
            },
        ),
    }
}

/// Begins to store an item.
pub fn store<'a, E>(item: KeychainItemBuilder<'a>) -> (step: Step<'a, E>)
    ensures
        step@ == store_step::<E>(item@),
{
    Step::Call(
        Request::Add {
            class: convert_class(item.item_class()),
            service: item.service_text(),
            account: account(item.username_text()),
            data: item.secret_text().as_bytes_vec(),
        },
        State::Last,
    )
}

/// Begins to load the secret of an item.
pub fn load<'a, E>(identifier: &Identifier<'a>) -> (step: Step<'a, E>)
    ensures
        step@ == load_step::<E>(identifier@),
{
    Step::Call(Request::Search { options: search_options(identifier) }, State::Load)
}

/// Begins to change an item.
pub fn update<'a, E>(identifier: &Identifier<'a>, options: UpdateOptions<'a>) -> (step: Step<'a, E>)
    ensures
        step@ == update_step::<E>(identifier@, options@),
{
    Step::Call(
        Request::Update {
            options: search_options(identifier),
            new_service: options.service_text(),
            new_data: match options.secret_text() {
                Some(secret) => Some(secret.as_bytes_vec()),
                None => None,
            },
            new_class: match options.new_class() {
                Some(class) => Some(convert_class(class)),
                None => None,
            },
            new_account: options.username_text(),
        },
        State::Last,
    )
}

/// Begins to delete an item.
pub fn delete<'a, E>(identifier: &Identifier<'a>) -> (step: Step<'a, E>)
    ensures
        step@ == delete_step::<E>(identifier@),
{
    Step::Call(Request::Delete { options: search_options(identifier) }, State::Last)
}

/// Goes on with an operation: `reply` is the answer to the call that the
/// last step asked for, `state` the state that it named.
pub fn resume<'a, E>(state: State, reply: Reply<Vec<u8>, E>) -> (step: Step<'a, E>)
    ensures
        step@ == resume_step(state, answered(reply)),
{
    match state {
        State::Last => match reply {
            Ok(_) => Step::Finished(Ok(None)),
            Err(failure) => Step::Finished(Err(Error::Native(failure))),
        },
        State::Load => match reply {
            Ok(Some(data)) => Step::Finished(read_back(data)),
            Ok(None) => Step::Finished(Ok(None)),
            Err(failure) => if failure.not_found {
                Step::Finished(Ok(None))
            } else {
                Step::Finished(Err(Error::Native(failure)))
            },
        },
    }
}

/// What a keychain holds: the data of each key.
pub type Items = Map<Key, Seq<u8>>;

/// The key that an update gives the item of `key`.
pub open spec fn moved(
    key: Key,
    service: Option<Seq<char>>,
    class: Option<ItemClass>,
    account: Option<Seq<char>>,
) -> Key {
    Key {
        service: match service {
            Some(service) => service,
            None => key.service,
        },
        class: match class {
            Some(class) => class,
            None => key.class,
        },
        account: match account {
            Some(account) => account,
            None => key.account,
        },
    }
}

/// How a keychain takes a call.
pub enum Verdict {
    /// It carries the call out.
    Done,
    /// It finds no item of the key.
    Absent,
    /// It finds the key taken.
    Duplicate,
}

/// How a keychain that holds `items` and works takes a call. It adds no item
/// whose key is taken, moves no item to a key that another has, and finds
/// only what is there.
pub open spec fn verdict(items: Items, request: RequestView) -> Verdict {
    match request {
        RequestView::Add { key, .. } => if items.contains_key(key) {
            Verdict::Duplicate
        } else {
            Verdict::Done
        },
        RequestView::Search { key } => if items.contains_key(key) {
            Verdict::Done
        } else {
            Verdict::Absent
        },
        RequestView::Update { key, new_service, new_class, new_account, .. } => if !items.contains_key(
            key,
        ) {
            Verdict::Absent
        } else if moved(key, new_service, new_class, new_account) != key && items.contains_key(
            moved(key, new_service, new_class, new_account),
        ) {
            Verdict::Duplicate
        } else {
            Verdict::Done
        },
        RequestView::Delete { key } => if items.contains_key(key) {
            Verdict::Done
        } else {
            Verdict::Absent
        },
    }
}

/// The answer of a keychain that holds `items` and works: with `absent` it
/// reports that no item has the key, with `duplicate` that the key is taken.
pub open spec fn answer<E>(
    items: Items,
    request: RequestView,
    absent: Failure<E>,
    duplicate: Failure<E>,
) -> Reply<Seq<u8>, E> {
    match verdict(items, request) {
        Verdict::Done => match request {
            RequestView::Search { key } => Ok(Some(items[key])),
            _ => Ok(None),
        },
        Verdict::Absent => Err(missing(absent)),
        Verdict::Duplicate => Err(duplicate),
    }
}

/// What such a keychain holds after the call.
pub open spec fn after(items: Items, request: RequestView) -> Items {
    match verdict(items, request) {
        Verdict::Done => match request {
            RequestView::Add { key, data } => items.insert(key, data),
            RequestView::Search { .. } => items,
            RequestView::Update {
                key,
                new_service,
                new_data,
                new_class,
                new_account,
            } => items.remove(key).insert(
                moved(key, new_service, new_class, new_account),
                match new_data {
                    Some(data) => data,
                    None => items[key],
                },
            ),
            RequestView::Delete { key } => items.remove(key),
        },
        _ => items,
    }
}

impl<E> StepView<E> {
    /// How many calls the operation can still ask for: every operation is a
    /// single call.
    pub open spec fn calls_left(self) -> nat {
        match self {
            StepView::Call(..) => 1,
            StepView::Finished(_) => 0,
        }
    }
}

/// A call that fails ends the operation with the failure of the keychain.
/// The one exception is a load that finds no item, which ends with nothing.
pub proof fn lemma_failure_ends<E>(state: State, failure: Failure<E>)
    requires
        !(state is Load && failure.not_found),
    ensures
        resume_step::<E>(state, Err(failure)) == StepView::Finished(failed(Fault::Native(failure))),
{
}

/// Every operation is a single call: its answer ends the operation.
pub proof fn lemma_calls_run_out<E>(state: State, reply: Reply<Seq<u8>, E>)
    ensures
        resume_step(state, reply).calls_left() == 0,
{
}

/// An operation carried through from `step` against a keychain that holds
/// `items` and works: what the keychain holds in the end, and how the
/// operation ends.
pub open spec fn run<E>(items: Items, step: StepView<E>, absent: Failure<E>, duplicate: Failure<E>) -> (
    Items,
    Outcome<E>,
)
    decreases step.calls_left(),
{
    match step {
        StepView::Call(request, state) => run(
            after(items, request),
            resume_step(state, answer(items, request, absent, duplicate)),
            absent,
            duplicate,
        ),
        StepView::Finished(outcome) => (items, outcome),
    }
}

/// `items` keep `secret` for `identity`.
pub open spec fn keeps(items: Items, identity: Identity, secret: Seq<char>) -> bool {
    &&& items.contains_key(key_of(identity))
    &&& items[key_of(identity)] == encode_utf8(secret)
}

/// `items` have nothing for `identity`.
pub open spec fn lacks(items: Items, identity: Identity) -> bool {
    !items.contains_key(key_of(identity))
}

/// Two identities have the same key only if they have the same service,
/// class and account: that is the same username, or none in the one and an
/// empty one in the other.
pub proof fn lemma_keys_tell_apart(a: Identity, b: Identity)
    requires
        key_of(a) == key_of(b),
    ensures
        a.service == b.service,
        a.class == b.class,
        a.username == b.username || (a.username is None && b.username == Some(
            Seq::<char>::empty(),
        )) || (b.username is None && a.username == Some(Seq::<char>::empty())),
{
}

/// Storing an item that is not there yet succeeds, and the item is kept
/// from then on.
pub proof fn lemma_store_keeps<E>(items: Items, item: Item, absent: Failure<E>, duplicate: Failure<E>)
    requires
        lacks(items, item.identity()),
    ensures
        run(items, store_step(item), absent, duplicate).1 == nothing::<E>(),
        keeps(run(items, store_step(item), absent, duplicate).0, item.identity(), item.secret),
{
    reveal_with_fuel(run, 2);
}

/// Storing an item whose key is taken fails with what the keychain reports,
/// and changes nothing.
pub proof fn lemma_store_taken<E>(items: Items, item: Item, absent: Failure<E>, duplicate: Failure<E>)
    requires
        !lacks(items, item.identity()),
    ensures
        run(items, store_step(item), absent, duplicate) == (
            items,
            failed(Fault::Native(duplicate)),
        ),
{
    reveal_with_fuel(run, 2);
}

/// Loading what is kept gives the secret.
pub proof fn lemma_load_kept<E>(
    items: Items,
    identity: Identity,
    secret: Seq<char>,
    absent: Failure<E>,
    duplicate: Failure<E>,
)
    requires
        keeps(items, identity, secret),
    ensures
        run(items, load_step(identity), absent, duplicate) == (items, found::<E>(secret)),
{
    reveal_with_fuel(run, 2);
    encode_utf8_valid_utf8(secret);
    encode_utf8_decode_utf8(secret);
}

/// Loading what is not there gives nothing, and no error.
pub proof fn lemma_load_lacking<E>(
    items: Items,
    identity: Identity,
    absent: Failure<E>,
    duplicate: Failure<E>,
)
    requires
        lacks(items, identity),
    ensures
        run(items, load_step(identity), absent, duplicate) == (items, nothing::<E>()),
{
    reveal_with_fuel(run, 2);
}

/// Deleting what is kept succeeds, and it is gone from then on.
pub proof fn lemma_delete_kept<E>(
    items: Items,
    identity: Identity,
    secret: Seq<char>,
    absent: Failure<E>,
    duplicate: Failure<E>,
)
    requires
        keeps(items, identity, secret),
    ensures
        run(items, delete_step(identity), absent, duplicate).1 == nothing::<E>(),
        lacks(run(items, delete_step(identity), absent, duplicate).0, identity),
{
    reveal_with_fuel(run, 2);
}

/// Deleting what is not there fails with what the keychain reports.
pub proof fn lemma_delete_lacking<E>(
    items: Items,
    identity: Identity,
    absent: Failure<E>,
    duplicate: Failure<E>,
)
    requires
        lacks(items, identity),
    ensures
        run(items, delete_step(identity), absent, duplicate) == (
            items,
            failed(Fault::Native(missing(absent))),
        ),
{
    reveal_with_fuel(run, 2);
}

/// Updating what is not there fails with what the keychain reports.
pub proof fn lemma_update_lacking<E>(
    items: Items,
    identity: Identity,
    changes: Changes,
    absent: Failure<E>,
    duplicate: Failure<E>,
)
    requires
        lacks(items, identity),
    ensures
        run(items, update_step(identity, changes), absent, duplicate) == (
            items,
            failed(Fault::Native(missing(absent))),
        ),
{
    reveal_with_fuel(run, 2);
}

/// Updating what is kept succeeds, unless the changes give it the key of
/// another item. The item is then kept under the identity that the changes
/// give it, with the secret that they give it. Where the key changes,
/// nothing is left under the old one. No other item is touched, and changes
/// that are empty leave everything as it is.
pub proof fn lemma_update_kept<E>(
    items: Items,
    identity: Identity,
    secret: Seq<char>,
    changes: Changes,
    absent: Failure<E>,
    duplicate: Failure<E>,
)
    requires
        keeps(items, identity, secret),
        key_of(changes.apply(identity)) == key_of(identity) || lacks(items, changes.apply(identity)),
    ensures
        ({
            let (then, outcome) = run(items, update_step(identity, changes), absent, duplicate);
            let new_identity = changes.apply(identity);
            &&& outcome == nothing::<E>()
            &&& keeps(then, new_identity, changes.apply_secret(secret))
            &&& key_of(new_identity) != key_of(identity) ==> lacks(then, identity)
            &&& forall|key: Key|
                key != key_of(identity) && key != key_of(new_identity) ==> then.contains_key(key)
                    == items.contains_key(key) && then[key] == items[key]
            &&& changes.is_empty() ==> then == items
        }),
{
    reveal_with_fuel(run, 2);
    let new_identity = changes.apply(identity);
    assert(moved(key_of(identity), changes.service, new_class(changes.class), changes.username)
        == key_of(new_identity));
    if changes.is_empty() {
        assert(run(items, update_step(identity, changes), absent, duplicate).0 =~= items);
    }
}

/// Loading with the handle that storing gives returns the secret that was
/// stored, whatever service, username and class the item has, where the
/// keychain had no such item before.
pub proof fn lemma_store_then_load<E>(
    items: Items,
    item: Item,
    absent: Failure<E>,
    duplicate: Failure<E>,
)
    requires
        lacks(items, item.identity()),
    ensures
        ({
            let (stored, outcome) = run(items, store_step(item), absent, duplicate);
            &&& outcome == nothing::<E>()
            &&& run(stored, load_step(item.identity()), absent, duplicate).1 == found::<E>(
                item.secret,
            )
        }),
{
    lemma_store_keeps(items, item, absent, duplicate);
    lemma_load_kept(
        run(items, store_step(item), absent, duplicate).0,
        item.identity(),
        item.secret,
        absent,
        duplicate,
    );
}

/// Deleting a stored item and then loading it gives nothing, and no error.
pub proof fn lemma_delete_then_load<E>(
    items: Items,
    identity: Identity,
    secret: Seq<char>,
    absent: Failure<E>,
    duplicate: Failure<E>,
)
    requires
        keeps(items, identity, secret),
    ensures
        ({
            let (deleted, outcome) = run(items, delete_step(identity), absent, duplicate);
            &&& outcome == nothing::<E>()
            &&& run(deleted, load_step(identity), absent, duplicate).1 == nothing::<E>()
        }),
{
    lemma_delete_kept(items, identity, secret, absent, duplicate);
    lemma_load_lacking(
        run(items, delete_step(identity), absent, duplicate).0,
        identity,
        absent,
        duplicate,
    );
}

/// Storing an item and then updating it with empty changes changes nothing:
/// the keychain holds what it held, and loading gives the secret that was
/// stored.
pub proof fn lemma_store_then_empty_update<E>(
    items: Items,
    item: Item,
    changes: Changes,
    absent: Failure<E>,
    duplicate: Failure<E>,
)
    requires
        lacks(items, item.identity()),
        changes.is_empty(),
    ensures
        ({
            let stored = run(items, store_step(item), absent, duplicate).0;
            let (updated, outcome) = run(
                stored,
                update_step(item.identity(), changes),
                absent,
                duplicate,
            );
            &&& outcome == nothing::<E>()
            &&& updated == stored
            &&& run(updated, load_step(item.identity()), absent, duplicate).1 == found::<E>(
                item.secret,
            )
        }),
{
    lemma_store_keeps(items, item, absent, duplicate);
    let stored = run(items, store_step(item), absent, duplicate).0;
    lemma_update_kept(stored, item.identity(), item.secret, changes, absent, duplicate);
    lemma_load_kept(stored, item.identity(), item.secret, absent, duplicate);
}

/// An update that gives a new secret and leaves service, username and class
/// as they are keeps the old handle valid: loading with it gives the new
/// secret.
pub proof fn lemma_update_secret_only<E>(
    items: Items,
    identity: Identity,
    secret: Seq<char>,
    changes: Changes,
    absent: Failure<E>,
    duplicate: Failure<E>,
)
    requires
        keeps(items, identity, secret),
        changes.secret is Some,
        changes.apply(identity) == identity,
    ensures
        ({
            let (updated, outcome) = run(items, update_step(identity, changes), absent, duplicate);
            &&& outcome == nothing::<E>()
            &&& run(updated, load_step(identity), absent, duplicate).1 == found::<E>(
                changes.secret->0,
            )
        }),
{
    lemma_update_kept(items, identity, secret, changes, absent, duplicate);
    let updated = run(items, update_step(identity, changes), absent, duplicate).0;
    lemma_load_kept(updated, identity, changes.secret->0, absent, duplicate);
}

/// An update that changes the key, by a new service, username or class,
/// moves the item, where no other item has the new key: loading with the
/// old handle gives nothing, loading with the new one gives the current
/// secret.
pub proof fn lemma_update_key<E>(
    items: Items,
    identity: Identity,
    secret: Seq<char>,
    changes: Changes,
    absent: Failure<E>,
    duplicate: Failure<E>,
)
    requires
        keeps(items, identity, secret),
        key_of(changes.apply(identity)) != key_of(identity),
        lacks(items, changes.apply(identity)),
    ensures
        ({
            let (updated, outcome) = run(items, update_step(identity, changes), absent, duplicate);
            &&& outcome == nothing::<E>()
            &&& run(updated, load_step(identity), absent, duplicate).1 == nothing::<E>()
            &&& run(updated, load_step(changes.apply(identity)), absent, duplicate).1
                == found::<E>(changes.apply_secret(secret))
        }),
{
    lemma_update_kept(items, identity, secret, changes, absent, duplicate);
    let updated = run(items, update_step(identity, changes), absent, duplicate).0;
    lemma_load_lacking(updated, identity, absent, duplicate);
    lemma_load_kept(
        updated,
        changes.apply(identity),
        changes.apply_secret(secret),
        absent,
        duplicate,
    );
}

} // verus!
