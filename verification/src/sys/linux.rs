//! The Secret Service of a Linux desktop: one item per set of attributes.
//!
//! What is said here of a Secret Service takes it to keep one item for each
//! set of attributes and to find an item by the whole of its set.

use crate::error::{Error, Failure, Fault};
use crate::sys::{failed, found, nothing, outcome, settled, Outcome, Reply};
use crate::text::{concat, same_optional_text, same_text};
use crate::{Changes, Identifier, Identity, Item, KeychainItemBuilder, UpdateOptions};
use vstd::prelude::*;
use vstd::string::StringExecFns;

verus! {

/// The type of an attribute in a schema.
#[derive(Copy, Clone, Debug, PartialEq, Eq)]
pub enum SchemaAttributeType {
    Text,
    Integer,
    Boolean,
}

/// The flags of a schema.
#[derive(Copy, Clone, Debug, PartialEq, Eq)]
pub enum SchemaFlags {
    NoFlags,
    DontMatchName,
}

/// A schema in plain values: its name, its flags, and the name and type of
/// each attribute.
#[derive(Debug, PartialEq, Eq)]
pub struct Schema {
    pub name: &'static str,
    pub flags: SchemaFlags,
    pub attributes: Vec<(&'static str, SchemaAttributeType)>,
}

/// The schema of every item of this library: the generic one, with service
/// and username as text.
pub fn schema() -> (schema: Schema)
    ensures
        schema.name@ == "org.freedesktop.Secret.Generic"@,
        schema.flags == SchemaFlags::NoFlags,
        schema.attributes@.len() == 2,
        schema.attributes@[0].0@ == "service"@,
        schema.attributes@[0].1 == SchemaAttributeType::Text,
        schema.attributes@[1].0@ == "username"@,
        schema.attributes@[1].1 == SchemaAttributeType::Text,
{
    let mut attributes = Vec::new();
    attributes.push(("service", SchemaAttributeType::Text));
    attributes.push(("username", SchemaAttributeType::Text));
    Schema { name: "org.freedesktop.Secret.Generic", flags: SchemaFlags::NoFlags, attributes }
}

/// The attributes as text.
pub open spec fn named(attributes: Seq<(&str, &str)>) -> Seq<(Seq<char>, Seq<char>)> {
    Seq::new(attributes.len(), |i: int| (attributes[i].0@, attributes[i].1@))
}

/// The attributes that stand for a service and a username: the service
/// under `service`, the username, where there is one, under `username`.
pub open spec fn attributes_of(service: Seq<char>, username: Option<Seq<char>>) -> Seq<
    (Seq<char>, Seq<char>),
> {
    match username {
        Some(username) => seq![("service"@, service), ("username"@, username)],
        None => seq![("service"@, service)],
    }
}

/// No name occurs twice among the attributes of a service and a username:
/// they are a map from names to values, written down in a fixed order.
pub proof fn lemma_attribute_names_differ(service: Seq<char>, username: Option<Seq<char>>)
    ensures
        forall|i: int, j: int|
            0 <= i < j < attributes_of(service, username).len() ==> attributes_of(
                service,
                username,
            )[i].0 != attributes_of(service, username)[j].0,
{
    reveal_strlit("service");
    reveal_strlit("username");
    assert("service"@.len() != "username"@.len());
}

/// The attributes of a service and a username.
pub fn attributes<'a>(service: &'a str, username: Option<&'a str>) -> (attributes: Vec<
    (&'a str, &'a str),
>)
    ensures
        named(attributes@) == attributes_of(service@, crate::optional_text(username)),
{
    let mut attributes = Vec::new();
    attributes.push(("service", service));
    if let Some(username) = username {
        attributes.push(("username", username));
    }
    assert(named(attributes@) =~= attributes_of(service@, crate::optional_text(username)));
    attributes
}

/// The label of an item: what a person sees of it.
pub open spec fn label_of(service: Seq<char>, username: Option<Seq<char>>) -> Seq<char> {
    "Secret for '"@ + (match username {
        Some(username) => username,
        None => Seq::empty(),
    }) + "' on '"@ + service + "'"@
}

/// The label of an item.
pub fn label(service: &str, username: Option<&str>) -> (label: String)
    ensures
        label@ == label_of(service@, crate::optional_text(username)),
{
    let mut label = concat(
        "Secret for '",
        match username {
            Some(username) => username,
            None => "",
        },
    );
    proof {
        reveal_strlit("");
        assert(""@ =~= Seq::<char>::empty());
    }
    label.append("' on '");
    label.append(service);
    label.append("'");
    label
}

/// A call of the Secret Service, under the schema of this library.
#[derive(Debug, PartialEq, Eq)]
pub enum Request<'a> {
    /// Keep the secret under the attributes, in place of what is there.
    Store { attributes: Vec<(&'a str, &'a str)>, label: String, secret: String },
    /// Hand back the secret of the attributes.
    Lookup { attributes: Vec<(&'a str, &'a str)> },
    /// Drop what is kept under the attributes.
    Clear { attributes: Vec<(&'a str, &'a str)> },
}

/// What a [`Request`] holds.
pub enum RequestView {
    Store { attributes: Seq<(Seq<char>, Seq<char>)>, label: Seq<char>, secret: Seq<char> },
    Lookup { attributes: Seq<(Seq<char>, Seq<char>)> },
    Clear { attributes: Seq<(Seq<char>, Seq<char>)> },
}

impl<'a> View for Request<'a> {
    type V = RequestView;

    open spec fn view(&self) -> RequestView {
        match *self {
            Request::Store { attributes, label, secret } => RequestView::Store {
                attributes: named(attributes@),
                label: label@,
                secret: secret@,
            },
            Request::Lookup { attributes } => RequestView::Lookup { attributes: named(attributes@) },
            Request::Clear { attributes } => RequestView::Clear { attributes: named(attributes@) },
        }
    }
}

/// Where an operation stands while a call is under way.
#[derive(Debug, PartialEq, Eq)]
pub enum State<'a> {
    /// The call is the last one: the operation ends as the call does.
    Last,
    /// The call looks up the secret that is asked for.
    Load,
    /// One more call follows.
    Then(Request<'a>),
    /// The call looks up the item that is to be changed.
    Update { identifier: Identifier<'a>, options: UpdateOptions<'a> },
    /// The call looks up the item that is to be deleted.
    Delete { identifier: Identifier<'a> },
}

/// What a [`State`] holds.
pub enum StateView {
    Last,
    Load,
    Then(RequestView),
    Update { identity: Identity, changes: Changes },
    Delete { identity: Identity },
}

impl<'a> View for State<'a> {
    type V = StateView;

    open spec fn view(&self) -> StateView {
        match *self {
            State::Last => StateView::Last,
            State::Load => StateView::Load,
            State::Then(request) => StateView::Then(request@),
            State::Update { identifier, options } => StateView::Update {
                identity: identifier@,
                changes: options@,
            },
            State::Delete { identifier } => StateView::Delete { identity: identifier@ },
        }
    }
}

/// What an operation needs next: a call and the state to resume from with
/// its answer, or nothing more.
#[derive(Debug, PartialEq, Eq)]
pub enum Step<'a, E> {
    Call(Request<'a>, State<'a>),
    Finished(Result<Option<String>, Error<E>>),
}

/// What a [`Step`] holds.
pub enum StepView<E> {
    Call(RequestView, StateView),
    Finished(Outcome<E>),
}

impl<'a, E> View for Step<'a, E> {
    type V = StepView<E>;

    open spec fn view(&self) -> StepView<E> {
        match *self {
            Step::Call(request, state) => StepView::Call(request@, state@),
            Step::Finished(result) => StepView::Finished(outcome(result)),
        }
    }
}

/// What the answer to a call holds.
pub open spec fn answered<E>(reply: Reply<String, E>) -> Reply<Seq<char>, E> {
    match reply {
        Ok(Some(secret)) => Ok(Some(secret@)),
        Ok(None) => Ok(None),
        Err(failure) => Err(failure),
    }
}

/// The call that keeps `secret` for `identity`.
pub open spec fn store_request(identity: Identity, secret: Seq<char>) -> RequestView {
    RequestView::Store {
        attributes: attributes_of(identity.service, identity.username),
        label: label_of(identity.service, identity.username),
        secret,
    }
}

/// Storing an item is one call.
pub open spec fn store_step<E>(item: Item) -> StepView<E> {
    StepView::Call(store_request(item.identity(), item.secret), StateView::Last)
}

/// Loading a secret is one call: look it up.
pub open spec fn load_step<E>(identity: Identity) -> StepView<E> {
    StepView::Call(
        RequestView::Lookup { attributes: attributes_of(identity.service, identity.username) },
        StateView::Load,
    )
}

/// An update begins by looking the item up: that shows whether it is there,
/// and gives the secret to keep.
pub open spec fn update_step<E>(identity: Identity, changes: Changes) -> StepView<E> {
    StepView::Call(
        RequestView::Lookup { attributes: attributes_of(identity.service, identity.username) },
        StateView::Update { identity, changes },
    )
}

/// A deletion begins by looking the item up: the Secret Service does not
/// say whether a clearing dropped anything.
pub open spec fn delete_step<E>(identity: Identity) -> StepView<E> {
    StepView::Call(
        RequestView::Lookup { attributes: attributes_of(identity.service, identity.username) },
        StateView::Delete { identity },
    )
}

/// What follows the answer to a call.
///
/// The last call ends the operation as it ended itself. A load ends with the
/// secret found, with nothing where none is there, with the failure
/// otherwise. An update of an item that is there stores it in place where
/// service and username stay; where one of them changes, the item is made
/// anew: the old one is cleared, then the new one stored, with the new
/// secret where one is given and the one found otherwise. The Secret Service
/// has no single call for this: a failure after the clearing leaves no item.
/// A deletion clears an item that is there. Update and deletion of an item
/// that is not there end with the error that says so.
pub open spec fn resume_step<E>(state: StateView, reply: Reply<Seq<char>, E>) -> StepView<E> {
    match state {
        StateView::Last => StepView::Finished(settled(reply)),
        StateView::Load => StepView::Finished(
            match reply {
                Ok(Some(secret)) => Ok(Some(secret)),
                Ok(None) => Ok(None),
                Err(failure) => if failure.not_found {
                    Ok(None)
                } else {
                    Err(Fault::Native(failure))
                },
            },
        ),
        StateView::Then(request) => match reply {
            Ok(_) => StepView::Call(request, StateView::Last),
            Err(failure) => StepView::Finished(Err(Fault::Native(failure))),
        },
        StateView::Update { identity, changes } => match reply {
            Ok(Some(current)) => {
                let new_identity = changes.apply(identity);
                let store = store_request(new_identity, changes.apply_secret(current));
                if new_identity.service == identity.service && new_identity.username
                    == identity.username {
                    StepView::Call(store, StateView::Last)
                } else {
                    StepView::Call(
                        RequestView::Clear {
                            attributes: attributes_of(identity.service, identity.username),
                        },
                        StateView::Then(store),
                    )
                }
            },
            Ok(None) => StepView::Finished(Err(Fault::NotFound)),
            Err(failure) => StepView::Finished(Err(Fault::Native(failure))),
        },
        StateView::Delete { identity } => match reply {
            Ok(Some(_)) => StepView::Call(
                RequestView::Clear {
                    attributes: attributes_of(identity.service, identity.username),
                },
                StateView::Last,
            ),
            Ok(None) => StepView::Finished(Err(Fault::NotFound)),
            Err(failure) => StepView::Finished(Err(Fault::Native(failure))),
        },
    }
}

/// The call that keeps `secret` for `identifier`.
pub fn store_call<'a>(identifier: &Identifier<'a>, secret: String) -> (request: Request<'a>)
    ensures
        request@ == store_request(identifier@, secret@),
{
    Request::Store {
        attributes: attributes(identifier.service, identifier.username),
        label: label(identifier.service, identifier.username),
        secret,
    }
}

/// Begins to store an item.
pub fn store<'a, E>(item: KeychainItemBuilder<'a>) -> (step: Step<'a, E>)
    ensures
        step@ == store_step::<E>(item@),
{
    Step::Call(store_call(&item.identifier(), item.secret_text().to_owned()), State::Last)
}

/// Begins to load the secret of an item.
pub fn load<'a, E>(identifier: &Identifier<'a>) -> (step: Step<'a, E>)
    ensures
        step@ == load_step::<E>(identifier@),
{
    Step::Call(
        Request::Lookup { attributes: attributes(identifier.service, identifier.username) },
        State::Load,
    )
}

/// Begins to change an item.
pub fn update<'a, E>(identifier: &Identifier<'a>, options: UpdateOptions<'a>) -> (step: Step<'a, E>)
    ensures
        step@ == update_step::<E>(identifier@, options@),
{
    Step::Call(
        Request::Lookup { attributes: attributes(identifier.service, identifier.username) },
        State::Update { identifier: *identifier, options },
    )
}

/// Begins to delete an item.
pub fn delete<'a, E>(identifier: &Identifier<'a>) -> (step: Step<'a, E>)
    ensures
        step@ == delete_step::<E>(identifier@),
{
    Step::Call(
        Request::Lookup { attributes: attributes(identifier.service, identifier.username) },
        State::Delete { identifier: *identifier },
    )
}

/// Goes on with an operation: `reply` is the answer to the call that the
/// last step asked for, `state` the state that it named.
pub fn resume<'a, E>(state: State<'a>, reply: Reply<String, E>) -> (step: Step<'a, E>)
    ensures
        step@ == resume_step(state@, answered(reply)),
{
    match state {
        State::Last => match reply {
            Ok(_) => Step::Finished(Ok(None)),
            Err(failure) => Step::Finished(Err(Error::Native(failure))),
        },
        State::Load => match reply {
            Ok(found) => Step::Finished(Ok(found)),
            Err(failure) => if failure.not_found {
                Step::Finished(Ok(None))
            } else {
                Step::Finished(Err(Error::Native(failure)))
            },
        },
        State::Then(request) => match reply {
            Ok(_) => Step::Call(request, State::Last),
            Err(failure) => Step::Finished(Err(Error::Native(failure))),
        },
        State::Update { identifier, options } => match reply {
            Ok(Some(current)) => {
                let new_identifier = identifier.updated(&options);
                let secret = match options.secret_text() {
                    Some(secret) => secret.to_owned(),
                    None => current,
                };
                let store = store_call(&new_identifier, secret);
                if same_text(new_identifier.service, identifier.service) && same_optional_text(
                    new_identifier.username,
                    identifier.username,
                ) {
                    Step::Call(store, State::Last)
                } else {
                    Step::Call(
                        Request::Clear {
                            attributes: attributes(identifier.service, identifier.username),
                        },
                        State::Then(store),
                    )
                }
            },
            Ok(None) => Step::Finished(Err(Error::NotFound)),
            Err(failure) => Step::Finished(Err(Error::Native(failure))),
        },
        State::Delete { identifier } => match reply {
            Ok(Some(_)) => Step::Call(
                Request::Clear { attributes: attributes(identifier.service, identifier.username) },
                State::Last,
            ),
            Ok(None) => Step::Finished(Err(Error::NotFound)),
            Err(failure) => Step::Finished(Err(Error::Native(failure))),
        },
    }
}

/// What a Secret Service holds: the secret of each set of attributes.
pub type Secrets = Map<Seq<(Seq<char>, Seq<char>)>, Seq<char>>;

/// The answer of a Secret Service that holds `secrets` and works: storing
/// and clearing succeed, a lookup finds the secret or nothing.
pub open spec fn answer<E>(secrets: Secrets, request: RequestView) -> Reply<Seq<char>, E> {
    match request {
        RequestView::Store { .. } => Ok(None),
        RequestView::Lookup { attributes } => if secrets.contains_key(attributes) {
            Ok(Some(secrets[attributes]))
        } else {
            Ok(None)
        },
        RequestView::Clear { .. } => Ok(None),
    }
}

/// What such a Secret Service holds after the call.
pub open spec fn after(secrets: Secrets, request: RequestView) -> Secrets {
    match request {
        RequestView::Store { attributes, label, secret } => secrets.insert(attributes, secret),
        RequestView::Lookup { .. } => secrets,
        RequestView::Clear { attributes } => secrets.remove(attributes),
    }
}

impl StateView {
    /// How many calls can still follow the one under way.
    pub open spec fn calls_left(self) -> nat {
        match self {
            StateView::Last => 0,
            StateView::Load => 0,
            StateView::Then(_) => 1,
            StateView::Update { .. } => 2,
            StateView::Delete { .. } => 1,
        }
    }
}

impl<E> StepView<E> {
    /// How many calls the operation can still ask for.
    pub open spec fn calls_left(self) -> nat {
        match self {
            StepView::Call(_, state) => state.calls_left() + 1,
            StepView::Finished(_) => 0,
        }
    }
}

/// A call that fails ends the operation at once, with the failure of the
/// store: nothing is tried again and nothing undone. The one exception is a
/// load that finds no secret, which ends with nothing.
pub proof fn lemma_failure_ends<E>(state: StateView, failure: Failure<E>)
    requires
        !(state is Load && failure.not_found),
    ensures
        resume_step::<E>(state, Err(failure)) == StepView::Finished(failed(Fault::Native(failure))),
{
}

/// Every answer brings an operation nearer to its end: after it, no more
/// calls can follow than could before.
pub proof fn lemma_calls_run_out<E>(state: StateView, reply: Reply<Seq<char>, E>)
    ensures
        resume_step(state, reply).calls_left() <= state.calls_left(),
{
}

/// An operation carried through from `step` against a Secret Service that
/// holds `secrets` and works: what the Secret Service holds in the end, and
/// how the operation ends.
pub open spec fn run<E>(secrets: Secrets, step: StepView<E>) -> (Secrets, Outcome<E>)
    decreases step.calls_left(),
{
    match step {
        StepView::Call(request, state) => run(
            after(secrets, request),
            resume_step(state, answer(secrets, request)),
        ),
        StepView::Finished(outcome) => (secrets, outcome),
    }
}

/// An operation carried through like [`run`], but for one call that fails:
/// the call number `at`, counted from zero, changes nothing and is answered
/// with `failure`.
pub open spec fn run_failing<E>(secrets: Secrets, step: StepView<E>, failure: Failure<E>, at: nat) -> (
    Secrets,
    Outcome<E>,
)
    decreases step.calls_left(),
{
    match step {
        StepView::Call(request, state) => if at == 0 {
            run(secrets, resume_step(state, Err(failure)))
        } else {
            run_failing(
                after(secrets, request),
                resume_step(state, answer(secrets, request)),
                failure,
                (at - 1) as nat,
            )
        },
        StepView::Finished(outcome) => (secrets, outcome),
    }
}

/// `secrets` keep `secret` for `identity`.
pub open spec fn keeps(secrets: Secrets, identity: Identity, secret: Seq<char>) -> bool {
    &&& secrets.contains_key(attributes_of(identity.service, identity.username))
    &&& secrets[attributes_of(identity.service, identity.username)] == secret
}

/// `secrets` have nothing for `identity`.
pub open spec fn lacks(secrets: Secrets, identity: Identity) -> bool {
    !secrets.contains_key(attributes_of(identity.service, identity.username))
}

/// Two identities have the same attributes only if they have the same
/// service and the same username.
pub proof fn lemma_attributes_tell_apart(a: Identity, b: Identity)
    requires
        attributes_of(a.service, a.username) == attributes_of(b.service, b.username),
    ensures
        a.service == b.service,
        a.username == b.username,
{
    let x = attributes_of(a.service, a.username);
    let y = attributes_of(b.service, b.username);
    assert(x[0] == y[0]);
    match (a.username, b.username) {
        (Some(u), Some(v)) => {
            assert(x[1] == y[1]);
            assert(x[1].1 == u && y[1].1 == v);
        },
        (Some(_), None) => {
            assert(x.len() == 2 && y.len() == 1);
        },
        (None, Some(_)) => {
            assert(x.len() == 1 && y.len() == 2);
        },
        (None, None) => {},
    }
}

/// Storing an item succeeds, and the item is kept from then on.
pub proof fn lemma_store_keeps<E>(secrets: Secrets, item: Item)
    ensures
        run::<E>(secrets, store_step(item)).1 == nothing::<E>(),
        keeps(run::<E>(secrets, store_step(item)).0, item.identity(), item.secret),
{
    reveal_with_fuel(run, 4);
}

/// Loading what is kept gives the secret.
pub proof fn lemma_load_kept<E>(secrets: Secrets, identity: Identity, secret: Seq<char>)
    requires
        keeps(secrets, identity, secret),
    ensures
        run::<E>(secrets, load_step(identity)) == (secrets, found::<E>(secret)),
{
    reveal_with_fuel(run, 4);
}

/// Loading what is not there gives nothing, and no error.
pub proof fn lemma_load_lacking<E>(secrets: Secrets, identity: Identity)
    requires
        lacks(secrets, identity),
    ensures
        run::<E>(secrets, load_step(identity)) == (secrets, nothing::<E>()),
{
    reveal_with_fuel(run, 4);
}

/// Deleting what is kept succeeds, and it is gone from then on.
pub proof fn lemma_delete_kept<E>(secrets: Secrets, identity: Identity, secret: Seq<char>)
    requires
        keeps(secrets, identity, secret),
    ensures
        run::<E>(secrets, delete_step(identity)).1 == nothing::<E>(),
        lacks(run::<E>(secrets, delete_step(identity)).0, identity),
{
    reveal_with_fuel(run, 4);
}

/// Deleting what is not there fails with the error that says so, and
/// changes nothing.
pub proof fn lemma_delete_lacking<E>(secrets: Secrets, identity: Identity)
    requires
        lacks(secrets, identity),
    ensures
        run::<E>(secrets, delete_step(identity)) == (secrets, failed::<E>(Fault::NotFound)),
{
    reveal_with_fuel(run, 4);
}

/// Updating what is not there fails with the error that says so, and
/// changes nothing.
pub proof fn lemma_update_lacking<E>(secrets: Secrets, identity: Identity, changes: Changes)
    requires
        lacks(secrets, identity),
    ensures
        run::<E>(secrets, update_step(identity, changes)) == (
            secrets,
            failed::<E>(Fault::NotFound),
        ),
{
    reveal_with_fuel(run, 4);
}

/// Updating what is kept succeeds. The item is then kept under the identity
/// that the changes give it, with the secret that they give it. Where
/// service or username changes, nothing is left under the old identity. No
/// other item is touched, and changes that are empty leave everything as it
/// is.
pub proof fn lemma_update_kept<E>(
    secrets: Secrets,
    identity: Identity,
    secret: Seq<char>,
    changes: Changes,
)
    requires
        keeps(secrets, identity, secret),
    ensures
        ({
            let (then, outcome) = run::<E>(secrets, update_step(identity, changes));
            let new_identity = changes.apply(identity);
            let from = attributes_of(identity.service, identity.username);
            let to = attributes_of(new_identity.service, new_identity.username);
            &&& outcome == nothing::<E>()
            &&& keeps(then, new_identity, changes.apply_secret(secret))
            &&& (new_identity.service != identity.service || new_identity.username
                != identity.username) ==> lacks(then, identity)
            &&& forall|attributes: Seq<(Seq<char>, Seq<char>)>|
                attributes != from && attributes != to ==> then.contains_key(attributes)
                    == secrets.contains_key(attributes) && then[attributes] == secrets[attributes]
            &&& changes.is_empty() ==> then == secrets
        }),
{
    reveal_with_fuel(run, 4);
    let new_identity = changes.apply(identity);
    if new_identity.service != identity.service || new_identity.username != identity.username {
        if attributes_of(identity.service, identity.username) == attributes_of(
            new_identity.service,
            new_identity.username,
        ) {
            lemma_attributes_tell_apart(identity, new_identity);
        }
    }
    if changes.is_empty() {
        assert(run::<E>(secrets, update_step(identity, changes)).0 =~= secrets);
    }
}

/// An update that is interrupted by a failure ends with the failure. It is
/// not undone: where the item moves and the failure comes after the clearing
/// of the old one, that is where the new one was to be stored, the item is
/// lost; where it comes earlier, or the item stays in place, nothing has
/// changed.
pub proof fn lemma_update_interrupted<E>(
    secrets: Secrets,
    identity: Identity,
    secret: Seq<char>,
    changes: Changes,
    failure: Failure<E>,
    at: nat,
)
    requires
        keeps(secrets, identity, secret),
        at <= (if changes.apply(identity).service != identity.service || changes.apply(
            identity,
        ).username != identity.username {
            2nat
        } else {
            1nat
        }),
    ensures
        ({
            let (then, outcome) = run_failing(secrets, update_step(identity, changes), failure, at);
            &&& outcome == failed(Fault::Native(failure))
            &&& at < 2 ==> then == secrets
            &&& at == 2 ==> then == secrets.remove(
                attributes_of(identity.service, identity.username),
            )
        }),
{
    reveal_with_fuel(run, 4);
    reveal_with_fuel(run_failing, 4);
}

/// Loading with the handle that storing gives returns the secret that was
/// stored, whatever service, username and class the item has.
pub proof fn lemma_store_then_load<E>(secrets: Secrets, item: Item)
    ensures
        ({
            let (stored, outcome) = run::<E>(secrets, store_step(item));
            &&& outcome == nothing::<E>()
            &&& run::<E>(stored, load_step(item.identity())).1 == found::<E>(item.secret)
        }),
{
    lemma_store_keeps::<E>(secrets, item);
    lemma_load_kept::<E>(run::<E>(secrets, store_step(item)).0, item.identity(), item.secret);
}

/// Deleting a stored item and then loading it gives nothing, and no error.
pub proof fn lemma_delete_then_load<E>(secrets: Secrets, identity: Identity, secret: Seq<char>)
    requires
        keeps(secrets, identity, secret),
    ensures
        ({
            let (deleted, outcome) = run::<E>(secrets, delete_step(identity));
            &&& outcome == nothing::<E>()
            &&& run::<E>(deleted, load_step(identity)).1 == nothing::<E>()
        }),
{
    lemma_delete_kept::<E>(secrets, identity, secret);
    lemma_load_lacking::<E>(run::<E>(secrets, delete_step(identity)).0, identity);
}

/// Storing an item and then updating it with empty changes changes nothing:
/// the Secret Service holds what it held, and loading gives the secret that
/// was stored.
pub proof fn lemma_store_then_empty_update<E>(secrets: Secrets, item: Item, changes: Changes)
    requires
        changes.is_empty(),
    ensures
        ({
            let stored = run::<E>(secrets, store_step(item)).0;
            let (updated, outcome) = run::<E>(stored, update_step(item.identity(), changes));
            &&& outcome == nothing::<E>()
            &&& updated == stored
            &&& run::<E>(updated, load_step(item.identity())).1 == found::<E>(item.secret)
        }),
{
    lemma_store_keeps::<E>(secrets, item);
    let stored = run::<E>(secrets, store_step(item)).0;
    lemma_update_kept::<E>(stored, item.identity(), item.secret, changes);
    lemma_load_kept::<E>(stored, item.identity(), item.secret);
}

/// An update that gives a new secret and leaves service, username and class
/// as they are keeps the old handle valid: loading with it gives the new
/// secret.
pub proof fn lemma_update_secret_only<E>(
    secrets: Secrets,
    identity: Identity,
    secret: Seq<char>,
    changes: Changes,
)
    requires
        keeps(secrets, identity, secret),
        changes.secret is Some,
        changes.apply(identity) == identity,
    ensures
        ({
            let (updated, outcome) = run::<E>(secrets, update_step(identity, changes));
            &&& outcome == nothing::<E>()
            &&& run::<E>(updated, load_step(identity)).1 == found::<E>(changes.secret->0)
        }),
{
    lemma_update_kept::<E>(secrets, identity, secret, changes);
    let updated = run::<E>(secrets, update_step(identity, changes)).0;
    lemma_load_kept::<E>(updated, identity, changes.secret->0);
}

/// An update that leaves service and username as they are keeps the old
/// handle valid, whatever it does to class and secret: loading with it gives
/// the current secret.
pub proof fn lemma_update_keeps_handle<E>(
    secrets: Secrets,
    identity: Identity,
    secret: Seq<char>,
    changes: Changes,
)
    requires
        keeps(secrets, identity, secret),
        changes.apply(identity).service == identity.service,
        changes.apply(identity).username == identity.username,
    ensures
        ({
            let (updated, outcome) = run::<E>(secrets, update_step(identity, changes));
            &&& outcome == nothing::<E>()
            &&& run::<E>(updated, load_step(identity)).1 == found::<E>(
                changes.apply_secret(secret),
            )
        }),
{
    lemma_update_kept::<E>(secrets, identity, secret, changes);
    let updated = run::<E>(secrets, update_step(identity, changes)).0;
    lemma_load_kept::<E>(updated, identity, changes.apply_secret(secret));
}

/// An update that changes service or username moves the item: loading with
/// the old handle gives nothing, loading with the new one gives the current
/// secret.
pub proof fn lemma_update_key<E>(
    secrets: Secrets,
    identity: Identity,
    secret: Seq<char>,
    changes: Changes,
)
    requires
        keeps(secrets, identity, secret),
        changes.apply(identity).service != identity.service || changes.apply(identity).username
            != identity.username,
    ensures
        ({
            let (updated, outcome) = run::<E>(secrets, update_step(identity, changes));
            &&& outcome == nothing::<E>()
            &&& run::<E>(updated, load_step(identity)).1 == nothing::<E>()
            &&& run::<E>(updated, load_step(changes.apply(identity))).1 == found::<E>(
                changes.apply_secret(secret),
            )
        }),
{
    lemma_update_kept::<E>(secrets, identity, secret, changes);
    let updated = run::<E>(secrets, update_step(identity, changes)).0;
    lemma_load_lacking::<E>(updated, identity);
    lemma_load_kept::<E>(updated, changes.apply(identity), changes.apply_secret(secret));
}

} // verus!
