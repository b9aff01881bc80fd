//! The Credential Manager of Windows: one credential per target name.

use crate::error::{Error, Failure, Fault};
use crate::sys::{
    failed, found, missing, nothing, outcome, read_back, secret_of, settled, Outcome, Reply,
};
use crate::{Changes, Class, Identifier, Identity, Item, KeychainItemBuilder, UpdateOptions};
use vstd::prelude::*;
use vstd::string::StrSliceExecFns;
use vstd::utf8::{encode_utf8, encode_utf8_decode_utf8, encode_utf8_valid_utf8};

verus! {

/// The type of a generic credential: the only one this library writes.
pub const CRED_TYPE_GENERIC: u32 = 1;

/// A credential that lasts beyond the session, on this machine.
pub const CRED_PERSIST_LOCAL_MACHINE: u32 = 2;

/// The separator as a UTF-16 code unit.
pub const SEPARATOR_UNIT: u16 = 0x1f;

/// The character between username and service in a target name.
pub const TARGET_NAME_SEPARATOR: char = '\u{1f}';

/// The UTF-16 code units of one character: itself below `0x10000`, a
/// surrogate pair from there on.
pub open spec fn units(c: char) -> Seq<u16> {
    let v = c as u32;
    if v < 0x10000 {
        seq![v as u16]
    } else {
        seq![(0xD800 + (v - 0x10000) / 0x400) as u16, (0xDC00 + (v - 0x10000) % 0x400) as u16]
    }
}

/// The UTF-16 encoding of a text.
pub open spec fn utf16(text: Seq<char>) -> Seq<u16>
    decreases text.len(),
{
    if text.len() == 0 {
        Seq::empty()
    } else {
        utf16(text.drop_last()) + units(text.last())
    }
}

/// A text as Windows takes it: its UTF-16 encoding and a terminating zero.
pub open spec fn wide(text: Seq<char>) -> Seq<u16> {
    utf16(text).push(0u16)
}

/// Appends the UTF-16 encoding of `s` to `buffer`.
fn push_units(buffer: &mut Vec<u16>, s: &str)
    ensures
        final(buffer)@ == old(buffer)@ + utf16(s@),
{
    broadcast use vstd::string::group_string_axioms;

    for c in it: s.chars()
        invariant
            it.seq() == s@,
            buffer@ == old(buffer)@ + utf16(s@.take(it.index() as int)),
    {
        let v = c as u32;
        proof {
            vstd::utf8::char_is_scalar(c);
            assert(s@.take(it.index() + 1).drop_last() == s@.take(it.index() as int));
            assert(s@.take(it.index() + 1).last() == c);
        }
        if v < 0x10000 {
            buffer.push(v as u16);
        } else {
            let rest = v - 0x10000;
            buffer.push((0xD800 + rest / 0x400) as u16);
            buffer.push((0xDC00 + rest % 0x400) as u16);
        }
    }
    assert(s@.take(s@.len() as int) == s@);
}

/// The buffer that stands for `s` in a native call.
pub fn w(s: &str) -> (buffer: Vec<u16>)
    ensures
        buffer@ == wide(s@),
{
    let mut buffer = Vec::new();
    push_units(&mut buffer, s);
    buffer.push(0);
    buffer
}

/// Whether two buffers hold the same units.
fn same_units(a: &Vec<u16>, b: &Vec<u16>) -> (same: bool)
    ensures
        same == (a@ == b@),
{
    if a.len() != b.len() {
        return false;
    }
    let mut i: usize = 0;
    while i < a.len()
        invariant
            i <= a.len(),
            a.len() == b.len(),
            forall|j: int| 0 <= j < i ==> a[j] == b[j],
        decreases a.len() - i,
    {
        if a[i] != b[i] {
            return false;
        }
        i += 1;
    }
    assert(a@ =~= b@);
    true
}

/// Appends the units of `source` from `from` up to `to`.
fn push_range(buffer: &mut Vec<u16>, source: &Vec<u16>, from: usize, to: usize)
    requires
        from <= to <= source.len(),
    ensures
        final(buffer)@ == old(buffer)@ + source@.subrange(from as int, to as int),
{
    let mut i: usize = from;
    while i < to
        invariant
            from <= i <= to <= source.len(),
            buffer@ == old(buffer)@ + source@.subrange(from as int, i as int),
        decreases to - i,
    {
        buffer.push(source[i]);
        i += 1;
        assert(source@.subrange(from as int, i as int) == source@.subrange(from as int, i - 1).push(
            source@[i - 1],
        ));
    }
}

/// The units of a buffer before its terminating zero.
pub open spec fn text_of(buffer: Seq<u16>) -> Seq<u16> {
    if buffer.len() > 0 {
        buffer.drop_last()
    } else {
        buffer
    }
}

/// The target name made of a user name and a service, both as buffers: the
/// user name's text, the separator and the service; the service alone where
/// there is no user name.
pub open spec fn joined(user_name: Option<Seq<u16>>, service: Seq<u16>) -> Seq<u16> {
    match user_name {
        Some(user_name) => text_of(user_name).push(SEPARATOR_UNIT) + service,
        None => service,
    }
}

/// Joins a user name and a service into a target name.
fn join(user_name: Option<&Vec<u16>>, service: &Vec<u16>, from: usize) -> (target: Vec<u16>)
    requires
        from <= service.len(),
    ensures
        target@ == joined(
            match user_name {
                Some(user_name) => Some(user_name@),
                None => None,
            },
            service@.subrange(from as int, service@.len() as int),
        ),
{
    let mut target = Vec::new();
    if let Some(user_name) = user_name {
        let end = if user_name.len() > 0 {
            user_name.len() - 1
        } else {
            0
        };
        push_range(&mut target, user_name, 0, end);
        target.push(SEPARATOR_UNIT);
        assert(user_name@.subrange(0, end as int) == text_of(user_name@));
    }
    push_range(&mut target, service, from, service.len());
    target
}

/// The buffer of an optional text.
pub open spec fn wide_text(text: Option<Seq<char>>) -> Option<Seq<u16>> {
    match text {
        Some(text) => Some(wide(text)),
        None => None,
    }
}

/// The target name under which Windows keeps the item of a service and a
/// username.
pub open spec fn target_name(service: Seq<char>, username: Option<Seq<char>>) -> Seq<u16> {
    joined(wide_text(username), wide(service))
}

/// The target name of a service and a username.
pub fn target(service: &str, username: Option<&str>) -> (buffer: Vec<u16>)
    ensures
        buffer@ == target_name(service@, crate::optional_text(username)),
{
    let service = w(service);
    assert(service@.subrange(0, service@.len() as int) == service@);
    match username {
        Some(username) => {
            let user_name = w(username);
            join(Some(&user_name), &service, 0)
        },
        None => join(None, &service, 0),
    }
}

/// The credential type of a class: every class is kept as a generic
/// credential.
pub fn ty(class: Class) -> (ty: u32)
    ensures
        ty == CRED_TYPE_GENERIC,
{
    match class {
        Class::Generic => CRED_TYPE_GENERIC,
        Class::Internet => CRED_TYPE_GENERIC,
    }
}

/// A credential as Windows keeps it, in plain values. The fields that this
/// library never sets (comment, alias, attributes, time of writing) are left
/// out.
#[derive(Debug, PartialEq, Eq)]
pub struct Credential {
    pub flags: u32,
    pub ty: u32,
    pub target_name: Vec<u16>,
    pub blob: Vec<u8>,
    pub persist: u32,
    pub user_name: Option<Vec<u16>>,
}

/// What a [`Credential`] holds.
pub struct Record {
    pub flags: u32,
    pub ty: u32,
    pub target_name: Seq<u16>,
    pub blob: Seq<u8>,
    pub persist: u32,
    pub user_name: Option<Seq<u16>>,
}

impl Record {
    /// The key under which Windows keeps the credential.
    pub open spec fn key(self) -> (Seq<u16>, u32) {
        (self.target_name, self.ty)
    }
}

impl View for Credential {
    type V = Record;

    open spec fn view(&self) -> Record {
        Record {
            flags: self.flags,
            ty: self.ty,
            target_name: self.target_name@,
            blob: self.blob@,
            persist: self.persist,
            user_name: match self.user_name {
                Some(user_name) => Some(user_name@),
                None => None,
            },
        }
    }
}

/// A call of the Credential Manager.
#[derive(Debug, PartialEq, Eq)]
pub enum Request {
    /// `CredWriteW`: keep the credential under its target name and type, in
    /// place of what is there.
    Write(Credential),
    /// `CredReadW`: hand back the credential of a target name and a type.
    Read { target_name: Vec<u16>, ty: u32 },
    /// `CredDeleteW`: drop the credential of a target name and a type.
    Delete { target_name: Vec<u16>, ty: u32 },
}

/// What a [`Request`] holds.
pub enum RequestView {
    Write(Record),
    Read { target_name: Seq<u16>, ty: u32 },
    Delete { target_name: Seq<u16>, ty: u32 },
}

impl View for Request {
    type V = RequestView;

    open spec fn view(&self) -> RequestView {
        match *self {
            Request::Write(credential) => RequestView::Write(credential@),
            Request::Read { target_name, ty } => RequestView::Read { target_name: target_name@, ty },
            Request::Delete { target_name, ty } => RequestView::Delete {
                target_name: target_name@,
                ty,
            },
        }
    }
}

/// Where an operation stands while a call is under way.
#[derive(Debug, PartialEq, Eq)]
pub enum State<'a> {
    /// The call is the last one: the operation ends as the call does.
    Last,
    /// The call reads the credential whose secret is asked for.
    Load,
    /// One more call follows.
    Then(Request),
    /// The call reads the credential that is to be changed.
    Update { identifier: Identifier<'a>, options: UpdateOptions<'a> },
}

/// What a [`State`] holds.
pub enum StateView {
    Last,
    Load,
    Then(RequestView),
    Update { identity: Identity, changes: Changes },
}

impl<'a> View for State<'a> {
    type V = StateView;

    open spec fn view(&self) -> StateView {
        match *self {
            State::Last => StateView::Last,
            State::Load => StateView::Load,
            State::Then(request) => StateView::Then(request@),
            State::Update { identifier, options } => StateView::Update {
                identity: identifier@,
                changes: options@,
            },
        }
    }
}

/// What an operation needs next: a call and the state to resume from with
/// its answer, or nothing more.
#[derive(Debug, PartialEq, Eq)]
pub enum Step<'a, E> {
    Call(Request, State<'a>),
    Finished(Result<Option<String>, Error<E>>),
}

/// What a [`Step`] holds.
pub enum StepView<E> {
    Call(RequestView, StateView),
    Finished(Outcome<E>),
}

impl<'a, E> View for Step<'a, E> {
    type V = StepView<E>;

    open spec fn view(&self) -> StepView<E> {
        match *self {
            Step::Call(request, state) => StepView::Call(request@, state@),
            Step::Finished(result) => StepView::Finished(outcome(result)),
        }
    }
}

/// What the answer to a call holds.
pub open spec fn answered<E>(reply: Reply<Credential, E>) -> Reply<Record, E> {
    match reply {
        Ok(Some(credential)) => Ok(Some(credential@)),
        Ok(None) => Ok(None),
        Err(failure) => Err(failure),
    }
}

/// The credential that stands for a new item.
pub open spec fn new_record(item: Item) -> Record {
    Record {
        flags: 0,
        ty: CRED_TYPE_GENERIC,
        target_name: target_name(item.service, item.username),
        blob: encode_utf8(item.secret),
        persist: CRED_PERSIST_LOCAL_MACHINE,
        user_name: wide_text(item.username),
    }
}

/// Storing an item is one call: write its credential.
pub open spec fn store_step<E>(item: Item) -> StepView<E> {
    StepView::Call(RequestView::Write(new_record(item)), StateView::Last)
}

/// Loading a secret is one call: read the credential of the identity.
pub open spec fn load_step<E>(identity: Identity) -> StepView<E> {
    StepView::Call(
        RequestView::Read {
            target_name: target_name(identity.service, identity.username),
            ty: CRED_TYPE_GENERIC,
        },
        StateView::Load,
    )
}

/// Deleting an item is one call: drop the credential of the identity.
pub open spec fn delete_step<E>(identity: Identity) -> StepView<E> {
    StepView::Call(
        RequestView::Delete {
            target_name: target_name(identity.service, identity.username),
            ty: CRED_TYPE_GENERIC,
        },
        StateView::Last,
    )
}

/// An update begins by reading the credential as it is.
pub open spec fn update_step<E>(identity: Identity, changes: Changes) -> StepView<E> {
    StepView::Call(
        RequestView::Read {
            target_name: target_name(identity.service, identity.username),
            ty: CRED_TYPE_GENERIC,
        },
        StateView::Update { identity, changes },
    )
}

/// Where the service begins in a target name that starts with the text of
/// `user_name` and the separator.
pub open spec fn service_start(target_name: Seq<u16>, user_name: Seq<u16>) -> Option<int> {
    let prefix = text_of(user_name).push(SEPARATOR_UNIT);
    if prefix.len() <= target_name.len() && target_name.subrange(0, prefix.len() as int)
        == prefix {
        Some(prefix.len() as int)
    } else {
        None
    }
}

/// The service of a credential as its own fields give it: what follows user
/// name and separator in its target name; the whole target name where it has
/// no user name; the caller's service where the target name does not start
/// with the user name.
pub open spec fn live_service(identity: Identity, previous: Record) -> Seq<u16> {
    match previous.user_name {
        Some(user_name) => match service_start(previous.target_name, user_name) {
            Some(start) => previous.target_name.subrange(start, previous.target_name.len() as int),
            None => wide(identity.service),
        },
        None => previous.target_name,
    }
}

/// The credential that an update writes: every override taken, every other
/// field as the credential read back has it.
pub open spec fn updated_record(identity: Identity, changes: Changes, previous: Record) -> Record {
    let user_name = match changes.username {
        Some(username) => Some(wide(username)),
        None => previous.user_name,
    };
    Record {
        flags: 0,
        ty: match changes.class {
            Some(_) => CRED_TYPE_GENERIC,
            None => previous.ty,
        },
        target_name: match changes.service {
            Some(service) => joined(user_name, wide(service)),
            None => match changes.username {
                Some(_) => joined(user_name, live_service(identity, previous)),
                None => previous.target_name,
            },
        },
        blob: match changes.secret {
            Some(secret) => encode_utf8(secret),
            None => previous.blob,
        },
        persist: CRED_PERSIST_LOCAL_MACHINE,
        user_name,
    }
}

/// What follows the answer to a call.
///
/// The last call ends the operation as it ended itself. A load ends with the
/// secret read, with nothing where no credential is there, with the failure
/// otherwise. An update, once the credential is read, writes the new one
/// and, where that has another key, drops the old one afterwards.
pub open spec fn resume_step<E>(state: StateView, reply: Reply<Record, E>) -> StepView<E> {
    match state {
        StateView::Last => StepView::Finished(settled(reply)),
        StateView::Load => StepView::Finished(
            match reply {
                Ok(Some(record)) => secret_of(record.blob),
                Ok(None) => Ok(None),
                Err(failure) => if failure.not_found {
                    Ok(None)
                } else {
                    Err(Fault::Native(failure))
                },
            },
        ),
        StateView::Then(request) => match reply {
            Ok(_) => StepView::Call(request, StateView::Last),
            Err(failure) => StepView::Finished(Err(Fault::Native(failure))),
        },
        StateView::Update { identity, changes } => match reply {
            Ok(Some(previous)) => {
                let record = updated_record(identity, changes, previous);
                let old = (target_name(identity.service, identity.username), CRED_TYPE_GENERIC);
                StepView::Call(
                    RequestView::Write(record),
                    if record.key() == old {
                        StateView::Last
                    } else {
                        StateView::Then(RequestView::Delete { target_name: old.0, ty: old.1 })
                    },
                )
            },
            Ok(None) => StepView::Finished(Err(Fault::NotFound)),
            Err(failure) => StepView::Finished(Err(Fault::Native(failure))),
        },
    }
}

/// Begins to store an item.
pub fn store<'a, E>(item: KeychainItemBuilder<'a>) -> (step: Step<'a, E>)
    ensures
        step@ == store_step::<E>(item@),
{
    let credential = Credential {
        flags: 0,
        ty: ty(item.item_class()),
        target_name: target(item.service_text(), item.username_text()),
        blob: item.secret_text().as_bytes_vec(),
        persist: CRED_PERSIST_LOCAL_MACHINE,
        user_name: match item.username_text() {
            Some(username) => Some(w(username)),
            None => None,
        },
    };
    Step::Call(Request::Write(credential), State::Last)
}

/// Begins to load the secret of an item.
pub fn load<'a, E>(identifier: &Identifier<'a>) -> (step: Step<'a, E>)
    ensures
        step@ == load_step::<E>(identifier@),
{
    Step::Call(
        Request::Read {
            target_name: target(identifier.service, identifier.username),
            ty: ty(identifier.class),
        },
        State::Load,
    )
}

/// Begins to change an item.
pub fn update<'a, E>(identifier: &Identifier<'a>, options: UpdateOptions<'a>) -> (step: Step<'a, E>)
    ensures
        step@ == update_step::<E>(identifier@, options@),
{
    Step::Call(
        Request::Read {
            target_name: target(identifier.service, identifier.username),
            ty: ty(identifier.class),
        },
        State::Update { identifier: *identifier, options },
    )
}

/// Begins to delete an item.
pub fn delete<'a, E>(identifier: &Identifier<'a>) -> (step: Step<'a, E>)
    ensures
        step@ == delete_step::<E>(identifier@),
{
    Step::Call(
        Request::Delete {
            target_name: target(identifier.service, identifier.username),
            ty: ty(identifier.class),
        },
        State::Last,
    )
}

/// Finds where the service begins in a target name.
fn find_service(target_name: &Vec<u16>, user_name: &Vec<u16>) -> (start: Option<usize>)
    ensures
        match service_start(target_name@, user_name@) {
            Some(at) => start == Some(at as usize) && at <= target_name.len(),
            None => start is None,
        },
{
    let text_len = if user_name.len() > 0 {
        user_name.len() - 1
    } else {
        0
    };
    let ghost prefix = text_of(user_name@).push(SEPARATOR_UNIT);
    if text_len >= target_name.len() {
        return None;
    }
    let mut i: usize = 0;
    while i < text_len
        invariant
            i <= text_len < target_name.len(),
            text_len == text_of(user_name@).len(),
            text_len < user_name.len() || text_len == 0,
            prefix == text_of(user_name@).push(SEPARATOR_UNIT),
            forall|j: int| 0 <= j < i ==> target_name[j] == prefix[j],
        decreases text_len - i,
    {
        if target_name[i] != user_name[i] {
            assert(target_name@.subrange(0, prefix.len() as int)[i as int] != prefix[i as int]);
            return None;
        }
        i += 1;
    }
    if target_name[text_len] != SEPARATOR_UNIT {
        assert(target_name@.subrange(0, prefix.len() as int)[text_len as int] != prefix[
            text_len as int
        ]);
        return None;
    }
    assert(target_name@.subrange(0, prefix.len() as int) =~= prefix);
    Some(text_len + 1)
}

/// The credential that an update writes.
pub fn updated_credential<'a>(
    identifier: &Identifier<'a>,
    options: &UpdateOptions<'a>,
    previous: Credential,
) -> (credential: Credential)
    ensures
        credential@ == updated_record(identifier@, options@, previous@),
{
    let Credential { flags: _, ty: previous_ty, target_name, blob, persist: _, user_name: previous_user } =
        previous;
    let target_name = match options.service_text() {
        Some(service) => {
            let service = w(service);
            assert(service@.subrange(0, service@.len() as int) == service@);
            match options.username_text() {
                Some(username) => {
                    let user_name = w(username);
                    join(Some(&user_name), &service, 0)
                },
                None => join(previous_user.as_ref(), &service, 0),
            }
        },
        None => match options.username_text() {
            Some(username) => {
                let user_name = w(username);
                match &previous_user {
                    Some(previous_user) => match find_service(&target_name, previous_user) {
                        Some(start) => join(Some(&user_name), &target_name, start),
                        None => {
                            let service = w(identifier.service);
                            assert(service@.subrange(0, service@.len() as int) == service@);
                            join(Some(&user_name), &service, 0)
                        },
                    },
                    None => {
                        assert(target_name@.subrange(0, target_name@.len() as int)
                            == target_name@);
                        join(Some(&user_name), &target_name, 0)
                    },
                }
            },
            None => target_name,
        },
    };
    Credential {
        flags: 0,
        ty: match options.new_class() {
            Some(class) => ty(class),
            None => previous_ty,
        },
        target_name,
        blob: match options.secret_text() {
            Some(secret) => secret.as_bytes_vec(),
            None => blob,
        },
        persist: CRED_PERSIST_LOCAL_MACHINE,
        user_name: match options.username_text() {
            Some(username) => Some(w(username)),
            None => previous_user,
        },
    }
}

/// Goes on with an operation: `reply` is the answer to the call that the
/// last step asked for, `state` the state that it named.
pub fn resume<'a, E>(state: State<'a>, reply: Reply<Credential, E>) -> (step: Step<'a, E>)
    ensures
        step@ == resume_step(state@, answered(reply)),
{
    match state {
        State::Last => match reply {
            Ok(_) => Step::Finished(Ok(None)),
            Err(failure) => Step::Finished(Err(Error::Native(failure))),
        },
        State::Load => match reply {
            Ok(Some(credential)) => Step::Finished(read_back(credential.blob)),
            Ok(None) => Step::Finished(Ok(None)),
            Err(failure) => if failure.not_found {
                Step::Finished(Ok(None))
            } else {
                Step::Finished(Err(Error::Native(failure)))
            },
        },
        State::Then(request) => match reply {
            Ok(_) => Step::Call(request, State::Last),
            Err(failure) => Step::Finished(Err(Error::Native(failure))),
        },
        State::Update { identifier, options } => match reply {
            Ok(Some(previous)) => {
                let credential = updated_credential(&identifier, &options, previous);
                let old_target = target(identifier.service, identifier.username);
                let old_ty = ty(identifier.class);
                if same_units(&credential.target_name, &old_target) && credential.ty == old_ty {
                    Step::Call(Request::Write(credential), State::Last)
                } else {
                    Step::Call(
                        Request::Write(credential),
                        State::Then(Request::Delete { target_name: old_target, ty: old_ty }),
                    )
                }
            },
            Ok(None) => Step::Finished(Err(Error::NotFound)),
            Err(failure) => Step::Finished(Err(Error::Native(failure))),
        },
    }
}

/// The encoding of two texts in a row is the two encodings in a row.
pub proof fn lemma_utf16_of_concat(s: Seq<char>, t: Seq<char>)
    ensures
        utf16(s + t) == utf16(s) + utf16(t),
    decreases t.len(),
{
    if t.len() == 0 {
        assert(s + t =~= s);
        assert(utf16(s) + utf16(t) =~= utf16(s));
    } else {
        lemma_utf16_of_concat(s, t.drop_last());
        assert((s + t).drop_last() =~= s + t.drop_last());
        assert((s + t).last() == t.last());
        assert(utf16(s + t) =~= utf16(s) + utf16(t));
    }
}

/// The target name of a service and a username is the buffer of one text:
/// the username, the separator and the service.
pub proof fn lemma_target_name_is_wide(service: Seq<char>, username: Seq<char>)
    ensures
        target_name(service, Some(username)) == wide(
            username.push(TARGET_NAME_SEPARATOR) + service,
        ),
{
    let separator = seq![TARGET_NAME_SEPARATOR];
    assert(username.push(TARGET_NAME_SEPARATOR) =~= username + separator);
    lemma_utf16_of_concat(username + separator, service);
    lemma_utf16_of_concat(username, separator);
    assert(separator.drop_last() =~= Seq::<char>::empty());
    assert(utf16(separator) =~= seq![SEPARATOR_UNIT]) by {
        reveal_with_fuel(utf16, 2);
    }
    assert(text_of(wide(username)) =~= utf16(username));
    assert(target_name(service, Some(username)) =~= wide(
        username.push(TARGET_NAME_SEPARATOR) + service,
    ));
}

/// The units of a character: one unit that is no surrogate, or a high and a
/// low surrogate that give the character back.
pub proof fn lemma_units(c: char)
    ensures
        (c as u32) < 0x10000 ==> units(c).len() == 1 && units(c)[0] == c as u32 && !(0xD800
            <= units(c)[0] <= 0xDFFF),
        (c as u32) >= 0x10000 ==> units(c).len() == 2 && 0xD800 <= units(c)[0] <= 0xDBFF && 0xDC00
            <= units(c)[1] <= 0xDFFF && (c as u32) == 0x10000 + (units(c)[0] - 0xD800) * 0x400 + (
        units(c)[1] - 0xDC00),
{
    vstd::utf8::char_is_scalar(c);
}

/// Two characters with the same units are the same.
pub proof fn lemma_units_tell_apart(c: char, d: char)
    requires
        units(c) == units(d),
    ensures
        c == d,
{
    lemma_units(c);
    lemma_units(d);
    assert(c as u32 == d as u32);
    vstd::utf8::char_u32_cast(c, c as u32);
    vstd::utf8::char_u32_cast(d, d as u32);
}

/// Two texts with the same UTF-16 encoding are the same.
pub proof fn lemma_utf16_tells_apart(s: Seq<char>, t: Seq<char>)
    requires
        utf16(s) == utf16(t),
    ensures
        s == t,
    decreases s.len(),
{
    if s.len() == 0 {
        if t.len() > 0 {
            lemma_units(t.last());
            assert(utf16(t) == utf16(t.drop_last()) + units(t.last()));
            assert(utf16(t).len() > 0);
        }
        assert(s =~= t);
    } else if t.len() == 0 {
        lemma_units(s.last());
        assert(utf16(s) == utf16(s.drop_last()) + units(s.last()));
        assert(utf16(s).len() > 0);
    } else {
        let c = s.last();
        let d = t.last();
        let x = utf16(s);
        lemma_units(c);
        lemma_units(d);
        let k = units(c).len() as int;
        assert(x == utf16(s.drop_last()) + units(c));
        assert(x == utf16(t.drop_last()) + units(d));
        assert(x[x.len() - 1] == units(c)[k - 1]);
        assert(x[x.len() - 1] == units(d)[units(d).len() - 1]);
        assert(units(d).len() == k);
        assert(units(c) =~= x.subrange(x.len() - k, x.len() as int));
        assert(units(d) =~= x.subrange(x.len() - k, x.len() as int));
        lemma_units_tell_apart(c, d);
        assert(utf16(s.drop_last()) =~= x.subrange(0, x.len() - k));
        assert(utf16(t.drop_last()) =~= x.subrange(0, x.len() - k));
        lemma_utf16_tells_apart(s.drop_last(), t.drop_last());
        assert(s =~= s.drop_last().push(c));
        assert(t =~= t.drop_last().push(d));
    }
}

/// The encoding of a text without the separator holds no separator unit.
pub proof fn lemma_utf16_keeps_free(s: Seq<char>)
    requires
        !s.contains(TARGET_NAME_SEPARATOR),
    ensures
        !utf16(s).contains(SEPARATOR_UNIT),
    decreases s.len(),
{
    if s.len() > 0 {
        let c = s.last();
        lemma_units(c);
        assert(s.contains(c));
        assert forall|i: int| 0 <= i < s.drop_last().len() implies s.drop_last()[i]
            != TARGET_NAME_SEPARATOR by {
            assert(s.contains(s[i]));
        }
        lemma_utf16_keeps_free(s.drop_last());
        let x = utf16(s.drop_last());
        assert forall|i: int| 0 <= i < utf16(s).len() implies utf16(s)[i] != SEPARATOR_UNIT by {
            if i < x.len() {
                assert(x.contains(x[i]));
            } else {
                if units(c)[i - x.len()] == SEPARATOR_UNIT {
                    assert(c as u32 == 0x1f);
                    vstd::utf8::char_u32_cast(c, 0x1fu32);
                    vstd::utf8::char_u32_cast(TARGET_NAME_SEPARATOR, 0x1fu32);
                }
            }
        }
    }
}

/// Two identities without the separator in service and username have the
/// same target name only if they have the same service and the same
/// username. The class is no part of the target name.
pub proof fn lemma_target_names_tell_apart(a: Identity, b: Identity)
    requires
        a.is_free_of(TARGET_NAME_SEPARATOR),
        b.is_free_of(TARGET_NAME_SEPARATOR),
        target_name(a.service, a.username) == target_name(b.service, b.username),
    ensures
        a.service == b.service,
        a.username == b.username,
{
    let x = target_name(a.service, a.username);
    let y = target_name(b.service, b.username);
    let sa = utf16(a.service);
    let sb = utf16(b.service);
    lemma_utf16_keeps_free(a.service);
    lemma_utf16_keeps_free(b.service);
    match (a.username, b.username) {
        (Some(u), Some(v)) => {
            let p = utf16(u);
            let q = utf16(v);
            lemma_utf16_keeps_free(u);
            lemma_utf16_keeps_free(v);
            assert(x == p.push(SEPARATOR_UNIT) + sa.push(0u16));
            assert(y == q.push(SEPARATOR_UNIT) + sb.push(0u16));
            if p.len() < q.len() {
                assert(x[p.len() as int] == SEPARATOR_UNIT);
                assert(y[p.len() as int] == q[p.len() as int]);
                assert(q.contains(q[p.len() as int]));
            }
            if q.len() < p.len() {
                assert(y[q.len() as int] == SEPARATOR_UNIT);
                assert(x[q.len() as int] == p[q.len() as int]);
                assert(p.contains(p[q.len() as int]));
            }
            assert(x.len() == y.len());
            assert forall|i: int| 0 <= i < p.len() implies p[i] == q[i] by {
                assert(x[i] == p[i] && y[i] == q[i]);
            }
            assert(p =~= q);
            assert forall|i: int| 0 <= i < sa.len() implies sa[i] == sb[i] by {
                assert(x[p.len() + 1 + i] == sa[i]);
                assert(y[q.len() + 1 + i] == sb[i]);
            }
            assert(sa =~= sb);
            lemma_utf16_tells_apart(u, v);
            lemma_utf16_tells_apart(a.service, b.service);
        },
        (Some(u), None) => {
            let p = utf16(u);
            assert(x == p.push(SEPARATOR_UNIT) + sa.push(0u16));
            assert(y == sb.push(0u16));
            assert(x[p.len() as int] == SEPARATOR_UNIT);
            if p.len() < sb.len() {
                assert(sb.contains(sb[p.len() as int]));
            }
        },
        (None, Some(v)) => {
            let q = utf16(v);
            assert(y == q.push(SEPARATOR_UNIT) + sb.push(0u16));
            assert(x == sa.push(0u16));
            assert(y[q.len() as int] == SEPARATOR_UNIT);
            if q.len() < sa.len() {
                assert(sa.contains(sa[q.len() as int]));
            }
        },
        (None, None) => {
            assert(sa =~= x.drop_last());
            assert(sb =~= y.drop_last());
            lemma_utf16_tells_apart(a.service, b.service);
        },
    }
}

/// One service has the same target name with two usernames only if they are
/// the same, whatever the texts hold.
pub proof fn lemma_username_tells_apart(
    service: Seq<char>,
    username: Option<Seq<char>>,
    other: Option<Seq<char>>,
)
    requires
        target_name(service, username) == target_name(service, other),
    ensures
        username == other,
{
    let x = target_name(service, username);
    let y = target_name(service, other);
    let s = wide(service);
    match (username, other) {
        (Some(u), Some(v)) => {
            let p = utf16(u);
            let q = utf16(v);
            assert(x == p.push(SEPARATOR_UNIT) + s);
            assert(y == q.push(SEPARATOR_UNIT) + s);
            assert(p.len() == q.len());
            assert forall|i: int| 0 <= i < p.len() implies p[i] == q[i] by {
                assert(x[i] == p[i] && y[i] == q[i]);
            }
            assert(p =~= q);
            lemma_utf16_tells_apart(u, v);
        },
        (Some(u), None) => {
            assert(x == utf16(u).push(SEPARATOR_UNIT) + s);
            assert(x.len() > y.len());
        },
        (None, Some(v)) => {
            assert(y == utf16(v).push(SEPARATOR_UNIT) + s);
            assert(y.len() > x.len());
        },
        (None, None) => {},
    }
}

/// What a Credential Manager holds: the credential of each target name and
/// type.
pub type Vault = Map<(Seq<u16>, u32), Record>;

/// The answer of a Credential Manager that holds `vault` and works: a write
/// succeeds, a read or a delete finds the credential or reports with
/// `absent` that it is missing.
pub open spec fn answer<E>(vault: Vault, request: RequestView, absent: Failure<E>) -> Reply<
    Record,
    E,
> {
    match request {
        RequestView::Write(_) => Ok(None),
        RequestView::Read { target_name, ty } => if vault.contains_key((target_name, ty)) {
            Ok(Some(vault[(target_name, ty)]))
        } else {
            Err(missing(absent))
        },
        RequestView::Delete { target_name, ty } => if vault.contains_key((target_name, ty)) {
            Ok(None)
        } else {
            Err(missing(absent))
        },
    }
}

/// What such a Credential Manager holds after the call.
pub open spec fn after(vault: Vault, request: RequestView) -> Vault {
    match request {
        RequestView::Write(record) => vault.insert(record.key(), record),
        RequestView::Read { .. } => vault,
        RequestView::Delete { target_name, ty } => vault.remove((target_name, ty)),
    }
}

impl StateView {
    /// How many calls can still follow the one under way.
    pub open spec fn calls_left(self) -> nat {
        match self {
            StateView::Last => 0,
            StateView::Load => 0,
            StateView::Then(_) => 1,
            StateView::Update { .. } => 2,
        }
    }
}

impl<E> StepView<E> {
    /// How many calls the operation can still ask for.
    pub open spec fn calls_left(self) -> nat {
        match self {
            StepView::Call(_, state) => state.calls_left() + 1,
            StepView::Finished(_) => 0,
        }
    }
}

/// A call that fails ends the operation at once, with the failure of the
/// store: nothing is tried again and nothing undone. The one exception is a
/// load that finds no credential, which ends with nothing.
pub proof fn lemma_failure_ends<E>(state: StateView, failure: Failure<E>)
    requires
        !(state is Load && failure.not_found),
    ensures
        resume_step::<E>(state, Err(failure)) == StepView::Finished(failed(Fault::Native(failure))),
{
}

/// Every answer brings an operation nearer to its end: after it, no more
/// calls can follow than could before.
pub proof fn lemma_calls_run_out<E>(state: StateView, reply: Reply<Record, E>)
    ensures
        resume_step(state, reply).calls_left() <= state.calls_left(),
{
}

/// An operation carried through from `step` against a Credential Manager
/// that holds `vault` and works: what the Credential Manager holds in the
/// end, and how the operation ends.
pub open spec fn run<E>(vault: Vault, step: StepView<E>, absent: Failure<E>) -> (Vault, Outcome<E>)
    decreases step.calls_left(),
{
    match step {
        StepView::Call(request, state) => run(
            after(vault, request),
            resume_step(state, answer(vault, request, absent)),
            absent,
        ),
        StepView::Finished(outcome) => (vault, outcome),
    }
}

/// An operation carried through like [`run`], but for one call that fails:
/// the call number `at`, counted from zero, changes nothing and is answered
/// with `failure`.
pub open spec fn run_failing<E>(
    vault: Vault,
    step: StepView<E>,
    absent: Failure<E>,
    failure: Failure<E>,
    at: nat,
) -> (Vault, Outcome<E>)
    decreases step.calls_left(),
{
    match step {
        StepView::Call(request, state) => if at == 0 {
            run(vault, resume_step(state, Err(failure)), absent)
        } else {
            run_failing(
                after(vault, request),
                resume_step(state, answer(vault, request, absent)),
                absent,
                failure,
                (at - 1) as nat,
            )
        },
        StepView::Finished(outcome) => (vault, outcome),
    }
}

/// `vault` keeps `secret` for `identity`: under the identity's target name
/// lies a credential as this library writes it.
pub open spec fn keeps(vault: Vault, identity: Identity, secret: Seq<char>) -> bool {
    let key = (target_name(identity.service, identity.username), CRED_TYPE_GENERIC);
    &&& vault.contains_key(key)
    &&& vault[key] == Record {
        flags: 0,
        ty: CRED_TYPE_GENERIC,
        target_name: key.0,
        blob: encode_utf8(secret),
        persist: CRED_PERSIST_LOCAL_MACHINE,
        user_name: wide_text(identity.username),
    }
}

/// `vault` has nothing for `identity`.
pub open spec fn lacks(vault: Vault, identity: Identity) -> bool {
    !vault.contains_key((target_name(identity.service, identity.username), CRED_TYPE_GENERIC))
}

/// Storing an item succeeds, and the item is kept from then on.
pub proof fn lemma_store_keeps<E>(vault: Vault, item: Item, absent: Failure<E>)
    ensures
        run(vault, store_step(item), absent).1 == nothing::<E>(),
        keeps(run(vault, store_step(item), absent).0, item.identity(), item.secret),
{
    reveal_with_fuel(run, 4);
}

/// Loading what is kept gives the secret.
pub proof fn lemma_load_kept<E>(vault: Vault, identity: Identity, secret: Seq<char>, absent: Failure<E>)
    requires
        keeps(vault, identity, secret),
    ensures
        run(vault, load_step(identity), absent) == (vault, found::<E>(secret)),
{
    reveal_with_fuel(run, 4);
    encode_utf8_valid_utf8(secret);
    encode_utf8_decode_utf8(secret);
}

/// Loading what is not there gives nothing, and no error.
pub proof fn lemma_load_lacking<E>(vault: Vault, identity: Identity, absent: Failure<E>)
    requires
        lacks(vault, identity),
    ensures
        run(vault, load_step(identity), absent) == (vault, nothing::<E>()),
{
    reveal_with_fuel(run, 4);
}

/// Deleting what is kept succeeds, and it is gone from then on.
pub proof fn lemma_delete_kept<E>(vault: Vault, identity: Identity, secret: Seq<char>, absent: Failure<E>)
    requires
        keeps(vault, identity, secret),
    ensures
        run(vault, delete_step(identity), absent).1 == nothing::<E>(),
        lacks(run(vault, delete_step(identity), absent).0, identity),
{
    reveal_with_fuel(run, 4);
}

/// Deleting what is not there fails with what the Credential Manager
/// reports.
pub proof fn lemma_delete_lacking<E>(vault: Vault, identity: Identity, absent: Failure<E>)
    requires
        lacks(vault, identity),
    ensures
        run(vault, delete_step(identity), absent) == (vault, failed(Fault::Native(missing(absent)))),
{
    reveal_with_fuel(run, 4);
}

/// A credential that this library wrote gives back the service it was
/// written for.
pub proof fn lemma_live_service(identity: Identity, previous: Record)
    requires
        previous.target_name == target_name(identity.service, identity.username),
        previous.user_name == wide_text(identity.username),
    ensures
        live_service(identity, previous) == wide(identity.service),
{
    match identity.username {
        Some(username) => {
            let prefix = text_of(wide(username)).push(SEPARATOR_UNIT);
            let whole = previous.target_name;
            assert(whole == prefix + wide(identity.service));
            assert(whole.subrange(0, prefix.len() as int) == prefix);
            assert(whole.subrange(prefix.len() as int, whole.len() as int) == wide(
                identity.service,
            ));
        },
        None => {},
    }
}

/// Updating what is not there fails with what the Credential Manager
/// reports, whatever the changes are, and writes nothing.
pub proof fn lemma_update_lacking<E>(
    vault: Vault,
    identity: Identity,
    changes: Changes,
    absent: Failure<E>,
)
    requires
        lacks(vault, identity),
    ensures
        run(vault, update_step(identity, changes), absent) == (
            vault,
            failed(Fault::Native(missing(absent))),
        ),
{
    reveal_with_fuel(run, 4);
}

/// Updating what is kept succeeds. The item is then kept under the identity
/// that the changes give it, with the secret that they give it. Where its
/// target name changes, nothing is left under the old identity. No other
/// credential is touched, and changes that are empty leave everything as it
/// is.
pub proof fn lemma_update_kept<E>(
    vault: Vault,
    identity: Identity,
    secret: Seq<char>,
    changes: Changes,
    absent: Failure<E>,
)
    requires
        keeps(vault, identity, secret),
    ensures
        ({
            let (then, outcome) = run(vault, update_step(identity, changes), absent);
            let new_identity = changes.apply(identity);
            let old_key = (target_name(identity.service, identity.username), CRED_TYPE_GENERIC);
            let new_key = (
                target_name(new_identity.service, new_identity.username),
                CRED_TYPE_GENERIC,
            );
            &&& outcome == nothing::<E>()
            &&& keeps(then, new_identity, changes.apply_secret(secret))
            &&& new_key != old_key ==> lacks(then, identity)
            &&& forall|key: (Seq<u16>, u32)|
                key != old_key && key != new_key ==> then.contains_key(key) == vault.contains_key(
                    key,
                ) && then[key] == vault[key]
            &&& changes.is_empty() ==> then == vault
        }),
{
    reveal_with_fuel(run, 4);
    let old_key = (target_name(identity.service, identity.username), CRED_TYPE_GENERIC);
    let previous = vault[old_key];
    lemma_live_service(identity, previous);
    let record = updated_record(identity, changes, previous);
    let new_identity = changes.apply(identity);
    assert(record.target_name == target_name(new_identity.service, new_identity.username));
    let then = run(vault, update_step(identity, changes), absent).0;
    if changes.is_empty() {
        assert(record == previous);
        assert(then =~= vault);
    }
}

/// An update that is interrupted by a failure ends with the failure, and the
/// item is not lost: the new credential is written before the old one is
/// dropped, so the old one is there as long as anything fails. Where only
/// the dropping fails, both are there.
pub proof fn lemma_update_interrupted<E>(
    vault: Vault,
    identity: Identity,
    secret: Seq<char>,
    changes: Changes,
    absent: Failure<E>,
    failure: Failure<E>,
    at: nat,
)
    requires
        keeps(vault, identity, secret),
        at <= (if target_name(changes.apply(identity).service, changes.apply(identity).username)
            != target_name(identity.service, identity.username) {
            2nat
        } else {
            1nat
        }),
    ensures
        ({
            let (then, outcome) = run_failing(
                vault,
                update_step(identity, changes),
                absent,
                failure,
                at,
            );
            &&& outcome == failed(Fault::Native(failure))
            &&& keeps(then, identity, secret)
            &&& at < 2 ==> then == vault
            &&& at == 2 ==> keeps(then, changes.apply(identity), changes.apply_secret(secret))
        }),
{
    reveal_with_fuel(run, 4);
    reveal_with_fuel(run_failing, 4);
    let old_key = (target_name(identity.service, identity.username), CRED_TYPE_GENERIC);
    let previous = vault[old_key];
    lemma_live_service(identity, previous);
    let record = updated_record(identity, changes, previous);
    let new_identity = changes.apply(identity);
    assert(record.target_name == target_name(new_identity.service, new_identity.username));
}

/// Loading with the handle that storing gives returns the secret that was
/// stored, whatever service, username and class the item has.
pub proof fn lemma_store_then_load<E>(vault: Vault, item: Item, absent: Failure<E>)
    ensures
        ({
            let (stored, outcome) = run(vault, store_step(item), absent);
            &&& outcome == nothing::<E>()
            &&& run(stored, load_step(item.identity()), absent).1 == found::<E>(item.secret)
        }),
{
    lemma_store_keeps(vault, item, absent);
    lemma_load_kept(run(vault, store_step(item), absent).0, item.identity(), item.secret, absent);
}

/// Deleting a stored item and then loading it gives nothing, and no error.
pub proof fn lemma_delete_then_load<E>(
    vault: Vault,
    identity: Identity,
    secret: Seq<char>,
    absent: Failure<E>,
)
    requires
        keeps(vault, identity, secret),
    ensures
        ({
            let (deleted, outcome) = run(vault, delete_step(identity), absent);
            &&& outcome == nothing::<E>()
            &&& run(deleted, load_step(identity), absent).1 == nothing::<E>()
        }),
{
    lemma_delete_kept(vault, identity, secret, absent);
    lemma_load_lacking(run(vault, delete_step(identity), absent).0, identity, absent);
}

/// Storing an item and then updating it with empty changes changes nothing:
/// the Credential Manager holds what it held, and loading gives the secret
/// that was stored.
pub proof fn lemma_store_then_empty_update<E>(
    vault: Vault,
    item: Item,
    changes: Changes,
    absent: Failure<E>,
)
    requires
        changes.is_empty(),
    ensures
        ({
            let stored = run(vault, store_step(item), absent).0;
            let (updated, outcome) = run(stored, update_step(item.identity(), changes), absent);
            &&& outcome == nothing::<E>()
            &&& updated == stored
            &&& run(updated, load_step(item.identity()), absent).1 == found::<E>(item.secret)
        }),
{
    lemma_store_keeps(vault, item, absent);
    let stored = run(vault, store_step(item), absent).0;
    lemma_update_kept(stored, item.identity(), item.secret, changes, absent);
    lemma_load_kept(stored, item.identity(), item.secret, absent);
}

/// An update that gives a new secret and leaves service, username and class
/// as they are keeps the old handle valid: loading with it gives the new
/// secret.
pub proof fn lemma_update_secret_only<E>(
    vault: Vault,
    identity: Identity,
    secret: Seq<char>,
    changes: Changes,
    absent: Failure<E>,
)
    requires
        keeps(vault, identity, secret),
        changes.secret is Some,
        changes.apply(identity) == identity,
    ensures
        ({
            let (updated, outcome) = run(vault, update_step(identity, changes), absent);
            &&& outcome == nothing::<E>()
            &&& run(updated, load_step(identity), absent).1 == found::<E>(changes.secret->0)
        }),
{
    lemma_update_kept(vault, identity, secret, changes, absent);
    let updated = run(vault, update_step(identity, changes), absent).0;
    lemma_load_kept(updated, identity, changes.secret->0, absent);
}

/// An update that leaves service and username as they are keeps the old
/// handle valid, whatever it does to class and secret: loading with it gives
/// the current secret.
pub proof fn lemma_update_keeps_handle<E>(
    vault: Vault,
    identity: Identity,
    secret: Seq<char>,
    changes: Changes,
    absent: Failure<E>,
)
    requires
        keeps(vault, identity, secret),
        changes.apply(identity).service == identity.service,
        changes.apply(identity).username == identity.username,
    ensures
        ({
            let (updated, outcome) = run(vault, update_step(identity, changes), absent);
            &&& outcome == nothing::<E>()
            &&& run(updated, load_step(identity), absent).1 == found::<E>(
                changes.apply_secret(secret),
            )
        }),
{
    lemma_update_kept(vault, identity, secret, changes, absent);
    let updated = run(vault, update_step(identity, changes), absent).0;
    lemma_load_kept(updated, identity, changes.apply_secret(secret), absent);
}

/// An update that changes the target name moves the item: loading with the
/// old handle gives nothing, loading with the new one gives the current
/// secret.
pub proof fn lemma_update_key<E>(
    vault: Vault,
    identity: Identity,
    secret: Seq<char>,
    changes: Changes,
    absent: Failure<E>,
)
    requires
        keeps(vault, identity, secret),
        target_name(changes.apply(identity).service, changes.apply(identity).username)
            != target_name(identity.service, identity.username),
    ensures
        ({
            let (updated, outcome) = run(vault, update_step(identity, changes), absent);
            &&& outcome == nothing::<E>()
            &&& run(updated, load_step(identity), absent).1 == nothing::<E>()
            &&& run(updated, load_step(changes.apply(identity)), absent).1 == found::<E>(
                changes.apply_secret(secret),
            )
        }),
{
    lemma_update_kept(vault, identity, secret, changes, absent);
    let updated = run(vault, update_step(identity, changes), absent).0;
    lemma_load_lacking(updated, identity, absent);
    lemma_load_kept(updated, changes.apply(identity), changes.apply_secret(secret), absent);
}

/// An update that gives an item another username and leaves its service
/// moves the item: loading with the old handle gives nothing, loading with
/// the new one gives the current secret.
pub proof fn lemma_update_username<E>(
    vault: Vault,
    identity: Identity,
    secret: Seq<char>,
    changes: Changes,
    absent: Failure<E>,
)
    requires
        keeps(vault, identity, secret),
        changes.service is None,
        changes.username is Some,
        changes.username != identity.username,
    ensures
        ({
            let (updated, outcome) = run(vault, update_step(identity, changes), absent);
            &&& outcome == nothing::<E>()
            &&& run(updated, load_step(identity), absent).1 == nothing::<E>()
            &&& run(updated, load_step(changes.apply(identity)), absent).1 == found::<E>(
                changes.apply_secret(secret),
            )
        }),
{
    if target_name(identity.service, changes.username) == target_name(
        identity.service,
        identity.username,
    ) {
        lemma_username_tells_apart(identity.service, changes.username, identity.username);
    }
    lemma_update_key(vault, identity, secret, changes, absent);
}

/// An update that changes service or username of an item, where neither the
/// old nor the new ones hold the separator, moves the item: loading with the
/// old handle gives nothing, loading with the new one gives the current
/// secret.
pub proof fn lemma_update_renames<E>(
    vault: Vault,
    identity: Identity,
    secret: Seq<char>,
    changes: Changes,
    absent: Failure<E>,
)
    requires
        keeps(vault, identity, secret),
        identity.is_free_of(TARGET_NAME_SEPARATOR),
        changes.apply(identity).is_free_of(TARGET_NAME_SEPARATOR),
        changes.apply(identity).service != identity.service || changes.apply(identity).username
            != identity.username,
    ensures
        ({
            let (updated, outcome) = run(vault, update_step(identity, changes), absent);
            &&& outcome == nothing::<E>()
            &&& run(updated, load_step(identity), absent).1 == nothing::<E>()
            &&& run(updated, load_step(changes.apply(identity)), absent).1 == found::<E>(
                changes.apply_secret(secret),
            )
        }),
{
    let new_identity = changes.apply(identity);
    if target_name(new_identity.service, new_identity.username) == target_name(
        identity.service,
        identity.username,
    ) {
        lemma_target_names_tell_apart(new_identity, identity);
    }
    lemma_update_key(vault, identity, secret, changes, absent);
}

} // verus!
