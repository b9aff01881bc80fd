//! The fallback store, for where the platform has none: one file per item in
//! a folder below the data directory of the application.
//!
//! The data directory is the caller's to find, with [`project`] to ask for
//! it by. Every path here is one below that directory: the caller resolves
//! it against the directory before it touches the file system.

use crate::error::{Error, Failure, Fault};
use crate::sys::{
    failed, found, missing, nothing, outcome, read_back, secret_of, settled, Outcome, Reply,
};
use crate::text::{concat, same_text};
use crate::{Changes, Identifier, Identity, Item, KeychainItemBuilder, UpdateOptions};
use vstd::prelude::*;
use vstd::string::{StrSliceExecFns, StringExecFns};
use vstd::utf8::{encode_utf8, encode_utf8_decode_utf8, encode_utf8_valid_utf8};

verus! {

/// The character between username and service in a file name.
pub const SEPARATOR: char = '\u{1f}';

/// The names by which the platform is asked for the data directory of an
/// application.
#[derive(Copy, Clone, Debug, PartialEq, Eq)]
pub struct Project {
    pub qualifier: &'static str,
    pub organization: &'static str,
    pub application: &'static str,
}

/// The names by which this library asks for its data directory: all three
/// are empty, so the directory is the one that the platform gives an
/// application without a name.
pub fn project() -> (project: Project)
    ensures
        project.qualifier@ == Seq::<char>::empty(),
        project.organization@ == Seq::<char>::empty(),
        project.application@ == Seq::<char>::empty(),
{
    proof {
        reveal_strlit("");
        assert(""@ =~= Seq::<char>::empty());
    }
    Project { qualifier: "", organization: "", application: "" }
}

/// The name of the folder that holds the files, below the data directory.
pub open spec fn folder() -> Seq<char> {
    "robius-keychain"@
}

/// The path that `Path::join` of the standard library makes of a path and a
/// name.
pub uninterp spec fn joined_path(base: Seq<char>, name: Seq<char>) -> Seq<char>;

/// `Path::join` of the standard library, on text: `name` adjoined to `base`.
/// Both are UTF-8, so the path is, and its text is the whole of it.
#[verifier::external_body]
fn join_path(base: &str, name: &str) -> (path: String)
    ensures
        path@ == joined_path(base@, name@),
{
    std::path::Path::new(base).join(name).to_string_lossy().into_owned()
}

/// The name of the file of an identity: username, separator and service; the
/// service alone where there is no username.
///
/// Neither part is escaped: where a username or a service holds the
/// separator, two identities can have one name.
pub open spec fn file_name_of(identity: Identity) -> Seq<char> {
    match identity.username {
        Some(username) => username.push(SEPARATOR) + identity.service,
        None => identity.service,
    }
}

/// The directory of the files, as a path below the data directory.
pub open spec fn dir_of() -> Seq<char> {
    folder()
}

/// The file of an identity, as a path below the data directory.
pub open spec fn file_of(identity: Identity) -> Seq<char> {
    joined_path(dir_of(), file_name_of(identity))
}

/// The name of the file of an identity.
pub fn file_name(identifier: &Identifier) -> (name: String)
    ensures
        name@ == file_name_of(identifier@),
{
    match identifier.username {
        Some(username) => {
            proof {
                reveal_strlit("\u{1f}");
            }
            let mut name = concat(username, "\u{1f}");
            assert(name@ == username@.push(SEPARATOR));
            name.append(identifier.service);
            name
        },
        None => identifier.service.to_owned(),
    }
}

/// The directory of the files, as a path below the data directory.
/// `data_dir` says whether the platform has a data directory for the
/// application: without one there is none for the files, and that is the
/// error.
pub fn dir<E>(data_dir: bool) -> (dir: Result<String, Error<E>>)
    ensures
        data_dir ==> dir is Ok && dir->Ok_0@ == dir_of(),
        !data_dir ==> dir is Err && dir->Err_0@ == Fault::<E>::Directories,
{
    if data_dir {
        Ok("robius-keychain".to_owned())
    } else {
        Err(Error::Directories)
    }
}

/// The file of an identity, as a path below the data directory; the error
/// of a missing data directory where `data_dir` says that there is none.
pub fn file<E>(data_dir: bool, identifier: &Identifier) -> (file: Result<String, Error<E>>)
    ensures
        data_dir ==> file is Ok && file->Ok_0@ == file_of(identifier@),
        !data_dir ==> file is Err && file->Err_0@ == Fault::<E>::Directories,
{
    match dir(data_dir) {
        Ok(dir) => {
            let name = file_name(identifier);
            Ok(join_path(dir.as_str(), name.as_str()))
        },
        Err(error) => Err(error),
    }
}

/// A call of the file system.
#[derive(Debug, PartialEq, Eq)]
pub enum Request {
    /// Create the directory and every parent that is missing.
    CreateDirAll { path: String },
    /// Write the file, in place of what is there.
    Write { path: String, contents: Vec<u8> },
    /// Read the whole file.
    Read { path: String },
    /// Remove the file.
    Remove { path: String },
}

/// What a [`Request`] holds.
pub enum RequestView {
    CreateDirAll { path: Seq<char> },
    Write { path: Seq<char>, contents: Seq<u8> },
    Read { path: Seq<char> },
    Remove { path: Seq<char> },
}

impl View for Request {
    type V = RequestView;

    open spec fn view(&self) -> RequestView {
        match *self {
            Request::CreateDirAll { path } => RequestView::CreateDirAll { path: path@ },
            Request::Write { path, contents } => RequestView::Write {
                path: path@,
                contents: contents@,
            },
            Request::Read { path } => RequestView::Read { path: path@ },
            Request::Remove { path } => RequestView::Remove { path: path@ },
        }
    }
}

/// Where an operation stands while a call is under way.
#[derive(Debug, PartialEq, Eq)]
pub enum State {
    /// The call is the last one: the operation ends as the call does.
    Last,
    /// The call reads the file whose secret is asked for.
    Load,
    /// One more call follows.
    Then(Request),
    /// The call reads the file that is to be changed: `from` is its path,
    /// `to` the path that the changes give it, `secret` the new contents
    /// where the changes give any.
    Update { from: String, to: String, secret: Option<Vec<u8>> },
}

/// What a [`State`] holds.
pub enum StateView {
    Last,
    Load,
    Then(RequestView),
    Update { from: Seq<char>, to: Seq<char>, secret: Option<Seq<u8>> },
}

/// The bytes behind an optional buffer.
pub open spec fn bytes(buffer: Option<Vec<u8>>) -> Option<Seq<u8>> {
    match buffer {
        Some(buffer) => Some(buffer@),
        None => None,
    }
}

impl View for State {
    type V = StateView;

    open spec fn view(&self) -> StateView {
        match *self {
            State::Last => StateView::Last,
            State::Load => StateView::Load,
            State::Then(request) => StateView::Then(request@),
            State::Update { from, to, secret } => StateView::Update {
                from: from@,
                to: to@,
                secret: bytes(secret),
            },
        }
    }
}

/// What an operation needs next: a call and the state to resume from with
/// its answer, or nothing more.
#[derive(Debug, PartialEq, Eq)]
pub enum Step<E> {
    Call(Request, State),
    Finished(Result<Option<String>, Error<E>>),
}

/// What a [`Step`] holds.
pub enum StepView<E> {
    Call(RequestView, StateView),
    Finished(Outcome<E>),
}

impl<E> View for Step<E> {
    type V = StepView<E>;

    open spec fn view(&self) -> StepView<E> {
        match *self {
            Step::Call(request, state) => StepView::Call(request@, state@),
            Step::Finished(result) => StepView::Finished(outcome(result)),
        }
    }
}

/// What the answer to a call holds.
pub open spec fn answered<E>(reply: Reply<Vec<u8>, E>) -> Reply<Seq<u8>, E> {
    match reply {
        Ok(Some(contents)) => Ok(Some(contents@)),
        Ok(None) => Ok(None),
        Err(failure) => Err(failure),
    }
}

/// An operation that cannot begin for want of a data directory.
pub open spec fn no_directory<E>() -> StepView<E> {
    StepView::Finished(Err(Fault::Directories))
}

/// Storing an item: make sure of the directory, then write the file.
pub open spec fn store_step<E>(data_dir: bool, item: Item) -> StepView<E> {
    if data_dir {
        StepView::Call(
            RequestView::CreateDirAll { path: dir_of() },
            StateView::Then(
                RequestView::Write {
                    path: file_of(item.identity()),
                    contents: encode_utf8(item.secret),
                },
            ),
        )
    } else {
        no_directory()
    }
}

/// Loading a secret is one call: read the file.
pub open spec fn load_step<E>(data_dir: bool, identity: Identity) -> StepView<E> {
    if data_dir {
        StepView::Call(RequestView::Read { path: file_of(identity) }, StateView::Load)
    } else {
        no_directory()
    }
}

/// Deleting an item is one call: remove the file.
pub open spec fn delete_step<E>(data_dir: bool, identity: Identity) -> StepView<E> {
    if data_dir {
        StepView::Call(RequestView::Remove { path: file_of(identity) }, StateView::Last)
    } else {
        no_directory()
    }
}

/// The contents that changes give a file, where they give any.
pub open spec fn new_contents(changes: Changes) -> Option<Seq<u8>> {
    match changes.secret {
        Some(secret) => Some(encode_utf8(secret)),
        None => None,
    }
}

/// An update begins by reading the file as it is, whatever the changes are:
/// that shows whether the item is there, and gives the contents to keep.
pub open spec fn update_step<E>(data_dir: bool, identity: Identity, changes: Changes) -> StepView<
    E,
> {
    if data_dir {
        StepView::Call(
            RequestView::Read { path: file_of(identity) },
            StateView::Update {
                from: file_of(identity),
                to: file_of(changes.apply(identity)),
                secret: new_contents(changes),
            },
        )
    } else {
        no_directory()
    }
}

/// What follows the answer to a call.
///
/// The last call ends the operation as it ended itself. A load ends with the
/// secret read, with nothing where no file is there, with the failure
/// otherwise.
///
/// An update of a file that is not there ends with the error that says so,
/// and nothing is written. Of a file that is there: where the path stays,
/// new contents are written in place, and without any the update ends at
/// once; where the path changes, the item is made anew, that is the old file
/// removed and then the new one written, with the new contents where there
/// are any and those read otherwise. The file system has no single call for
/// this: a failure after the removal leaves no file.
pub open spec fn resume_step<E>(state: StateView, reply: Reply<Seq<u8>, E>) -> StepView<E> {
    match state {
        StateView::Last => StepView::Finished(settled(reply)),
        StateView::Load => StepView::Finished(
            match reply {
                Ok(Some(contents)) => secret_of(contents),
                Ok(None) => Ok(None),
                Err(failure) => if failure.not_found {
                    Ok(None)
                } else {
                    Err(Fault::Native(failure))
                },
            },
        ),
        StateView::Then(request) => match reply {
            Ok(_) => StepView::Call(request, StateView::Last),
            Err(failure) => StepView::Finished(Err(Fault::Native(failure))),
        },
        StateView::Update { from, to, secret } => match reply {
            Ok(Some(contents)) => if from == to {
                match secret {
                    Some(secret) => StepView::Call(
                        RequestView::Write { path: to, contents: secret },
                        StateView::Last,
                    ),
                    None => StepView::Finished(Ok(None)),
                }
            } else {
                StepView::Call(
                    RequestView::Remove { path: from },
                    StateView::Then(
                        RequestView::Write {
                            path: to,
                            contents: match secret {
                                Some(secret) => secret,
                                None => contents,
                            },
                        },
                    ),
                )
            },
            Ok(None) => StepView::Finished(Err(Fault::NotFound)),
            Err(failure) => if failure.not_found {
                StepView::Finished(Err(Fault::NotFound))
            } else {
                StepView::Finished(Err(Fault::Native(failure)))
            },
        },
    }
}

/// Begins to store an item. `data_dir` says whether the platform has a data
/// directory for the application.
pub fn store<E>(data_dir: bool, item: KeychainItemBuilder) -> (step: Step<E>)
    ensures
        step@ == store_step::<E>(data_dir, item@),
{
    let dir = match dir(data_dir) {
        Ok(dir) => dir,
        Err(error) => {
            return Step::Finished(Err(error));
        },
    };
    let path = match file(data_dir, &item.identifier()) {
        Ok(path) => path,
        Err(error) => {
            return Step::Finished(Err(error));
        },
    };
    Step::Call(
        Request::CreateDirAll { path: dir },
        State::Then(Request::Write { path, contents: item.secret_text().as_bytes_vec() }),
    )
}

/// Begins to load the secret of an item. `data_dir` says whether the
/// platform has a data directory for the application.
pub fn load<E>(data_dir: bool, identifier: &Identifier) -> (step: Step<E>)
    ensures
        step@ == load_step::<E>(data_dir, identifier@),
{
    match file(data_dir, identifier) {
        Ok(path) => Step::Call(Request::Read { path }, State::Load),
        Err(error) => Step::Finished(Err(error)),
    }
}

/// Begins to change an item. `data_dir` says whether the platform has a data
/// directory for the application.
pub fn update<'a, E>(data_dir: bool, identifier: &Identifier<'a>, options: UpdateOptions<'a>) -> (step:
    Step<E>)
    ensures
        step@ == update_step::<E>(data_dir, identifier@, options@),
{
    let new_identifier = identifier.updated(&options);
    let from = match file(data_dir, identifier) {
        Ok(path) => path,
        Err(error) => {
            return Step::Finished(Err(error));
        },
    };
    let to = match file(data_dir, &new_identifier) {
        Ok(path) => path,
        Err(error) => {
            return Step::Finished(Err(error));
        },
    };
    let secret = match options.secret_text() {
        Some(secret) => Some(secret.as_bytes_vec()),
        None => None,
    };
    let path = from.clone();
    Step::Call(Request::Read { path }, State::Update { from, to, secret })
}

/// Begins to delete an item. `data_dir` says whether the platform has a data
/// directory for the application.
pub fn delete<E>(data_dir: bool, identifier: &Identifier) -> (step: Step<E>)
    ensures
        step@ == delete_step::<E>(data_dir, identifier@),
{
    match file(data_dir, identifier) {
        Ok(path) => Step::Call(Request::Remove { path }, State::Last),
        Err(error) => Step::Finished(Err(error)),
    }
}

/// Goes on with an operation: `reply` is the answer to the call that the
/// last step asked for, `state` the state that it named.
pub fn resume<E>(state: State, reply: Reply<Vec<u8>, E>) -> (step: Step<E>)
    ensures
        step@ == resume_step(state@, answered(reply)),
{
    match state {
        State::Last => match reply {
            Ok(_) => Step::Finished(Ok(None)),
            Err(failure) => Step::Finished(Err(Error::Native(failure))),
        },
        State::Load => match reply {
            Ok(Some(contents)) => Step::Finished(read_back(contents)),
            Ok(None) => Step::Finished(Ok(None)),
            Err(failure) => if failure.not_found {
                Step::Finished(Ok(None))
            } else {
                Step::Finished(Err(Error::Native(failure)))
            },
        },
        State::Then(request) => match reply {
            Ok(_) => Step::Call(request, State::Last),
            Err(failure) => Step::Finished(Err(Error::Native(failure))),
        },
        State::Update { from, to, secret } => match reply {
            Ok(Some(contents)) => if same_text(from.as_str(), to.as_str()) {
                match secret {
                    Some(secret) => Step::Call(
                        Request::Write { path: to, contents: secret },
                        State::Last,
                    ),
                    None => Step::Finished(Ok(None)),
                }
            } else {
                let contents = match secret {
                    Some(secret) => secret,
                    None => contents,
                };
                Step::Call(
                    Request::Remove { path: from },
                    State::Then(Request::Write { path: to, contents }),
                )
            },
            Ok(None) => Step::Finished(Err(Error::NotFound)),
            Err(failure) => if failure.not_found {
                Step::Finished(Err(Error::NotFound))
            } else {
                Step::Finished(Err(Error::Native(failure)))
            },
        },
    }
}

/// What the file system holds below the data directory: the contents of
/// each file, by its path below that directory.
pub type Files = Map<Seq<char>, Seq<u8>>;

/// The answer of a file system that holds `files` and works: making sure of
/// a directory and writing succeed, reading and removing find the file or
/// report with `absent` that it is missing.
pub open spec fn answer<E>(files: Files, request: RequestView, absent: Failure<E>) -> Reply<
    Seq<u8>,
    E,
> {
    match request {
        RequestView::CreateDirAll { .. } => Ok(None),
        RequestView::Write { .. } => Ok(None),
        RequestView::Read { path } => if files.contains_key(path) {
            Ok(Some(files[path]))
        } else {
            Err(missing(absent))
        },
        RequestView::Remove { path } => if files.contains_key(path) {
            Ok(None)
        } else {
            Err(missing(absent))
        },
    }
}

/// What such a file system holds after the call.
pub open spec fn after(files: Files, request: RequestView) -> Files {
    match request {
        RequestView::CreateDirAll { .. } => files,
        RequestView::Write { path, contents } => files.insert(path, contents),
        RequestView::Read { .. } => files,
        RequestView::Remove { path } => files.remove(path),
    }
}

impl StateView {
    /// How many calls can still follow the one under way.
    pub open spec fn calls_left(self) -> nat {
        match self {
            StateView::Last => 0,
            StateView::Load => 0,
            StateView::Then(_) => 1,
            StateView::Update { .. } => 2,
        }
    }
}

impl<E> StepView<E> {
    /// How many calls the operation can still ask for.
    pub open spec fn calls_left(self) -> nat {
        match self {
            StepView::Call(_, state) => state.calls_left() + 1,
            StepView::Finished(_) => 0,
        }
    }
}

/// A call that fails ends the operation at once, with the failure of the
/// file system: nothing is tried again and nothing undone. The two
/// exceptions are for a file that is not there: a load that finds none ends
/// with nothing, an update that finds none with the error that says so.
pub proof fn lemma_failure_ends<E>(state: StateView, failure: Failure<E>)
    ensures
        !failure.not_found || state is Last || state is Then ==> resume_step::<E>(
            state,
            Err(failure),
        ) == StepView::Finished(failed(Fault::Native(failure))),
        failure.not_found && state is Load ==> resume_step::<E>(state, Err(failure))
            == StepView::Finished(nothing::<E>()),
        failure.not_found && state is Update ==> resume_step::<E>(state, Err(failure))
            == StepView::Finished(failed::<E>(Fault::NotFound)),
{
}

/// Every answer brings an operation nearer to its end: after it, no more
/// calls can follow than could before.
pub proof fn lemma_calls_run_out<E>(state: StateView, reply: Reply<Seq<u8>, E>)
    ensures
        resume_step(state, reply).calls_left() <= state.calls_left(),
{
}

/// An operation carried through from `step` against a file system that holds
/// `files` and works: what the file system holds in the end, and how the
/// operation ends.
pub open spec fn run<E>(files: Files, step: StepView<E>, absent: Failure<E>) -> (Files, Outcome<E>)
    decreases step.calls_left(),
{
    match step {
        StepView::Call(request, state) => run(
            after(files, request),
            resume_step(state, answer(files, request, absent)),
            absent,
        ),
        StepView::Finished(outcome) => (files, outcome),
    }
}

/// An operation carried through like [`run`], but for one call that fails:
/// the call number `at`, counted from zero, changes nothing and is answered
/// with `failure`.
pub open spec fn run_failing<E>(
    files: Files,
    step: StepView<E>,
    absent: Failure<E>,
    failure: Failure<E>,
    at: nat,
) -> (Files, Outcome<E>)
    decreases step.calls_left(),
{
    match step {
        StepView::Call(request, state) => if at == 0 {
            run(files, resume_step(state, Err(failure)), absent)
        } else {
            run_failing(
                after(files, request),
                resume_step(state, answer(files, request, absent)),
                absent,
                failure,
                (at - 1) as nat,
            )
        },
        StepView::Finished(outcome) => (files, outcome),
    }
}

/// `files` keep `secret` for `identity`: its file holds the secret.
pub open spec fn keeps(files: Files, identity: Identity, secret: Seq<char>) -> bool {
    &&& files.contains_key(file_of(identity))
    &&& files[file_of(identity)] == encode_utf8(secret)
}

/// `files` have nothing for `identity`.
pub open spec fn lacks(files: Files, identity: Identity) -> bool {
    !files.contains_key(file_of(identity))
}

/// Without a data directory every operation ends at once, with the error
/// that says so, and the file system is not asked for anything.
pub proof fn lemma_no_directory<E>(item: Item, identity: Identity, changes: Changes)
    ensures
        store_step::<E>(false, item) == no_directory::<E>(),
        load_step::<E>(false, identity) == no_directory::<E>(),
        update_step::<E>(false, identity, changes) == no_directory::<E>(),
        delete_step::<E>(false, identity) == no_directory::<E>(),
        no_directory::<E>() == StepView::Finished(failed::<E>(Fault::Directories)),
{
}

/// Two identities without the separator in service and username have the
/// same file name only if they have the same service and the same username.
/// The class is no part of the name.
pub proof fn lemma_file_names_tell_apart(a: Identity, b: Identity)
    requires
        a.is_free_of(SEPARATOR),
        b.is_free_of(SEPARATOR),
        file_name_of(a) == file_name_of(b),
    ensures
        a.service == b.service,
        a.username == b.username,
{
    let x = file_name_of(a);
    let y = file_name_of(b);
    match (a.username, b.username) {
        (Some(u), Some(v)) => {
            if u.len() < v.len() {
                assert(x[u.len() as int] == SEPARATOR);
                assert(y[u.len() as int] == v[u.len() as int]);
                assert(v.contains(SEPARATOR));
            }
            if v.len() < u.len() {
                assert(y[v.len() as int] == SEPARATOR);
                assert(x[v.len() as int] == u[v.len() as int]);
                assert(u.contains(SEPARATOR));
            }
            assert(x.len() == y.len());
            assert forall|i: int| 0 <= i < u.len() implies u[i] == v[i] by {
                assert(x[i] == u[i] && y[i] == v[i]);
            }
            assert(u =~= v);
            assert forall|i: int| 0 <= i < a.service.len() implies a.service[i] == b.service[i] by {
                assert(x[u.len() + 1 + i] == a.service[i]);
                assert(y[v.len() + 1 + i] == b.service[i]);
            }
            assert(a.service =~= b.service);
        },
        (Some(u), None) => {
            assert(x[u.len() as int] == SEPARATOR);
            assert(b.service.contains(SEPARATOR));
        },
        (None, Some(v)) => {
            assert(y[v.len() as int] == SEPARATOR);
            assert(a.service.contains(SEPARATOR));
        },
        (None, None) => {},
    }
}

/// Two identities of one service have the same file name only if they have
/// the same username, whatever the texts hold.
pub proof fn lemma_username_tells_apart(a: Identity, b: Identity)
    requires
        a.service == b.service,
        file_name_of(a) == file_name_of(b),
    ensures
        a.username == b.username,
{
    let x = file_name_of(a);
    let y = file_name_of(b);
    match (a.username, b.username) {
        (Some(u), Some(v)) => {
            assert(u.len() == v.len());
            assert forall|i: int| 0 <= i < u.len() implies u[i] == v[i] by {
                assert(x[i] == u[i] && y[i] == v[i]);
            }
            assert(u =~= v);
        },
        (Some(u), None) => {
            assert(x.len() > y.len());
        },
        (None, Some(v)) => {
            assert(y.len() > x.len());
        },
        (None, None) => {},
    }
}

/// Storing an item succeeds, and the item is kept from then on.
pub proof fn lemma_store_keeps<E>(files: Files, item: Item, absent: Failure<E>)
    ensures
        run(files, store_step(true, item), absent).1 == nothing::<E>(),
        keeps(
            run(files, store_step(true, item), absent).0,
            item.identity(),
            item.secret,
        ),
{
    reveal_with_fuel(run, 5);
}

/// Loading what is kept gives the secret.
pub proof fn lemma_load_kept<E>(
    files: Files,
    identity: Identity,
    secret: Seq<char>,
    absent: Failure<E>,
)
    requires
        keeps(files, identity, secret),
    ensures
        run(files, load_step(true, identity), absent) == (files, found::<E>(secret)),
{
    reveal_with_fuel(run, 5);
    encode_utf8_valid_utf8(secret);
    encode_utf8_decode_utf8(secret);
}

/// Loading what is not there gives nothing, and no error.
pub proof fn lemma_load_lacking<E>(
    files: Files,
    identity: Identity,
    absent: Failure<E>,
)
    requires
        lacks(files, identity),
    ensures
        run(files, load_step(true, identity), absent) == (files, nothing::<E>()),
{
    reveal_with_fuel(run, 5);
}

/// Deleting what is kept succeeds, and it is gone from then on.
pub proof fn lemma_delete_kept<E>(
    files: Files,
    identity: Identity,
    secret: Seq<char>,
    absent: Failure<E>,
)
    requires
        keeps(files, identity, secret),
    ensures
        run(files, delete_step(true, identity), absent).1 == nothing::<E>(),
        lacks(run(files, delete_step(true, identity), absent).0, identity),
{
    reveal_with_fuel(run, 5);
}

/// Deleting what is not there fails with what the file system reports.
pub proof fn lemma_delete_lacking<E>(
    files: Files,
    identity: Identity,
    absent: Failure<E>,
)
    requires
        lacks(files, identity),
    ensures
        run(files, delete_step(true, identity), absent) == (
            files,
            failed(Fault::Native(missing(absent))),
        ),
{
    reveal_with_fuel(run, 5);
}

/// Updating what is kept succeeds. The item is then kept under the identity
/// that the changes give it, with the secret that they give it. Where its
/// path changes, nothing is left under the old identity. No other file is
/// touched, and changes that are empty leave everything as it is.
pub proof fn lemma_update_kept<E>(
    files: Files,
    identity: Identity,
    secret: Seq<char>,
    changes: Changes,
    absent: Failure<E>,
)
    requires
        keeps(files, identity, secret),
    ensures
        ({
            let (then, outcome) = run(files, update_step(true, identity, changes), absent);
            let from = file_of(identity);
            let to = file_of(changes.apply(identity));
            &&& outcome == nothing::<E>()
            &&& keeps(then, changes.apply(identity), changes.apply_secret(secret))
            &&& to != from ==> lacks(then, identity)
            &&& forall|path: Seq<char>|
                path != from && path != to ==> then.contains_key(path) == files.contains_key(path)
                    && then[path] == files[path]
            &&& changes.is_empty() ==> then == files
        }),
{
    reveal_with_fuel(run, 5);
}

/// A store that is interrupted by a failure ends with the failure and has
/// written nothing.
pub proof fn lemma_store_interrupted<E>(
    files: Files,
    item: Item,
    absent: Failure<E>,
    failure: Failure<E>,
    at: nat,
)
    requires
        at <= 1,
    ensures
        run_failing(files, store_step(true, item), absent, failure, at) == (
            files,
            failed(Fault::Native(failure)),
        ),
{
    reveal_with_fuel(run, 5);
    reveal_with_fuel(run_failing, 5);
}

/// An update that moves an item and is interrupted by a failure ends with
/// the failure. It is not undone: where the failure comes after the removal
/// of the old file, that is where the new file was to be written, the item
/// is lost; where it comes earlier, nothing has changed.
pub proof fn lemma_move_interrupted<E>(
    files: Files,
    identity: Identity,
    secret: Seq<char>,
    changes: Changes,
    absent: Failure<E>,
    failure: Failure<E>,
    at: nat,
)
    requires
        keeps(files, identity, secret),
        file_of(changes.apply(identity)) != file_of(identity),
        at <= 2,
    ensures
        ({
            let (then, outcome) = run_failing(
                files,
                update_step(true, identity, changes),
                absent,
                failure,
                at,
            );
            &&& outcome == if at == 0 && failure.not_found {
                failed::<E>(Fault::NotFound)
            } else {
                failed(Fault::Native(failure))
            }
            &&& at < 2 ==> then == files
            &&& at == 2 ==> then == files.remove(file_of(identity))
        }),
{
    reveal_with_fuel(run, 5);
    reveal_with_fuel(run_failing, 5);
}

/// Updating what is not there fails with the error that says so, whatever
/// the changes are, and writes nothing.
pub proof fn lemma_update_lacking<E>(
    files: Files,
    identity: Identity,
    changes: Changes,
    absent: Failure<E>,
)
    requires
        lacks(files, identity),
    ensures
        run(files, update_step(true, identity, changes), absent) == (
            files,
            failed::<E>(Fault::NotFound),
        ),
{
    reveal_with_fuel(run, 5);
}

/// Loading with the handle that storing gives returns the secret that was
/// stored, whatever service, username and class the item has.
pub proof fn lemma_store_then_load<E>(files: Files, item: Item, absent: Failure<E>)
    ensures
        ({
            let (stored, outcome) = run(files, store_step(true, item), absent);
            &&& outcome == nothing::<E>()
            &&& run(stored, load_step(true, item.identity()), absent).1 == found::<E>(
                item.secret,
            )
        }),
{
    lemma_store_keeps(files, item, absent);
    lemma_load_kept(
        run(files, store_step(true, item), absent).0,
        item.identity(),
        item.secret,
        absent,
    );
}

/// Deleting a stored item and then loading it gives nothing, and no error.
pub proof fn lemma_delete_then_load<E>(
    files: Files,
    identity: Identity,
    secret: Seq<char>,
    absent: Failure<E>,
)
    requires
        keeps(files, identity, secret),
    ensures
        ({
            let (deleted, outcome) = run(files, delete_step(true, identity), absent);
            &&& outcome == nothing::<E>()
            &&& run(deleted, load_step(true, identity), absent).1 == nothing::<E>()
        }),
{
    lemma_delete_kept(files, identity, secret, absent);
    lemma_load_lacking(
        run(files, delete_step(true, identity), absent).0,
        identity,
        absent,
    );
}

/// Storing an item and then updating it with empty changes changes nothing:
/// the file system holds what it held, and loading gives the secret that was
/// stored.
pub proof fn lemma_store_then_empty_update<E>(
    files: Files,
    item: Item,
    changes: Changes,
    absent: Failure<E>,
)
    requires
        changes.is_empty(),
    ensures
        ({
            let stored = run(files, store_step(true, item), absent).0;
            let (updated, outcome) = run(
                stored,
                update_step(true, item.identity(), changes),
                absent,
            );
            &&& outcome == nothing::<E>()
            &&& updated == stored
            &&& run(updated, load_step(true, item.identity()), absent).1 == found::<E>(
                item.secret,
            )
        }),
{
    lemma_store_keeps(files, item, absent);
    let stored = run(files, store_step(true, item), absent).0;
    lemma_update_kept(stored, item.identity(), item.secret, changes, absent);
    lemma_load_kept(stored, item.identity(), item.secret, absent);
}

/// An update that gives a new secret and leaves service, username and class
/// as they are keeps the old handle valid: loading with it gives the new
/// secret.
pub proof fn lemma_update_secret_only<E>(
    files: Files,
    identity: Identity,
    secret: Seq<char>,
    changes: Changes,
    absent: Failure<E>,
)
    requires
        keeps(files, identity, secret),
        changes.secret is Some,
        changes.apply(identity) == identity,
    ensures
        ({
            let (updated, outcome) = run(
                files,
                update_step(true, identity, changes),
                absent,
            );
            &&& outcome == nothing::<E>()
            &&& run(updated, load_step(true, identity), absent).1 == found::<E>(
                changes.secret->0,
            )
        }),
{
    lemma_update_kept(files, identity, secret, changes, absent);
    let updated = run(files, update_step(true, identity, changes), absent).0;
    lemma_load_kept(updated, identity, changes.secret->0, absent);
}

/// An update that leaves service and username as they are keeps the old
/// handle valid, whatever it does to class and secret: loading with it gives
/// the current secret.
pub proof fn lemma_update_keeps_handle<E>(
    files: Files,
    identity: Identity,
    secret: Seq<char>,
    changes: Changes,
    absent: Failure<E>,
)
    requires
        keeps(files, identity, secret),
        changes.apply(identity).service == identity.service,
        changes.apply(identity).username == identity.username,
    ensures
        ({
            let (updated, outcome) = run(
                files,
                update_step(true, identity, changes),
                absent,
            );
            &&& outcome == nothing::<E>()
            &&& run(updated, load_step(true, identity), absent).1 == found::<E>(
                changes.apply_secret(secret),
            )
        }),
{
    lemma_update_kept(files, identity, secret, changes, absent);
    let updated = run(files, update_step(true, identity, changes), absent).0;
    lemma_load_kept(updated, identity, changes.apply_secret(secret), absent);
}

/// An update that changes the path moves the item: loading with the old
/// handle gives nothing, loading with the new one gives the current secret.
pub proof fn lemma_update_key<E>(
    files: Files,
    identity: Identity,
    secret: Seq<char>,
    changes: Changes,
    absent: Failure<E>,
)
    requires
        keeps(files, identity, secret),
        file_of(changes.apply(identity)) != file_of(identity),
    ensures
        ({
            let (updated, outcome) = run(
                files,
                update_step(true, identity, changes),
                absent,
            );
            &&& outcome == nothing::<E>()
            &&& run(updated, load_step(true, identity), absent).1 == nothing::<E>()
            &&& run(updated, load_step(true, changes.apply(identity)), absent).1
                == found::<E>(changes.apply_secret(secret))
        }),
{
    lemma_update_kept(files, identity, secret, changes, absent);
    let updated = run(files, update_step(true, identity, changes), absent).0;
    lemma_load_lacking(updated, identity, absent);
    lemma_load_kept(
        updated,
        changes.apply(identity),
        changes.apply_secret(secret),
        absent,
    );
}

} // verus!
