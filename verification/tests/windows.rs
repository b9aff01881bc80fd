use robius_keychain::sys::windows::{
    delete, load, resume, store, target, ty, update, updated_credential, w, Credential, Request,
    State, Step, CRED_PERSIST_LOCAL_MACHINE, CRED_TYPE_GENERIC, SEPARATOR_UNIT,
    TARGET_NAME_SEPARATOR,
};
use robius_keychain::{Class, Error, Failure, Identifier, KeychainItemBuilder, UpdateOptions};
use std::collections::BTreeMap;

type FakeVault = BTreeMap<(Vec<u16>, u32), (Vec<u8>, Option<Vec<u16>>)>;

fn element_not_found() -> Failure<i32> {
    Failure { not_found: true, message: "Element not found.".to_owned(), cause: -2147023728 }
}

fn no_logon_session() -> Failure<i32> {
    Failure {
        not_found: false,
        message: "A specified logon session does not exist.".to_owned(),
        cause: -2147023584,
    }
}

fn wide(text: &str) -> Vec<u16> {
    text.encode_utf16().chain(Some(0)).collect()
}

fn fake_credential_manager(
    vault: &mut FakeVault,
    request: Request,
) -> Result<Option<Credential>, Failure<i32>> {
    match request {
        Request::Write(credential) => {
            vault.insert(
                (credential.target_name, credential.ty),
                (credential.blob, credential.user_name),
            );
            Ok(None)
        }
        Request::Read { target_name, ty } => match vault.get(&(target_name.clone(), ty)) {
            Some((blob, user_name)) => Ok(Some(Credential {
                flags: 0,
                ty,
                target_name,
                blob: blob.clone(),
                persist: 2,
                user_name: user_name.clone(),
            })),
            None => Err(element_not_found()),
        },
        Request::Delete { target_name, ty } => match vault.remove(&(target_name, ty)) {
            Some(_) => Ok(None),
            None => Err(element_not_found()),
        },
    }
}

fn on_vault<'a>(vault: &mut FakeVault, mut step: Step<'a, i32>) -> Result<Option<String>, Error<i32>> {
    let mut calls = 0;
    loop {
        match step {
            Step::Call(request, state) => {
                calls += 1;
                assert!(calls <= 3);
                let reply = fake_credential_manager(vault, request);
                step = resume(state, reply);
            }
            Step::Finished(result) => return result,
        }
    }
}

fn windows_alice() -> Identifier<'static> {
    Identifier { service: "svc", username: Some("alice"), class: Class::Generic }
}

fn windows_bob() -> Identifier<'static> {
    Identifier { service: "svc", username: Some("bob"), class: Class::Generic }
}

fn record(target_name: &str, user_name: Option<&str>, blob: &[u8]) -> Credential {
    Credential {
        flags: 0,
        ty: 1,
        target_name: wide(target_name),
        blob: blob.to_vec(),
        persist: 2,
        user_name: user_name.map(wide),
    }
}

#[test]
fn constants_are_those_of_the_credential_manager() {
    assert_eq!(TARGET_NAME_SEPARATOR, '\x1f');
    assert_eq!(SEPARATOR_UNIT, 0x1f);
    assert_eq!(CRED_TYPE_GENERIC, 1);
    assert_eq!(CRED_PERSIST_LOCAL_MACHINE, 2);
}

#[test]
fn w_encodes_utf16_and_terminates() {
    assert_eq!(w(""), vec![0]);
    assert_eq!(w("ab"), vec![0x61, 0x62, 0]);
    assert_eq!(w("\u{e9}\u{20ac}"), vec![0xe9, 0x20ac, 0]);
    assert_eq!(w("\u{ffff}"), vec![0xffff, 0]);
    assert_eq!(w("\u{10000}"), vec![0xd800, 0xdc00, 0]);
    assert_eq!(w("\u{1d11e}"), vec![0xd834, 0xdd1e, 0]);
    assert_eq!(w("\u{10ffff}"), vec![0xdbff, 0xdfff, 0]);
    for text in ["", "svc", "na\u{ef}ve \u{1f511} key", "\u{d7ff}\u{e000}\u{10000}"] {
        assert_eq!(w(text), wide(text));
    }
}

#[test]
fn target_joins_username_and_service() {
    assert_eq!(target("svc", Some("alice")), wide("alice\x1fsvc"));
    assert_eq!(target("svc", None), wide("svc"));
    assert_eq!(target("", Some("")), vec![0x1f, 0]);
    assert_eq!(target("\u{1f511}", Some("\u{e9}")), wide("\u{e9}\x1f\u{1f511}"));
}

#[test]
fn target_is_ambiguous_where_a_part_holds_the_separator() {
    assert_eq!(target("b\x1fc", Some("a")), target("c", Some("a\x1fb")));
    assert_eq!(target("b\x1fc", Some("a")), target("a\x1fb\x1fc", None));
    assert_ne!(target("bc", Some("a")), target("c", Some("ab")));
}

#[test]
fn every_class_is_a_generic_credential() {
    assert_eq!(ty(Class::Generic), 1);
    assert_eq!(ty(Class::Internet), 1);
}

#[test]
fn credential_manager_store_is_one_write() {
    let item = KeychainItemBuilder::new("svc", "secret1").username("alice").class(Class::Internet);
    assert_eq!(
        store::<i32>(item),
        Step::Call(
            Request::Write(Credential {
                flags: 0,
                ty: 1,
                target_name: wide("alice\x1fsvc"),
                blob: b"secret1".to_vec(),
                persist: 2,
                user_name: Some(wide("alice")),
            }),
            State::Last
        )
    );
    let bare = KeychainItemBuilder::new("svc", "");
    assert_eq!(
        store::<i32>(bare),
        Step::Call(Request::Write(record("svc", None, b"")), State::Last)
    );
}

#[test]
fn credential_manager_load_and_delete_name_the_target() {
    assert_eq!(
        load::<i32>(&windows_alice()),
        Step::Call(Request::Read { target_name: wide("alice\x1fsvc"), ty: 1 }, State::Load)
    );
    assert_eq!(
        delete::<i32>(&windows_alice()),
        Step::Call(Request::Delete { target_name: wide("alice\x1fsvc"), ty: 1 }, State::Last)
    );
}

#[test]
fn credential_manager_load_returns_what_store_wrote() {
    let mut vault = FakeVault::new();
    for (service, username, class, secret) in [
        ("svc", Some("alice"), Class::Generic, "secret1"),
        ("svc", None, Class::Internet, ""),
        ("s\u{e9}rvice", Some("\u{1f464}"), Class::Generic, "p\u{e4}ss \u{1f511}"),
    ] {
        let mut item = KeychainItemBuilder::new(service, secret).class(class);
        if let Some(username) = username {
            item = item.username(username);
        }
        assert_eq!(on_vault(&mut vault, store(item)), Ok(None));
        let id = item.store::<i32>(Ok(())).unwrap();
        assert_eq!(on_vault(&mut vault, load(&id)), Ok(Some(secret.to_owned())));
    }
    assert_eq!(vault.len(), 3);
}

#[test]
fn credential_manager_load_of_a_missing_credential_is_none() {
    let mut vault = FakeVault::new();
    assert_eq!(on_vault(&mut vault, load(&windows_alice())), Ok(None));
    assert_eq!(resume::<i32>(State::Load, Ok(None)), Step::Finished(Ok(None)));
    assert_eq!(
        resume::<i32>(State::Load, Err(no_logon_session())),
        Step::Finished(Err(Error::Native(no_logon_session())))
    );
}

#[test]
fn credential_manager_load_reports_a_blob_that_is_not_utf8() {
    let credential = record("alice\x1fsvc", Some("alice"), &[0x61, 0xff]);
    match resume::<i32>(State::Load, Ok(Some(credential))) {
        Step::Finished(Err(Error::Utf8(cause))) => {
            assert_eq!(cause.utf8_error().valid_up_to(), 1)
        }
        other => panic!("unexpected step {:?}", other),
    }
}

#[test]
fn credential_manager_delete_then_load_is_none() {
    let mut vault = FakeVault::new();
    let item = KeychainItemBuilder::new("svc", "secret1").username("alice");
    assert_eq!(on_vault(&mut vault, store(item)), Ok(None));
    assert_eq!(on_vault(&mut vault, delete(&windows_alice())), Ok(None));
    assert_eq!(on_vault(&mut vault, load(&windows_alice())), Ok(None));
    assert_eq!(
        on_vault(&mut vault, delete(&windows_alice())),
        Err(Error::Native(element_not_found()))
    );
}

#[test]
fn credential_manager_empty_update_writes_back_what_it_read() {
    let mut vault = FakeVault::new();
    let item = KeychainItemBuilder::new("svc", "secret1").username("alice");
    assert_eq!(on_vault(&mut vault, store(item)), Ok(None));
    let before = vault.clone();
    assert_eq!(
        resume::<i32>(
            State::Update { identifier: windows_alice(), options: UpdateOptions::new() },
            Ok(Some(record("alice\x1fsvc", Some("alice"), b"secret1")))
        ),
        Step::Call(
            Request::Write(record("alice\x1fsvc", Some("alice"), b"secret1")),
            State::Last
        )
    );
    assert_eq!(on_vault(&mut vault, update(&windows_alice(), UpdateOptions::new())), Ok(None));
    assert_eq!(vault, before);
    assert_eq!(on_vault(&mut vault, load(&windows_alice())), Ok(Some("secret1".to_owned())));
}

#[test]
fn credential_manager_update_of_the_secret_alone_keeps_the_handle() {
    let mut vault = FakeVault::new();
    let item = KeychainItemBuilder::new("svc", "secret1").username("alice");
    assert_eq!(on_vault(&mut vault, store(item)), Ok(None));
    let options = UpdateOptions::new().secret("secret2").class(Class::Internet);
    assert_eq!(on_vault(&mut vault, update(&windows_alice(), options)), Ok(None));
    assert_eq!(on_vault(&mut vault, load(&windows_alice())), Ok(Some("secret2".to_owned())));
    assert_eq!(vault.len(), 1);
}

#[test]
fn credential_manager_update_of_the_username_moves_the_credential() {
    let mut vault = FakeVault::new();
    let item = KeychainItemBuilder::new("svc", "secret1").username("alice");
    assert_eq!(on_vault(&mut vault, store(item)), Ok(None));
    let id = item.store::<i32>(Ok(())).unwrap();
    assert_eq!(on_vault(&mut vault, load(&id)), Ok(Some("secret1".to_owned())));

    let options = UpdateOptions::new().username("bob");
    let outcome = on_vault(&mut vault, update(&id, options.clone()));
    assert_eq!(id.update(options, outcome.map(|_| ())), Ok(windows_bob()));

    assert_eq!(on_vault(&mut vault, load(&windows_bob())), Ok(Some("secret1".to_owned())));
    assert_eq!(on_vault(&mut vault, load(&windows_alice())), Ok(None));
    assert_eq!(vault.len(), 1);
    assert_eq!(
        vault.get(&(wide("bob\x1fsvc"), 1)),
        Some(&(b"secret1".to_vec(), Some(wide("bob"))))
    );
}

#[test]
fn credential_manager_update_writes_before_it_deletes() {
    let options = UpdateOptions::new().service("other");
    assert_eq!(
        update::<i32>(&windows_alice(), options.clone()),
        Step::Call(
            Request::Read { target_name: wide("alice\x1fsvc"), ty: 1 },
            State::Update { identifier: windows_alice(), options: options.clone() }
        )
    );
    let step = resume::<i32>(
        State::Update { identifier: windows_alice(), options },
        Ok(Some(record("alice\x1fsvc", Some("alice"), b"secret1"))),
    );
    assert_eq!(
        step,
        Step::Call(
            Request::Write(record("alice\x1fother", Some("alice"), b"secret1")),
            State::Then(Request::Delete { target_name: wide("alice\x1fsvc"), ty: 1 })
        )
    );
    assert_eq!(
        resume::<i32>(
            State::Then(Request::Delete { target_name: wide("alice\x1fsvc"), ty: 1 }),
            Ok(None)
        ),
        Step::Call(Request::Delete { target_name: wide("alice\x1fsvc"), ty: 1 }, State::Last)
    );
    assert_eq!(
        resume::<i32>(
            State::Then(Request::Delete { target_name: wide("alice\x1fsvc"), ty: 1 }),
            Err(no_logon_session())
        ),
        Step::Finished(Err(Error::Native(no_logon_session())))
    );
}

#[test]
fn credential_manager_update_gives_a_username_to_a_credential_without() {
    let mut vault = FakeVault::new();
    let item = KeychainItemBuilder::new("svc", "secret1");
    assert_eq!(on_vault(&mut vault, store(item)), Ok(None));
    let bare = Identifier { service: "svc", username: None, class: Class::Generic };
    assert_eq!(
        on_vault(&mut vault, update(&bare, UpdateOptions::new().username("alice"))),
        Ok(None)
    );
    assert_eq!(on_vault(&mut vault, load(&windows_alice())), Ok(Some("secret1".to_owned())));
    assert_eq!(on_vault(&mut vault, load(&bare)), Ok(None));
}

#[test]
fn update_takes_unset_fields_from_the_credential_read_back() {
    let previous = record("carol\x1flive", Some("carol"), b"kept");
    let updated =
        updated_credential(&windows_alice(), &UpdateOptions::new().username("bob"), previous);
    assert_eq!(updated, record("bob\x1flive", Some("bob"), b"kept"));

    let previous = record("carol\x1flive", Some("carol"), b"kept");
    let updated =
        updated_credential(&windows_alice(), &UpdateOptions::new().service("new"), previous);
    assert_eq!(updated, record("carol\x1fnew", Some("carol"), b"kept"));

    let previous = Credential { ty: 5, flags: 3, persist: 1, ..record("x", None, b"kept") };
    let updated = updated_credential(&windows_alice(), &UpdateOptions::new().secret("s"), previous);
    assert_eq!(updated, Credential { ty: 5, ..record("x", None, b"s") });

    let previous = Credential { ty: 5, ..record("x", None, b"kept") };
    let updated =
        updated_credential(&windows_alice(), &UpdateOptions::new().class(Class::Internet), previous);
    assert_eq!(updated, record("x", None, b"kept"));
}

#[test]
fn update_finds_the_service_behind_user_name_and_separator() {
    for (target_name, user_name, expected) in [
        ("alice\x1fsvc", Some("alice"), "bob\x1fsvc"),
        ("alice\x1f", Some("alice"), "bob\x1f"),
        ("\x1fsvc", Some(""), "bob\x1fsvc"),
        ("alice\x1fsvc", Some("alic"), "bob\x1fsvc"),
        ("alice\x1fother", Some("carol"), "bob\x1fsvc"),
        ("alice", Some("alice"), "bob\x1fsvc"),
        ("a\x1fb\x1fc", Some("a"), "bob\x1fb\x1fc"),
        ("a\x1fb\x1fc", Some("a\x1fb"), "bob\x1fc"),
        ("whole", None, "bob\x1fwhole"),
    ] {
        let previous = record(target_name, user_name, b"kept");
        let updated =
            updated_credential(&windows_alice(), &UpdateOptions::new().username("bob"), previous);
        assert_eq!(updated, record(expected, Some("bob"), b"kept"));
    }
}

#[test]
fn update_takes_a_user_name_without_terminator_as_empty() {
    let previous = Credential { user_name: Some(Vec::new()), ..record("\x1fsvc", None, b"kept") };
    let updated =
        updated_credential(&windows_alice(), &UpdateOptions::new().username("bob"), previous);
    assert_eq!(updated, record("bob\x1fsvc", Some("bob"), b"kept"));

    let previous = Credential { user_name: Some(Vec::new()), ..record("x", None, b"kept") };
    let updated =
        updated_credential(&windows_alice(), &UpdateOptions::new().service("new"), previous);
    assert_eq!(
        updated,
        Credential { user_name: Some(Vec::new()), ..record("\x1fnew", None, b"kept") }
    );
}

#[test]
fn update_falls_back_to_the_service_of_the_handle() {
    let previous = record("elsewhere", Some("carol"), b"kept");
    let updated =
        updated_credential(&windows_alice(), &UpdateOptions::new().username("bob"), previous);
    assert_eq!(updated, record("bob\x1fsvc", Some("bob"), b"kept"));
}

#[test]
fn credential_manager_update_of_a_missing_credential_fails() {
    let mut vault = FakeVault::new();
    assert_eq!(
        on_vault(&mut vault, update(&windows_alice(), UpdateOptions::new().secret("s"))),
        Err(Error::Native(element_not_found()))
    );
    assert!(vault.is_empty());
    assert_eq!(
        resume::<i32>(
            State::Update { identifier: windows_alice(), options: UpdateOptions::new() },
            Ok(None)
        ),
        Step::Finished(Err(Error::NotFound))
    );
}
