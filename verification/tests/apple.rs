use robius_keychain::sys::apple::{
    account, convert_class, delete, load, resume, search_options, store, update, ItemClass,
    Request, SearchOptions, State, Step,
};
use robius_keychain::{Class, Error, Failure, Identifier, KeychainItemBuilder, UpdateOptions};
use std::collections::BTreeMap;

type FakeKeychain = BTreeMap<(String, bool, String), Vec<u8>>;

fn item_not_found() -> Failure<i32> {
    Failure {
        not_found: true,
        message: "The specified item could not be found in the keychain.".to_owned(),
        cause: -25300,
    }
}

fn duplicate_item() -> Failure<i32> {
    Failure {
        not_found: false,
        message: "The specified item already exists in the keychain.".to_owned(),
        cause: -25299,
    }
}

fn key(options: &SearchOptions) -> (String, bool, String) {
    (
        options.service.to_owned(),
        options.class == ItemClass::InternetPassword,
        options.account.to_owned(),
    )
}

fn fake_keychain(
    items: &mut FakeKeychain,
    request: Request,
) -> Result<Option<Vec<u8>>, Failure<i32>> {
    match request {
        Request::Add { class, service, account, data } => {
            let new = key(&SearchOptions { service, class, account });
            if items.contains_key(&new) {
                return Err(duplicate_item());
            }
            items.insert(new, data);
            Ok(None)
        }
        Request::Search { options } => match items.get(&key(&options)) {
            Some(data) => Ok(Some(data.clone())),
            None => Err(item_not_found()),
        },
        Request::Update { options, new_service, new_data, new_class, new_account } => {
            let old = key(&options);
            if !items.contains_key(&old) {
                return Err(item_not_found());
            }
            let new = key(&SearchOptions {
                service: new_service.unwrap_or(options.service),
                class: new_class.unwrap_or(options.class),
                account: new_account.unwrap_or(options.account),
            });
            if new != old && items.contains_key(&new) {
                return Err(duplicate_item());
            }
            let data = items.remove(&old).unwrap();
            items.insert(new, new_data.unwrap_or(data));
            Ok(None)
        }
        Request::Delete { options } => match items.remove(&key(&options)) {
            Some(_) => Ok(None),
            None => Err(item_not_found()),
        },
    }
}

fn on_keychain<'a>(
    items: &mut FakeKeychain,
    step: Step<'a, i32>,
) -> Result<Option<String>, Error<i32>> {
    match step {
        Step::Call(request, state) => match resume(state, fake_keychain(items, request)) {
            Step::Finished(result) => result,
            other => panic!("a second call: {:?}", other),
        },
        Step::Finished(result) => result,
    }
}

fn apple_alice() -> Identifier<'static> {
    Identifier { service: "svc", username: Some("alice"), class: Class::Generic }
}

fn apple_bob() -> Identifier<'static> {
    Identifier { service: "svc", username: Some("bob"), class: Class::Generic }
}

#[test]
fn classes_map_one_to_one() {
    assert_eq!(convert_class(Class::Generic), ItemClass::GenericPassword);
    assert_eq!(convert_class(Class::Internet), ItemClass::InternetPassword);
}

#[test]
fn search_is_narrowed_by_all_three_fields() {
    assert_eq!(
        search_options(&apple_alice()),
        SearchOptions { service: "svc", class: ItemClass::GenericPassword, account: "alice" }
    );
    let bare = Identifier { service: "svc", username: None, class: Class::Internet };
    assert_eq!(
        search_options(&bare),
        SearchOptions { service: "svc", class: ItemClass::InternetPassword, account: "" }
    );
}

#[test]
fn item_without_username_has_the_empty_account() {
    assert_eq!(account(Some("alice")), "alice");
    assert_eq!(account(Some("")), "");
    assert_eq!(account(None), "");
    let bare = Identifier { service: "svc", username: None, class: Class::Generic };
    let empty = Identifier { service: "svc", username: Some(""), class: Class::Generic };
    assert_eq!(search_options(&bare), search_options(&empty));
    assert_ne!(search_options(&bare), search_options(&apple_alice()));
}

#[test]
fn keychain_keeps_items_with_and_without_username_apart() {
    let mut items = FakeKeychain::new();
    let bare = KeychainItemBuilder::new("svc", "secret0");
    let alice = KeychainItemBuilder::new("svc", "secret1").username("alice");
    assert_eq!(on_keychain(&mut items, store(alice)), Ok(None));
    assert_eq!(on_keychain(&mut items, load(&bare.identifier())), Ok(None));
    assert_eq!(on_keychain(&mut items, store(bare)), Ok(None));
    assert_eq!(on_keychain(&mut items, load(&bare.identifier())), Ok(Some("secret0".to_owned())));
    assert_eq!(on_keychain(&mut items, delete(&bare.identifier())), Ok(None));
    assert_eq!(on_keychain(&mut items, load(&apple_alice())), Ok(Some("secret1".to_owned())));
}

#[test]
fn keychain_operations_are_single_calls() {
    let item = KeychainItemBuilder::new("svc", "secret1").username("alice");
    assert_eq!(
        store::<i32>(item),
        Step::Call(
            Request::Add {
                class: ItemClass::GenericPassword,
                service: "svc",
                account: "alice",
                data: b"secret1".to_vec(),
            },
            State::Last
        )
    );
    assert_eq!(
        load::<i32>(&apple_alice()),
        Step::Call(Request::Search { options: search_options(&apple_alice()) }, State::Load)
    );
    assert_eq!(
        delete::<i32>(&apple_alice()),
        Step::Call(Request::Delete { options: search_options(&apple_alice()) }, State::Last)
    );
    assert_eq!(
        update::<i32>(
            &apple_alice(),
            UpdateOptions::new().username("bob").secret("s2").class(Class::Internet)
        ),
        Step::Call(
            Request::Update {
                options: search_options(&apple_alice()),
                new_service: None,
                new_data: Some(b"s2".to_vec()),
                new_class: Some(ItemClass::InternetPassword),
                new_account: Some("bob"),
            },
            State::Last
        )
    );
    assert_eq!(
        update::<i32>(&apple_alice(), UpdateOptions::new().service("other")),
        Step::Call(
            Request::Update {
                options: search_options(&apple_alice()),
                new_service: Some("other"),
                new_data: None,
                new_class: None,
                new_account: None,
            },
            State::Last
        )
    );
}

#[test]
fn keychain_load_returns_what_store_added() {
    let mut items = FakeKeychain::new();
    for (service, username, class, secret) in [
        ("svc", Some("alice"), Class::Generic, "secret1"),
        ("svc", Some("alice"), Class::Internet, "secret2"),
        ("svc", None, Class::Generic, "secret3"),
        ("a\x1fb", Some("c\x1fd"), Class::Generic, "\u{1f510}"),
    ] {
        let mut item = KeychainItemBuilder::new(service, secret).class(class);
        if let Some(username) = username {
            item = item.username(username);
        }
        assert_eq!(on_keychain(&mut items, store(item)), Ok(None));
        let id = item.store::<i32>(Ok(())).unwrap();
        assert_eq!(on_keychain(&mut items, load(&id)), Ok(Some(secret.to_owned())));
    }
    assert_eq!(items.len(), 4);
}

#[test]
fn keychain_refuses_a_second_item_of_one_key() {
    let mut items = FakeKeychain::new();
    let item = KeychainItemBuilder::new("svc", "secret1").username("alice");
    assert_eq!(on_keychain(&mut items, store(item)), Ok(None));
    let again = KeychainItemBuilder::new("svc", "secret2").username("alice");
    assert_eq!(on_keychain(&mut items, store(again)), Err(Error::Native(duplicate_item())));
    assert_eq!(on_keychain(&mut items, load(&apple_alice())), Ok(Some("secret1".to_owned())));
}

#[test]
fn keychain_load_of_a_missing_item_is_none() {
    let mut items = FakeKeychain::new();
    assert_eq!(on_keychain(&mut items, load(&apple_alice())), Ok(None));
    assert_eq!(resume::<i32>(State::Load, Ok(None)), Step::Finished(Ok(None)));
    assert_eq!(
        resume::<i32>(State::Load, Err(duplicate_item())),
        Step::Finished(Err(Error::Native(duplicate_item())))
    );
}

#[test]
fn keychain_load_reports_data_that_is_not_utf8() {
    match resume::<i32>(State::Load, Ok(Some(vec![0xff, 0xfe]))) {
        Step::Finished(Err(Error::Utf8(cause))) => assert_eq!(cause.into_bytes(), vec![0xff, 0xfe]),
        other => panic!("unexpected step {:?}", other),
    }
}

#[test]
fn keychain_delete_then_load_is_none() {
    let mut items = FakeKeychain::new();
    let item = KeychainItemBuilder::new("svc", "secret1").username("alice");
    assert_eq!(on_keychain(&mut items, store(item)), Ok(None));
    assert_eq!(on_keychain(&mut items, delete(&apple_alice())), Ok(None));
    assert_eq!(on_keychain(&mut items, load(&apple_alice())), Ok(None));
    assert_eq!(
        on_keychain(&mut items, delete(&apple_alice())),
        Err(Error::Native(item_not_found()))
    );
}

#[test]
fn keychain_empty_update_changes_nothing() {
    let mut items = FakeKeychain::new();
    let item = KeychainItemBuilder::new("svc", "secret1").username("alice");
    assert_eq!(on_keychain(&mut items, store(item)), Ok(None));
    let before = items.clone();
    assert_eq!(on_keychain(&mut items, update(&apple_alice(), UpdateOptions::new())), Ok(None));
    assert_eq!(items, before);
    assert_eq!(on_keychain(&mut items, load(&apple_alice())), Ok(Some("secret1".to_owned())));
}

#[test]
fn keychain_update_of_the_secret_alone_keeps_the_handle() {
    let mut items = FakeKeychain::new();
    let item = KeychainItemBuilder::new("svc", "secret1").username("alice");
    assert_eq!(on_keychain(&mut items, store(item)), Ok(None));
    assert_eq!(
        on_keychain(&mut items, update(&apple_alice(), UpdateOptions::new().secret("secret2"))),
        Ok(None)
    );
    assert_eq!(on_keychain(&mut items, load(&apple_alice())), Ok(Some("secret2".to_owned())));
}

#[test]
fn keychain_update_of_the_username_moves_the_item() {
    let mut items = FakeKeychain::new();
    let item = KeychainItemBuilder::new("svc", "secret1").username("alice");
    assert_eq!(on_keychain(&mut items, store(item)), Ok(None));
    let id = item.store::<i32>(Ok(())).unwrap();
    assert_eq!(on_keychain(&mut items, load(&id)), Ok(Some("secret1".to_owned())));

    let options = UpdateOptions::new().username("bob");
    let outcome = on_keychain(&mut items, update(&id, options.clone()));
    assert_eq!(id.update(options, outcome.map(|_| ())), Ok(apple_bob()));

    assert_eq!(on_keychain(&mut items, load(&apple_bob())), Ok(Some("secret1".to_owned())));
    assert_eq!(on_keychain(&mut items, load(&apple_alice())), Ok(None));
}

#[test]
fn keychain_update_of_the_class_moves_the_item() {
    let mut items = FakeKeychain::new();
    let item = KeychainItemBuilder::new("svc", "secret1").username("alice");
    assert_eq!(on_keychain(&mut items, store(item)), Ok(None));
    let options = UpdateOptions::new().class(Class::Internet);
    assert_eq!(on_keychain(&mut items, update(&apple_alice(), options.clone())), Ok(None));
    let moved = apple_alice().updated(&options);
    assert_eq!(on_keychain(&mut items, load(&moved)), Ok(Some("secret1".to_owned())));
    assert_eq!(on_keychain(&mut items, load(&apple_alice())), Ok(None));
}

#[test]
fn keychain_update_fails_on_a_missing_item_and_on_a_taken_key() {
    let mut items = FakeKeychain::new();
    assert_eq!(
        on_keychain(&mut items, update(&apple_alice(), UpdateOptions::new().secret("s"))),
        Err(Error::Native(item_not_found()))
    );
    let alice = KeychainItemBuilder::new("svc", "secret1").username("alice");
    let bob = KeychainItemBuilder::new("svc", "secret2").username("bob");
    assert_eq!(on_keychain(&mut items, store(alice)), Ok(None));
    assert_eq!(on_keychain(&mut items, store(bob)), Ok(None));
    assert_eq!(
        on_keychain(&mut items, update(&apple_alice(), UpdateOptions::new().username("bob"))),
        Err(Error::Native(duplicate_item()))
    );
    assert_eq!(on_keychain(&mut items, load(&apple_alice())), Ok(Some("secret1".to_owned())));
    assert_eq!(on_keychain(&mut items, load(&apple_bob())), Ok(Some("secret2".to_owned())));
}
