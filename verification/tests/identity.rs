use robius_keychain::sys::apple;
use robius_keychain::{
    Cause, Class, Error, Failure, Identifier, KeychainItemBuilder, OwnedIdentifier, UpdateOptions,
};

fn refused() -> Failure<&'static str> {
    Failure { not_found: false, message: "access denied".to_owned(), cause: "EACCES" }
}

#[test]
fn class_defaults_to_generic() {
    assert_eq!(Class::default(), Class::Generic);
    assert_ne!(Class::Generic, Class::Internet);
}

#[test]
fn builder_starts_generic_and_without_username() {
    let item = KeychainItemBuilder::new("svc", "secret1");
    assert_eq!(
        item.identifier(),
        Identifier { service: "svc", username: None, class: Class::Generic }
    );
}

#[test]
fn builder_takes_class_and_username() {
    let item = KeychainItemBuilder::new("svc", "secret1").username("alice").class(Class::Internet);
    assert_eq!(
        item.identifier(),
        Identifier { service: "svc", username: Some("alice"), class: Class::Internet }
    );
    let other = KeychainItemBuilder::new("svc", "secret1").class(Class::Internet).username("alice");
    assert_eq!(item, other);
}

#[test]
fn builder_keeps_the_last_value_of_a_field() {
    let item = KeychainItemBuilder::new("svc", "secret1").username("alice").username("bob");
    assert_eq!(item.identifier().username, Some("bob"));
}

#[test]
fn builder_hands_its_secret_to_the_store() {
    let item = KeychainItemBuilder::new("svc", "hunter2");
    match apple::store::<&'static str>(item) {
        apple::Step::Call(apple::Request::Add { data, .. }, _) => {
            assert_eq!(data, b"hunter2".to_vec())
        }
        other => panic!("unexpected step {:?}", other),
    }
}

#[test]
fn store_hands_out_the_handle_of_what_was_stored() {
    let item = KeychainItemBuilder::new("svc", "secret1").username("alice");
    let handle = item.store::<&'static str>(Ok(()));
    assert_eq!(
        handle,
        Ok(Identifier { service: "svc", username: Some("alice"), class: Class::Generic })
    );
}

#[test]
fn store_hands_on_the_error_of_the_backend() {
    let item = KeychainItemBuilder::new("svc", "secret1");
    assert_eq!(item.store(Err(Error::Native(refused()))), Err(Error::Native(refused())));
    assert_eq!(item.store::<&'static str>(Err(Error::Directories)), Err(Error::Directories));
}

#[test]
fn empty_options_change_nothing() {
    let id = Identifier { service: "svc", username: Some("alice"), class: Class::Internet };
    assert_eq!(id.updated(&UpdateOptions::new()), id);
    assert_eq!(UpdateOptions::new(), UpdateOptions::default());
}

#[test]
fn options_override_and_inherit() {
    let id = Identifier { service: "svc", username: Some("alice"), class: Class::Generic };
    assert_eq!(
        id.updated(&UpdateOptions::new().username("bob")),
        Identifier { service: "svc", username: Some("bob"), class: Class::Generic }
    );
    assert_eq!(
        id.updated(&UpdateOptions::new().service("other").class(Class::Internet)),
        Identifier { service: "other", username: Some("alice"), class: Class::Internet }
    );
    assert_eq!(id.updated(&UpdateOptions::new().secret("secret2")), id);
}

#[test]
fn options_cannot_take_a_username_away() {
    let id = Identifier { service: "svc", username: None, class: Class::Generic };
    assert_eq!(id.updated(&UpdateOptions::new().service("other")).username, None);
    assert_eq!(id.updated(&UpdateOptions::new().username("bob")).username, Some("bob"));
}

#[test]
fn update_hands_out_the_new_handle() {
    let id = Identifier { service: "svc", username: Some("alice"), class: Class::Generic };
    let handle = id.update::<&'static str>(UpdateOptions::new().username("bob"), Ok(()));
    assert_eq!(
        handle,
        Ok(Identifier { service: "svc", username: Some("bob"), class: Class::Generic })
    );
}

#[test]
fn update_hands_on_the_error_of_the_backend() {
    let id = Identifier { service: "svc", username: Some("alice"), class: Class::Generic };
    let handle = id.update::<&'static str>(UpdateOptions::new().username("bob"), Err(Error::NotFound));
    assert_eq!(handle, Err(Error::NotFound));
}

#[test]
fn owned_identifier_round_trips() {
    let id = Identifier { service: "svc", username: Some("alice"), class: Class::Internet };
    let owned = id.to_owned();
    assert_eq!(
        owned,
        OwnedIdentifier {
            service: "svc".to_owned(),
            username: Some("alice".to_owned()),
            class: Class::Internet
        }
    );
    assert_eq!(owned.as_ref(), id);
    let bare = Identifier { service: "svc", username: None, class: Class::Generic };
    assert_eq!(bare.to_owned().as_ref(), bare);
}

#[test]
fn owned_identifier_updates_like_a_borrowed_one() {
    let owned = OwnedIdentifier {
        service: "svc".to_owned(),
        username: Some("alice".to_owned()),
        class: Class::Generic,
    };
    let handle = owned.update::<&'static str>(UpdateOptions::new().service("other"), Ok(()));
    assert_eq!(
        handle,
        Ok(Identifier { service: "other", username: Some("alice"), class: Class::Generic })
    );
    assert_eq!(
        owned.update::<&'static str>(UpdateOptions::new(), Err(Error::Directories)),
        Err(Error::Directories)
    );
}

#[test]
fn identifiers_are_equal_when_all_fields_are() {
    let id = Identifier { service: "svc", username: Some("alice"), class: Class::Generic };
    assert_eq!(id, Identifier { service: "svc", username: Some("alice"), class: Class::Generic });
    assert_ne!(id, Identifier { service: "svc", username: Some("alice"), class: Class::Internet });
    assert_ne!(id, Identifier { service: "svc", username: None, class: Class::Generic });
    assert_ne!(id, Identifier { service: "other", username: Some("alice"), class: Class::Generic });
}

#[test]
fn native_error_shows_the_message_of_the_store() {
    let error = Error::Native(refused());
    assert_eq!(error.message(), "access denied");
    assert_eq!(error.source(), Some(Cause::Native(&"EACCES")));
}

#[test]
fn missing_directory_has_a_message_and_no_cause() {
    let error: Error<&'static str> = Error::Directories;
    assert_eq!(error.message(), "no data directory could be determined");
    assert_eq!(error.source(), None);
}

#[test]
fn missing_item_has_a_message_and_no_cause() {
    let error: Error<&'static str> = Error::NotFound;
    assert_eq!(error.message(), "no matching keychain item");
    assert_eq!(error.source(), None);
}

#[test]
fn undecodable_bytes_show_the_message_of_the_standard_library() {
    let cause = String::from_utf8(vec![b'a', 0xff]).unwrap_err();
    let error: Error<&'static str> = Error::Utf8(cause.clone());
    assert_eq!(error.message(), cause.to_string());
    assert_eq!(error.message(), "invalid utf-8 sequence of 1 bytes from index 1");
    assert_eq!(error.source(), Some(Cause::Utf8(&cause)));
}
