use psswrdmngr::cli::{repetition_exists, select_command, Arguments, Command, FieldKey, UnionType};
use psswrdmngr::exceptions::MultipleArgError;

#[test]
fn new_request_is_empty_and_defaults_to_get() {
    let a = Arguments::new();
    assert!(a.is_empty());
    assert!(a.file.is_none());
    assert!(a.name.is_none());
    assert!(a.username.is_none());
    assert!(a.password.is_none());
    assert_eq!(a.command, Command::Get);
}

#[test]
fn set_lowercases_name_on_assignment() {
    let mut a = Arguments::new();
    a.set(FieldKey::Name, UnionType::First(Some("GitHub".to_string())));
    assert_eq!(a.name, Some("github".to_string()));
}

#[test]
fn set_stores_other_fields_verbatim() {
    let mut a = Arguments::new();
    a.set(FieldKey::Username, UnionType::First(Some("Alice".to_string())));
    a.set(FieldKey::Password, UnionType::First(Some("S3cret!".to_string())));
    a.set(FieldKey::File, UnionType::First(Some("/Tmp/Vault.JSON".to_string())));
    a.set(FieldKey::Command, UnionType::Second(Command::Add));
    assert_eq!(a.username, Some("Alice".to_string()));
    assert_eq!(a.password, Some("S3cret!".to_string()));
    assert_eq!(a.file, Some("/Tmp/Vault.JSON".to_string()));
    assert_eq!(a.command, Command::Add);
    assert!(!a.is_empty());
}

#[test]
fn set_with_no_value_clears_the_field() {
    let mut a = Arguments::new();
    a.set(FieldKey::Name, UnionType::First(Some("github".to_string())));
    a.set(FieldKey::Name, UnionType::First(None));
    assert_eq!(a.name, None);
}

#[test]
fn missing_for_add_with_only_name_is_username_then_password() {
    let mut a = Arguments::new();
    a.set(FieldKey::Command, UnionType::Second(Command::Add));
    a.set(FieldKey::Name, UnionType::First(Some("github".to_string())));
    assert_eq!(a.missing(), vec![FieldKey::Username, FieldKey::Password]);
    assert!(a.is_incomplete());
}

#[test]
fn missing_for_get_without_name_is_name() {
    let a = Arguments::new();
    assert_eq!(a.missing(), vec![FieldKey::Name]);
    assert!(a.is_incomplete());
}

#[test]
fn missing_for_add_without_anything_keeps_field_order() {
    let mut a = Arguments::new();
    a.set(FieldKey::Command, UnionType::Second(Command::Add));
    assert_eq!(a.missing(), vec![FieldKey::Name, FieldKey::Username, FieldKey::Password]);
}

#[test]
fn complete_requests_have_nothing_missing() {
    let mut g = Arguments::new();
    g.set(FieldKey::Name, UnionType::First(Some("github".to_string())));
    assert_eq!(g.missing(), Vec::<FieldKey>::new());
    assert!(!g.is_incomplete());

    let mut r = Arguments::new();
    r.set(FieldKey::Command, UnionType::Second(Command::Remove));
    r.set(FieldKey::Name, UnionType::First(Some("github".to_string())));
    assert!(!r.is_incomplete());

    let mut a = Arguments::new();
    a.set(FieldKey::Command, UnionType::Second(Command::Add));
    a.set(FieldKey::Name, UnionType::First(Some("github".to_string())));
    a.set(FieldKey::Username, UnionType::First(Some("alice".to_string())));
    a.set(FieldKey::Password, UnionType::First(Some("pw".to_string())));
    assert!(!a.is_incomplete());
    assert_eq!(a.missing(), Vec::<FieldKey>::new());
}

#[test]
fn command_parse_accepts_short_and_long_forms() {
    assert_eq!(Command::parse("r"), Some(Command::Remove));
    assert_eq!(Command::parse("remove"), Some(Command::Remove));
    assert_eq!(Command::parse("g"), Some(Command::Get));
    assert_eq!(Command::parse("get"), Some(Command::Get));
    assert_eq!(Command::parse("a"), Some(Command::Add));
    assert_eq!(Command::parse("add"), Some(Command::Add));
}

#[test]
fn command_parse_rejects_unknown_input() {
    assert_eq!(Command::parse(""), None);
    assert_eq!(Command::parse("delete"), None);
    assert_eq!(Command::parse("ADD"), None);
}

#[test]
fn union_type_accessors_return_the_held_value() {
    let first: UnionType<Option<String>, Command> = UnionType::First(Some("x".to_string()));
    assert_eq!(first.first(), Some("x".to_string()));
    let second: UnionType<Option<String>, Command> = UnionType::Second(Command::Add);
    assert_eq!(second.second(), Command::Add);
}

#[test]
fn repetition_exists_prefers_add_then_remove_then_get() {
    assert_eq!(repetition_exists(false, false, false), (Command::Get, false));
    assert_eq!(repetition_exists(true, false, false), (Command::Get, false));
    assert_eq!(repetition_exists(false, true, false), (Command::Remove, false));
    assert_eq!(repetition_exists(false, false, true), (Command::Add, false));
    assert_eq!(repetition_exists(true, true, false), (Command::Remove, true));
    assert_eq!(repetition_exists(true, false, true), (Command::Add, true));
    assert_eq!(repetition_exists(false, true, true), (Command::Add, true));
    assert_eq!(repetition_exists(true, true, true), (Command::Add, true));
}

#[test]
fn selecting_two_operations_at_once_is_a_validation_error() {
    assert_eq!(select_command(false, false, false), Ok(Command::Get));
    assert_eq!(select_command(false, true, false), Ok(Command::Remove));
    let err = select_command(true, false, true).unwrap_err();
    assert_eq!(err, MultipleArgError());
    assert_eq!(err.message(), "too many arguments entered.");
}
