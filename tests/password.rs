#![allow(non_snake_case)]

use diagnosticism::password::Password;

const SPLATS_LITERAL : &str = "****************************************************************************************************";

#[test]
fn TEST_Password_DEFAULT_num_splats() {
    let password = Password::default();

    let expected = "********";
    let actual = password.to_debug_string();

    assert_eq!(expected, actual);
}

#[test]
fn TEST_Password_80_SPLATS() {
    let password = Password::new(80);

    let expected = &SPLATS_LITERAL[0..80];
    let actual = password.to_debug_string();

    assert_eq!(80, actual.len());

    assert_eq!(expected, actual);
}

#[test]
fn TEST_Password_100_SPLATS() {
    let password = Password::new(100);

    let expected = &SPLATS_LITERAL[0..100];
    let actual = password.to_debug_string();

    assert_eq!(100, actual.len());

    assert_eq!(expected, actual);
}

#[test]
fn TEST_Password_200_SPLATS() {
    let password = Password::new(200);

    let actual = password.to_debug_string();

    assert_eq!(200, actual.len());
    assert!(actual.chars().all(|c| c == '*'));
}

#[test]
fn password_with_no_splats_is_empty() {
    let password = Password::new(0);

    assert_eq!("", password.to_debug_string());
}
