#![allow(non_snake_case)]

use diagnosticism::ellipsis::Ellipsis;

#[test]
fn TEST_Ellipsis_Debug() {
    let ellipsis = Ellipsis::default();

    assert_eq!("...", ellipsis.to_debug_string());
}
