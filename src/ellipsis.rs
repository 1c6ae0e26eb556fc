//! `Ellipsis`: a placeholder whose debug form is `...`, for fields whose
//! own debug forms are not to be shown.

use vstd::prelude::*;

use crate::text::push_char;

verus! {

/// Shows as `...` in place of a field's own debug form.
pub struct Ellipsis {}

impl Ellipsis {
    /// The debug form: three dots.
    pub fn to_debug_string(&self) -> (r: String)
        ensures
            r@ == seq!['.', '.', '.'],
    {
        let mut s = String::new();
        push_char(&mut s, '.');
        push_char(&mut s, '.');
        push_char(&mut s, '.');
        s
    }
}

impl Default for Ellipsis {
    fn default() -> (r: Self) {
        Ellipsis {}
    }
}

} // verus!
