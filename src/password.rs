//! `Password`: a stand-in that shows as a row of asterisks, so that a
//! secret never appears in debug output.

use vstd::prelude::*;

use crate::text::push_char;

verus! {

/// Asterisks shown when no count was given.
pub const NUM_SPLATS_DEFAULT: usize = 8;

/// Shows as a row of asterisks in place of the value it stands for.
pub struct Password {
    num_splats: Option<usize>,
}

impl Password {
    /// Number of asterisks this password shows as.
    pub closed spec fn splat_count(&self) -> nat {
        match self.num_splats {
            Some(n) => n as nat,
            None => NUM_SPLATS_DEFAULT as nat,
        }
    }

    /// A password that shows as `num_splats` asterisks.
    pub fn new(num_splats: usize) -> (r: Self)
        ensures
            r.splat_count() == num_splats,
    {
        let num_splats = Some(num_splats);
        Self { num_splats }
    }

    /// The debug form: a row of asterisks.
    pub fn to_debug_string(&self) -> (r: String)
        ensures
            r@ == Seq::new(self.splat_count(), |i: int| '*'),
    {
        let num_splats = match self.num_splats {
            Some(n) => n,
            None => NUM_SPLATS_DEFAULT,
        };
        let mut splats = String::new();
        let mut i: usize = 0;
        while i < num_splats
            invariant
                i <= num_splats,
                num_splats == self.splat_count(),
                splats@ == Seq::new(i as nat, |j: int| '*'),
            decreases num_splats - i,
        {
            push_char(&mut splats, '*');
            i += 1;
            assert(splats@ =~= Seq::new(i as nat, |j: int| '*'));
        }
        splats
    }
}

impl Default for Password {
    /// A password that shows as the default number of asterisks.
    fn default() -> (r: Self)
        ensures
            r.splat_count() == NUM_SPLATS_DEFAULT,
    {
        Password { num_splats: None }
    }
}

} // verus!
