//! Editor options; an option that is not set falls back to a base value.

use vstd::prelude::*;

verus! {

#[derive(Clone, Copy, Debug, PartialEq, Eq, Structural)]
pub struct Options {
    pub relative_numbers: Option<bool>,
    pub natural_scroll: Option<bool>,
    pub tab_size: Option<usize>,
}

impl Options {
    /// What `merge` returns: each option of `self` that is set, else that
    /// of `base`.
    pub open spec fn merged(self, base: Options) -> Options {
        Options {
            relative_numbers: if self.relative_numbers is Some {
                self.relative_numbers
            } else {
                base.relative_numbers
            },
            natural_scroll: if self.natural_scroll is Some {
                self.natural_scroll
            } else {
                base.natural_scroll
            },
            tab_size: if self.tab_size is Some {
                self.tab_size
            } else {
                base.tab_size
            },
        }
    }

    /// These options, completed from `base` where they are not set.
    pub fn merge(&self, base: &Options) -> (out: Options)
        ensures
            out == self.merged(*base),
    {
        Options {
            relative_numbers: match self.relative_numbers {
                Some(v) => Some(v),
                None => base.relative_numbers,
            },
            natural_scroll: match self.natural_scroll {
                Some(v) => Some(v),
                None => base.natural_scroll,
            },
            tab_size: match self.tab_size {
                Some(v) => Some(v),
                None => base.tab_size,
            },
        }
    }
}

} // verus!
