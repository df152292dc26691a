//! Wording helpers for the user interface.
use vstd::prelude::*;
use crate::text::{decimal, owned, push_decimal};
use vstd::string::StringExecFns;

verus! {

pub struct StringUtils {}

impl StringUtils {
    /// The singular for a quantity of one, the plural otherwise.
    pub fn maybe_pluralize(forms: (&str, &str), qty: usize) -> (r: String)
        ensures
            r@ == if qty == 1 {
                forms.0@
            } else {
                forms.1@
            },
    {
        let (singular, plural) = forms;
        if qty == 1 {
            owned(singular)
        } else {
            owned(plural)
        }
    }

    /// The count, a space, and the word in the fitting number:
    /// `1 file`, `3 files`.
    pub fn maybe_pluralize_count(count: usize, forms: (&str, &str)) -> (r: String)
        ensures
            r@ == decimal(count as nat) + " "@ + if count == 1 {
                forms.0@
            } else {
                forms.1@
            },
    {
        let mut s = String::new();
        push_decimal(&mut s, count as u64);
        s.append(" ");
        let word = Self::maybe_pluralize(forms, count);
        s.append(word.as_str());
        s
    }
}

} // verus!
