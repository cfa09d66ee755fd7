//! The order of suggestions: by their text alone.
use vstd::prelude::*;
use crate::suggest::SuggestItem;
use crate::text::{lemma_text_order, text_lt};
use std::cmp::Ordering;

verus! {

/// The order of two suggestions by their text alone.
pub open spec fn item_order(a: SuggestItem, b: SuggestItem) -> Ordering {
    if a@.0 == b@.0 {
        Ordering::Equal
    } else if text_lt(a@.0, b@.0) {
        Ordering::Less
    } else {
        Ordering::Greater
    }
}

impl SuggestItem {
    /// The order of two suggestions by their text alone.
    pub fn order(&self, other: &SuggestItem) -> (r: Ordering)
        ensures
            r == item_order(*self, *other),
    {
        let c = self.compare(other);
        proof {
            lemma_text_order(self@.0, other@.0, self@.0);
        }
        if c == -1 {
            Ordering::Less
        } else if c == 0 {
            Ordering::Equal
        } else {
            Ordering::Greater
        }
    }
}

impl PartialOrd for SuggestItem {
    fn partial_cmp(&self, other: &SuggestItem) -> (r: Option<Ordering>) {
        Some(self.order(other))
    }
}

impl vstd::std_specs::cmp::PartialOrdSpecImpl for SuggestItem {
    open spec fn obeys_partial_cmp_spec() -> bool {
        true
    }

    open spec fn partial_cmp_spec(&self, other: &SuggestItem) -> Option<Ordering> {
        Some(item_order(*self, *other))
    }
}

} // verus!
