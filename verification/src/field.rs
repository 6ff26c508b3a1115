//! What every field has in common: raw state that the user edits, and a parse
//! that turns it into a typed value or says why it cannot.

use crate::errors::{ErrorView, FieldResult};
use vstd::prelude::*;

verus! {

/// The result of a parse attempt, with the value and the error as plain
/// values.
pub open spec fn outcome_view<T: View>(r: FieldResult<T>) -> Result<T::V, ErrorView> {
    match r {
        Ok(value) => Ok(value@),
        Err(error) => Err(error@),
    }
}

/// A field: it holds what the user typed, and on demand turns it into a value
/// of type `Output`.
///
/// `parse` reads the stored state and never changes it. What it returns is
/// `outcome`, a function of that state alone: as long as neither `update` nor
/// `set_value` is called, every call of `parse` gives the same result.
///
/// A field written in verified code says in the four spec functions what it
/// does, and its methods are proved to do so. Of a field written elsewhere
/// only this is taken for granted: that what it parses to depends on its
/// state alone, and that it can be set to every value.
pub trait UserInput: Sized {
    type Output: View;

    type Input;

    /// What `parse` makes of the state that this field holds.
    open spec fn outcome(&self) -> Result<<Self::Output as View>::V, ErrorView> {
        arbitrary::<spec_fn(&Self) -> Result<<Self::Output as View>::V, ErrorView>>()(self)
    }

    /// Whether `next` is this field after `update(input)`.
    open spec fn updated(&self, input: Self::Input, next: Self) -> bool {
        true
    }

    /// Whether this field can show `data`: whether `data` has a text in the
    /// field's form.
    open spec fn can_show(&self, data: Self::Output) -> bool {
        true
    }

    /// Whether `next` is this field after `set_value(data)`.
    open spec fn shows(&self, data: Self::Output, next: Self) -> bool {
        true
    }

    /// Replaces the raw state that `input` addresses.
    fn update(&mut self, input: Self::Input)
        ensures
            old(self).updated(input, *final(self)),
    ;

    /// Reads the raw state, then asks the field's rules about the value.
    fn parse(&self) -> (r: FieldResult<Self::Output>)
        ensures
            outcome_view(r) == self.outcome(),
    ;

    /// Sets the raw state to the canonical text of `data`.
    fn set_value(&mut self, data: Self::Output)
        requires
            old(self).can_show(data),
        ensures
            old(self).shows(data, *final(self)),
    ;
}

/// A field that can be set from a value of type `O`.
pub trait SetFromOutput<O: View>: UserInput<Output = O> {
    fn set_value(&mut self, data: O);
}

} // verus!
