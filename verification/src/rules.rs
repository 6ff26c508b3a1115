//! Validation rules and the ordered sets of them that fields carry.

use crate::errors::{texts, ErrorView, ValidationErrors, ValidationResult};
use std::marker::PhantomData;
use vstd::prelude::*;

verus! {

/// What a rule's answer says: the message of a rejection, or `None`.
pub open spec fn verdict_of(answer: ValidationResult) -> Option<Seq<char>> {
    match answer {
        Ok(_) => None,
        Err(message) => Some(message@),
    }
}

/// A validation rule for values of type `T`: a pure function from a value to
/// either acceptance or a message.
///
/// A rule written in verified code says in `verdict` what it decides, and
/// `check` is proved to decide so. Of a rule written elsewhere only this is
/// taken for granted: that its answer depends on the value alone.
pub trait Rule<T: View> {
    /// The message with which this rule rejects `value`; `None` where it
    /// accepts `value`.
    open spec fn verdict(&self, value: T::V) -> Option<Seq<char>> {
        arbitrary::<spec_fn(&Self, T::V) -> Option<Seq<char>>>()(self, value)
    }

    /// Applies the rule to `value`.
    fn check(&self, value: &T) -> (answer: ValidationResult)
        ensures
            verdict_of(answer) == self.verdict(value@),
    ;
}

/// The messages of the rules of `rules` that reject `value`, in the order of
/// `rules`.
pub open spec fn rejections<T: View, R: Rule<T>>(rules: Seq<R>, value: T::V) -> Seq<Seq<char>>
    decreases rules.len(),
{
    if rules.len() == 0 {
        Seq::empty()
    } else {
        let earlier = rejections(rules.drop_last(), value);
        match rules.last().verdict(value) {
            Some(message) => earlier.push(message),
            None => earlier,
        }
    }
}

/// The positions in `rules` of the rules that reject `value`, in rising order.
pub open spec fn failing<T: View, R: Rule<T>>(rules: Seq<R>, value: T::V) -> Seq<int>
    decreases rules.len(),
{
    if rules.len() == 0 {
        Seq::empty()
    } else {
        let earlier = failing(rules.drop_last(), value);
        if rules.last().verdict(value) is Some {
            earlier.push(rules.len() - 1)
        } else {
            earlier
        }
    }
}

/// Every rule is asked, whatever the rules before it answered: there is one
/// message for each rule that rejects the value and none besides, and the
/// messages stand in the order in which their rules were registered.
pub proof fn lemma_fan_out<T: View, R: Rule<T>>(rules: Seq<R>, value: T::V)
    ensures
        rejections(rules, value).len() == failing(rules, value).len(),
        forall|j: int|
            0 <= j < failing(rules, value).len() ==> {
                &&& 0 <= #[trigger] failing(rules, value)[j] < rules.len()
                &&& rules[failing(rules, value)[j]].verdict(value) == Some(
                    rejections(rules, value)[j],
                )
            },
        forall|j: int, k: int|
            0 <= j < k < failing(rules, value).len() ==> failing(rules, value)[j] < failing(
                rules,
                value,
            )[k],
        forall|i: int|
            0 <= i < rules.len() && (#[trigger] rules[i]).verdict(value) is Some
                ==> failing(rules, value).contains(i),
    decreases rules.len(),
{
    if rules.len() > 0 {
        let front = rules.drop_last();
        lemma_fan_out(front, value);
        let positions = failing(rules, value);
        let earlier = failing(front, value);
        assert forall|j: int| 0 <= j < positions.len() implies {
            &&& 0 <= #[trigger] positions[j] < rules.len()
            &&& rules[positions[j]].verdict(value) == Some(rejections(rules, value)[j])
        } by {
            if j < earlier.len() {
                assert(positions[j] == earlier[j]);
                assert(front[earlier[j]] == rules[earlier[j]]);
            }
        }
        assert forall|j: int, k: int| 0 <= j < k < positions.len() implies positions[j]
            < positions[k] by {
            assert(positions[j] == earlier[j]);
            if k < earlier.len() {
                assert(positions[k] == earlier[k]);
            }
        }
        assert forall|i: int|
            0 <= i < rules.len() && (#[trigger] rules[i]).verdict(value) is Some implies positions.contains(
            i,
        ) by {
            if i < rules.len() - 1 {
                assert(front[i] == rules[i]);
                assert(earlier.contains(i));
                let j = choose|j: int| 0 <= j < earlier.len() && earlier[j] == i;
                assert(positions[j] == i);
            } else {
                assert(positions[positions.len() - 1] == i);
            }
        }
    }
}

/// What a value that was read becomes once `rules` were asked about it: the
/// value where none rejects it, else all the rejections.
pub open spec fn judged<T: View, R: Rule<T>>(rules: Seq<R>, value: T::V) -> Result<
    T::V,
    ErrorView,
> {
    if rejections(rules, value).len() == 0 {
        Ok(value)
    } else {
        Err(ErrorView::Validation(rejections(rules, value)))
    }
}

/// An ordered set of rules for values of type `T`.
pub struct Validations<T: View, R: Rule<T>> {
    rules: Vec<R>,
    value: PhantomData<T>,
}

impl<T: View, R: Rule<T>> Validations<T, R> {
    /// The rules, in the order in which they were registered.
    pub closed spec fn rules(&self) -> Seq<R> {
        self.rules@
    }

    /// The messages of the rules that reject `value`, in registration order.
    pub open spec fn messages(&self, value: T::V) -> Seq<Seq<char>> {
        rejections(self.rules(), value)
    }

    /// The empty set, which accepts every value.
    pub fn new() -> (v: Validations<T, R>)
        ensures
            v.rules() == Seq::<R>::empty(),
    {
        Validations { rules: Vec::new(), value: PhantomData }
    }

    /// The set that holds `funcs`, in their order.
    pub fn from_vec(funcs: Vec<R>) -> (v: Validations<T, R>)
        ensures
            v.rules() == funcs@,
    {
        Validations { rules: funcs, value: PhantomData }
    }

    /// Asks every rule about `input`. `Ok` if and only if none rejects it;
    /// otherwise the messages of all that do, in registration order.
    pub fn validate(&self, input: &T) -> (r: Result<(), ValidationErrors>)
        ensures
            match r {
                Ok(_) => self.messages(input@).len() == 0,
                Err(errors) => errors@ == self.messages(input@) && errors@.len() > 0,
            },
    {
        let mut errors: Vec<String> = Vec::new();
        let mut i: usize = 0;
        while i < self.rules.len()
            invariant
                i <= self.rules.len(),
                texts(errors@) == rejections(self.rules@.take(i as int), input@),
            decreases self.rules.len() - i,
        {
            let answer = self.rules[i].check(input);
            proof {
                assert(self.rules@.take(i + 1).drop_last() == self.rules@.take(i as int));
                assert(self.rules@.take(i + 1).last() == self.rules@[i as int]);
            }
            let ghost before = errors@;
            if let Err(message) = answer {
                errors.push(message);
                proof {
                    assert(texts(errors@) == texts(before).push(message@));
                }
            }
            i += 1;
        }
        proof {
            assert(self.rules@.take(self.rules.len() as int) == self.rules@);
        }
        if errors.is_empty() {
            Ok(())
        } else {
            Err(ValidationErrors::from(errors))
        }
    }
}

/// Rejects zero.
pub struct GreaterThanZero;

impl Rule<u32> for GreaterThanZero {
    open spec fn verdict(&self, value: u32) -> Option<Seq<char>> {
        if value > 0 {
            None
        } else {
            Some("Input must be greater than zero"@)
        }
    }

    fn check(&self, value: &u32) -> (answer: ValidationResult) {
        greater_than_zero(value)
    }
}

/// Accepts `input` if and only if it is above zero.
pub fn greater_than_zero(input: &u32) -> (answer: ValidationResult)
    ensures
        verdict_of(answer) == GreaterThanZero.verdict(*input),
{
    if *input > 0 {
        Ok(())
    } else {
        Err("Input must be greater than zero".to_string())
    }
}

} // verus!
