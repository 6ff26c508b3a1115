//! A field for one value that is typed in as one text.

use crate::errors::{Error, ErrorView, FieldResult};
use crate::field::UserInput;
use crate::rules::{judged, Rule, Validations};
use crate::text::TextValue;
use vstd::prelude::*;

verus! {

/// What parsing the text `raw` as a value of type `O` and asking `rules` about
/// the value gives. Where the text does not read, the rules are not asked.
pub open spec fn scalar_outcome<O: TextValue, R: Rule<O>>(raw: Seq<char>, rules: Seq<R>) -> Result<
    O::V,
    ErrorView,
> {
    match O::read(raw) {
        Err(cause) => Err(ErrorView::Parse(cause)),
        Ok(value) => judged::<O, R>(rules, value),
    }
}

/// A field that holds the text of one value of type `O`.
pub struct Scalar<O: TextValue, R: Rule<O>> {
    input: String,
    validations: Validations<O, R>,
}

/// A field for a whole number.
pub type Integer<I, R> = Scalar<I, R>;

/// A field for a decimal number.
pub type Decimal<R> = Scalar<crate::decimal::Decimal, R>;

/// A field for free text.
pub type Text<R> = Scalar<String, R>;

impl<O: TextValue, R: Rule<O>> Scalar<O, R> {
    /// The raw text that the field holds.
    pub closed spec fn raw(&self) -> Seq<char> {
        self.input@
    }

    /// The field's rules, in registration order.
    pub closed spec fn rules(&self) -> Seq<R> {
        self.validations.rules()
    }

    /// What the field's text parses to.
    pub open spec fn reading(&self) -> Result<O::V, ErrorView> {
        scalar_outcome::<O, R>(self.raw(), self.rules())
    }

    pub fn get_input(&self) -> (r: &str)
        ensures
            r@ == self.raw(),
    {
        self.input.as_str()
    }

    /// A field that shows `data` and carries `validations`.
    pub fn new(data: &O, validations: Validations<O, R>) -> (r: Scalar<O, R>)
        ensures
            r.raw() == O::written(data@),
            r.rules() == validations.rules(),
    {
        Scalar { input: data.to_text(), validations }
    }
}

impl<O: TextValue + Default, R: Rule<O>> Default for Scalar<O, R> {
    /// A field without rules that shows the default value of `O`.
    fn default() -> (r: Scalar<O, R>)
        ensures
            r.rules() == Seq::<R>::empty(),
            exists|data: O| call_ensures(O::default, (), data) && r.raw() == O::written(data@),
    {
        let data = O::default();
        Scalar::new(&data, Validations::new())
    }
}

impl<O: TextValue, R: Rule<O>> UserInput for Scalar<O, R> {
    type Output = O;

    type Input = String;

    open spec fn outcome(&self) -> Result<O::V, ErrorView> {
        self.reading()
    }

    open spec fn updated(&self, input: String, next: Self) -> bool {
        next.raw() == input@ && next.rules() == self.rules()
    }

    open spec fn can_show(&self, data: O) -> bool {
        true
    }

    open spec fn shows(&self, data: O, next: Self) -> bool {
        next.raw() == O::written(data@) && next.rules() == self.rules()
    }

    fn update(&mut self, input: String) {
        self.input = input;
    }

    fn parse(&self) -> (r: FieldResult<O>) {
        let parsed = match O::from_text(self.input.as_str()) {
            Ok(value) => value,
            Err(cause) => {
                return Err(Error::Parse(cause));
            },
        };
        match self.validations.validate(&parsed) {
            Ok(_) => Ok(parsed),
            Err(errors) => Err(Error::Validation(errors)),
        }
    }

    fn set_value(&mut self, data: O) {
        self.input = data.to_text();
    }
}

} // verus!
