//! Typed form fields: each field keeps the text that the user typed, and on
//! demand parses it into a value and asks its rules about that value.

pub mod calendar;
pub mod decimal;
pub mod errors;
pub mod field;
pub mod form;
pub mod inputs;
pub mod laws;
pub mod order;
pub mod pairs;
pub mod rules;
pub mod text;

pub use errors::{Error, FieldResult, ParseFailure, ValidationErrors, ValidationResult};
pub use field::{SetFromOutput, UserInput};
pub use form::{Form, FormError, FormResult};
pub use rules::{Rule, Validations};
