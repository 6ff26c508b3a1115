//! The error model: a field's parse attempt either cannot read the raw text at
//! all, or reads it and then has the value rejected by one or more rules.

use vstd::prelude::*;

verus! {

/// The texts that the strings of `items` hold, in the same order.
pub open spec fn texts(items: Seq<String>) -> Seq<Seq<char>> {
    Seq::new(items.len(), |i: int| items[i]@)
}

/// All of `parts` written one after the other.
pub open spec fn concat(parts: Seq<Seq<char>>) -> Seq<char>
    decreases parts.len(),
{
    if parts.len() == 0 {
        Seq::empty()
    } else {
        concat(parts.drop_last()) + parts.last()
    }
}

/// `items` with `separator` put between each two neighbours.
pub open spec fn interspersed(items: Seq<Seq<char>>, separator: Seq<char>) -> Seq<Seq<char>> {
    if items.len() == 0 {
        Seq::empty()
    } else {
        Seq::new(
            (2 * items.len() - 1) as nat,
            |i: int|
                if i % 2 == 0 {
                    items[i / 2]
                } else {
                    separator
                },
        )
    }
}

/// `items` written one after the other with `separator` between them.
pub open spec fn joined(items: Seq<Seq<char>>, separator: Seq<char>) -> Seq<char> {
    concat(interspersed(items, separator))
}

/// `itertools::Itertools::intersperse`, run over the whole of `items` and
/// collected: the items come back in order, with a copy of `separator` between
/// each two neighbours and none before the first or after the last.
#[verifier::external_body]
fn intersperse(items: Vec<String>, separator: String) -> (r: Vec<String>)
    ensures
        texts(r@) == interspersed(texts(items@), separator@),
{
    itertools::Itertools::intersperse(items.into_iter(), separator).collect()
}

/// Writes the strings of `parts` one after the other.
pub fn concat_all(parts: &Vec<String>) -> (r: String)
    ensures
        r@ == concat(texts(parts@)),
{
    let mut out = String::new();
    let mut i: usize = 0;
    while i < parts.len()
        invariant
            i <= parts.len(),
            out@ == concat(texts(parts@).take(i as int)),
        decreases parts.len() - i,
    {
        proof {
            let all = texts(parts@);
            assert(all.take(i + 1).drop_last() == all.take(i as int));
            assert(all.take(i + 1).last() == parts@[i as int]@);
        }
        out.append(parts[i].as_str());
        i += 1;
    }
    proof {
        assert(texts(parts@).take(parts.len() as int) == texts(parts@));
    }
    out
}

/// A copy of each string of `items`, in the same order.
pub fn copy_all(items: &Vec<String>) -> (r: Vec<String>)
    ensures
        texts(r@) == texts(items@),
{
    let mut copies: Vec<String> = Vec::new();
    let mut i: usize = 0;
    while i < items.len()
        invariant
            i <= items.len(),
            copies@.len() == i,
            forall|k: int| 0 <= k < i ==> copies@[k]@ == items@[k]@,
        decreases items.len() - i,
    {
        let copy = items[i].clone();
        copies.push(copy);
        i += 1;
    }
    copies
}

/// Writes `items` one after the other with `separator` between them.
pub fn join(items: Vec<String>, separator: &str) -> (r: String)
    ensures
        r@ == joined(texts(items@), separator@),
{
    let parts = intersperse(items, separator.to_string());
    concat_all(&parts)
}

/// Why the text of a whole number was refused.
#[derive(Clone, Copy, Debug, PartialEq, Eq, Structural)]
pub enum IntErrorKind {
    /// The text is empty.
    Empty,
    /// A character is no decimal digit, or a sign stands alone.
    InvalidDigit,
    /// The number is above the largest value of the target type.
    PosOverflow,
    /// The number is below the smallest value of the target type.
    NegOverflow,
}

impl IntErrorKind {
    /// The sentence that describes this kind.
    pub open spec fn message(self) -> Seq<char> {
        match self {
            IntErrorKind::Empty => "cannot parse integer from empty string"@,
            IntErrorKind::InvalidDigit => "invalid digit found in string"@,
            IntErrorKind::PosOverflow => "number too large to fit in target type"@,
            IntErrorKind::NegOverflow => "number too small to fit in target type"@,
        }
    }

    pub fn to_string(&self) -> (r: String)
        ensures
            r@ == self.message(),
    {
        match self {
            IntErrorKind::Empty => "cannot parse integer from empty string".to_string(),
            IntErrorKind::InvalidDigit => "invalid digit found in string".to_string(),
            IntErrorKind::PosOverflow => "number too large to fit in target type".to_string(),
            IntErrorKind::NegOverflow => "number too small to fit in target type".to_string(),
        }
    }
}

/// The text read well, but what it names is not among the options on offer.
#[derive(Debug)]
pub struct SelectError {
    selected: String,
}

impl View for SelectError {
    type V = Seq<char>;

    /// The text that was selected.
    closed spec fn view(&self) -> Seq<char> {
        self.selected@
    }
}

/// The sentence that refuses the selection `selected`.
pub open spec fn select_message(selected: Seq<char>) -> Seq<char> {
    "Value "@ + selected + " is not in the list of allowed options"@
}

impl SelectError {
    pub fn new(selected: String) -> (r: SelectError)
        ensures
            r@ == selected@,
    {
        SelectError { selected }
    }

    pub fn to_string(&self) -> (r: String)
        ensures
            r@ == select_message(self@),
    {
        let mut out = "Value ".to_string();
        out.append(self.selected.as_str());
        out.append(" is not in the list of allowed options");
        out
    }
}

/// Why raw text could not be turned into a value at all.
#[derive(Debug)]
pub enum ParseFailure {
    /// The text is no whole number of the target type.
    Integer(IntErrorKind),
    /// The text is no decimal number; the message says why.
    Decimal(String),
    /// The text is no date in the field's format; the message says why.
    Date(String),
    /// The text names no option of a select.
    Select(SelectError),
    /// Any other conversion that failed, with its message.
    Other(String),
}

/// What a `ParseFailure` holds, as plain values.
pub enum ParseFailureView {
    Integer(IntErrorKind),
    Decimal(Seq<char>),
    Date(Seq<char>),
    Select(Seq<char>),
    Other(Seq<char>),
}

impl ParseFailureView {
    /// The sentence shown for this failure.
    pub open spec fn message(self) -> Seq<char> {
        match self {
            ParseFailureView::Integer(kind) => kind.message(),
            ParseFailureView::Decimal(m) => m,
            ParseFailureView::Date(m) => m,
            ParseFailureView::Select(selected) => select_message(selected),
            ParseFailureView::Other(m) => m,
        }
    }
}

impl View for ParseFailure {
    type V = ParseFailureView;

    open spec fn view(&self) -> ParseFailureView {
        match self {
            ParseFailure::Integer(kind) => ParseFailureView::Integer(*kind),
            ParseFailure::Decimal(m) => ParseFailureView::Decimal(m@),
            ParseFailure::Date(m) => ParseFailureView::Date(m@),
            ParseFailure::Select(e) => ParseFailureView::Select(e@),
            ParseFailure::Other(m) => ParseFailureView::Other(m@),
        }
    }
}

impl ParseFailure {
    pub fn to_string(&self) -> (r: String)
        ensures
            r@ == self@.message(),
    {
        match self {
            ParseFailure::Integer(kind) => kind.to_string(),
            ParseFailure::Decimal(m) => m.clone(),
            ParseFailure::Date(m) => m.clone(),
            ParseFailure::Select(e) => e.to_string(),
            ParseFailure::Other(m) => m.clone(),
        }
    }
}

/// The messages of every rule that rejected a value, in the order in which the
/// rules were registered.
#[derive(Debug)]
pub struct ValidationErrors {
    errors: Vec<String>,
}

impl View for ValidationErrors {
    type V = Seq<Seq<char>>;

    closed spec fn view(&self) -> Seq<Seq<char>> {
        texts(self.errors@)
    }
}

/// The messages `messages` as one line: in square brackets, separated by a
/// comma and a space.
pub open spec fn validation_message(messages: Seq<Seq<char>>) -> Seq<char> {
    "["@ + joined(messages, ", "@) + "]"@
}

impl ValidationErrors {
    /// The messages, in order.
    pub fn messages(&self) -> (r: &Vec<String>)
        ensures
            texts(r@) == self@,
    {
        &self.errors
    }

    pub fn to_string(&self) -> (r: String)
        ensures
            r@ == validation_message(self@),
    {
        let copies = copy_all(&self.errors);
        let mut out = "[".to_string();
        let inner = join(copies, ", ");
        out.append(inner.as_str());
        out.append("]");
        out
    }
}

impl From<Vec<String>> for ValidationErrors {
    fn from(errors: Vec<String>) -> (r: ValidationErrors)
        ensures
            r@ == texts(errors@),
    {
        ValidationErrors { errors }
    }
}

impl vstd::std_specs::convert::FromSpecImpl<Vec<String>> for ValidationErrors {
    open spec fn obeys_from_spec() -> bool {
        true
    }

    closed spec fn from_spec(errors: Vec<String>) -> ValidationErrors {
        ValidationErrors { errors }
    }
}

/// The outcome of a parse attempt that did not produce a value. The two kinds
/// never come together: rules only run on a value that was read.
#[derive(Debug)]
#[non_exhaustive]
pub enum Error {
    Parse(ParseFailure),
    Validation(ValidationErrors),
}

/// What an `Error` holds, as plain values.
pub enum ErrorView {
    Parse(ParseFailureView),
    Validation(Seq<Seq<char>>),
}

impl ErrorView {
    /// The sentence shown for this error.
    pub open spec fn message(self) -> Seq<char> {
        match self {
            ErrorView::Parse(cause) => "parse error "@ + cause.message(),
            ErrorView::Validation(messages) => "validation error(s) "@ + validation_message(
                messages,
            ),
        }
    }
}

impl View for Error {
    type V = ErrorView;

    open spec fn view(&self) -> ErrorView {
        match self {
            Error::Parse(cause) => ErrorView::Parse(cause@),
            Error::Validation(errors) => ErrorView::Validation(errors@),
        }
    }
}

impl Error {
    pub fn to_string(&self) -> (r: String)
        ensures
            r@ == self@.message(),
    {
        match self {
            Error::Parse(cause) => {
                let mut out = "parse error ".to_string();
                let inner = cause.to_string();
                out.append(inner.as_str());
                out
            },
            Error::Validation(errors) => {
                let mut out = "validation error(s) ".to_string();
                let inner = errors.to_string();
                out.append(inner.as_str());
                out
            },
        }
    }
}

impl From<ValidationErrors> for Error {
    fn from(validation: ValidationErrors) -> (r: Error) {
        Error::Validation(validation)
    }
}

impl vstd::std_specs::convert::FromSpecImpl<ValidationErrors> for Error {
    open spec fn obeys_from_spec() -> bool {
        true
    }

    open spec fn from_spec(validation: ValidationErrors) -> Error {
        Error::Validation(validation)
    }
}

impl From<ParseFailure> for Error {
    fn from(cause: ParseFailure) -> (r: Error) {
        Error::Parse(cause)
    }
}

impl vstd::std_specs::convert::FromSpecImpl<ParseFailure> for Error {
    open spec fn obeys_from_spec() -> bool {
        true
    }

    open spec fn from_spec(cause: ParseFailure) -> Error {
        Error::Parse(cause)
    }
}

/// What a rule returns: `Ok`, or the message that says why it rejects the value.
pub type ValidationResult = Result<(), String>;

/// What a field's parse attempt returns.
pub type FieldResult<T> = Result<T, Error>;

} // verus!
