//! Values that have a canonical text: how they are read from it and written
//! back, and the text of whole numbers in particular.

use crate::errors::{IntErrorKind, ParseFailure, ParseFailureView};
use vstd::prelude::*;
use vstd::std_specs::iter::IteratorSpec;

verus! {

/// Whether `c` is one of the ten decimal digits.
pub open spec fn is_digit(c: char) -> bool {
    '0' <= c <= '9'
}

/// The number that the digit `c` stands for.
pub open spec fn digit_value(c: char) -> int {
    c as int - '0' as int
}

/// The digit that stands for `d`, for `d` below ten.
pub open spec fn digit_char(d: int) -> char {
    ('0' as int + d) as char
}

/// Reads `digits` from left to right into `acc`, one decimal place at a time,
/// away from zero in the direction that `negative` gives. The first character
/// that is no digit, or the first step that leaves `min ..= max`, ends the
/// reading with its error.
pub open spec fn read_digits(digits: Seq<char>, acc: int, negative: bool, min: int, max: int)
    -> Result<int, IntErrorKind>
    decreases digits.len(),
{
    if digits.len() == 0 {
        Ok(acc)
    } else if !is_digit(digits[0]) {
        Err(IntErrorKind::InvalidDigit)
    } else {
        let next = step(acc, digits[0], negative);
        if next > max {
            Err(IntErrorKind::PosOverflow)
        } else if next < min {
            Err(IntErrorKind::NegOverflow)
        } else {
            read_digits(digits.drop_first(), next, negative, min, max)
        }
    }
}

/// `acc` with the digit `c` appended.
pub open spec fn step(acc: int, c: char, negative: bool) -> int {
    if negative {
        10 * acc - digit_value(c)
    } else {
        10 * acc + digit_value(c)
    }
}

/// What the text of a whole number in `min ..= max` reads as: an optional
/// sign (`+`, and `-` where the type is signed), then one or more decimal
/// digits and nothing else.
pub open spec fn read_int(text: Seq<char>, signed: bool, min: int, max: int) -> Result<
    int,
    IntErrorKind,
> {
    if text.len() == 0 {
        Err(IntErrorKind::Empty)
    } else if text.len() == 1 && (text[0] == '+' || text[0] == '-') {
        Err(IntErrorKind::InvalidDigit)
    } else if text[0] == '+' {
        read_digits(text.drop_first(), 0, false, min, max)
    } else if text[0] == '-' && signed {
        read_digits(text.drop_first(), 0, true, min, max)
    } else {
        read_digits(text, 0, false, min, max)
    }
}

/// The decimal digits of `n`, without leading zeros.
pub open spec fn digits_of(n: nat) -> Seq<char>
    decreases n,
{
    if n < 10 {
        seq![digit_char(n as int)]
    } else {
        digits_of(n / 10).push(digit_char((n % 10) as int))
    }
}

/// The canonical text of the whole number `v`.
pub open spec fn written_int(v: int) -> Seq<char> {
    if v < 0 {
        seq!['-'] + digits_of((-v) as nat)
    } else {
        digits_of(v as nat)
    }
}

/// A result of `parse_int` with its value as an `int`.
pub open spec fn int_view(r: Result<i128, IntErrorKind>) -> Result<int, IntErrorKind> {
    match r {
        Ok(v) => Ok(v as int),
        Err(kind) => Err(kind),
    }
}

/// The bounds within which `parse_int` and `write_int` work: those of the
/// integer types of up to 64 bits.
pub open spec fn bounds_fit(min: int, max: int) -> bool {
    -0x8000_0000_0000_0000 <= min <= 0 <= max <= 0xffff_ffff_ffff_ffff
}

/// Reads the text of a whole number in `min ..= max`.
pub fn parse_int(text: &str, signed: bool, min: i128, max: i128) -> (r: Result<
    i128,
    IntErrorKind,
>)
    requires
        bounds_fit(min as int, max as int),
    ensures
        int_view(r) == read_int(text@, signed, min as int, max as int),
        r matches Ok(v) ==> min <= v <= max,
{
    broadcast use vstd::string::group_string_axioms;

    let mut it = text.chars();
    let first = match it.next() {
        None => {
            return Err(IntErrorKind::Empty);
        },
        Some(c) => c,
    };
    assert(first == text@[0]);
    assert(it.remaining() == text@.drop_first());
    let negative = first == '-' && signed;
    let mut current = first;
    if first == '+' || negative {
        match it.next() {
            None => {
                return Err(IntErrorKind::InvalidDigit);
            },
            Some(c) => {
                assert(text@.drop_first() == seq![c] + it.remaining());
                current = c;
            },
        }
    } else {
        assert(text@ == seq![first] + it.remaining());
    }
    let mut acc: i128 = 0;
    let ghost goal = read_int(text@, signed, min as int, max as int);
    loop
        invariant
            bounds_fit(min as int, max as int),
            min <= acc <= max,
            read_digits(
                seq![current] + it.remaining(),
                acc as int,
                negative,
                min as int,
                max as int,
            ) == goal,
            it.decrease() is Some,
            goal == read_int(text@, signed, min as int, max as int),
        decreases it.decrease()->0,
    {
        let ghost rest = it.remaining();
        assert((seq![current] + rest)[0] == current);
        assert((seq![current] + rest).drop_first() == rest);
        if !(current >= '0' && current <= '9') {
            return Err(IntErrorKind::InvalidDigit);
        }
        let d = (current as u32 - '0' as u32) as i128;
        let next = if negative {
            acc * 10 - d
        } else {
            acc * 10 + d
        };
        if next > max {
            return Err(IntErrorKind::PosOverflow);
        }
        if next < min {
            return Err(IntErrorKind::NegOverflow);
        }
        acc = next;
        match it.next() {
            None => {
                assert(rest.len() == 0);
                assert(read_digits(rest, acc as int, negative, min as int, max as int) == Ok::<
                    int,
                    IntErrorKind,
                >(acc as int));
                return Ok(acc);
            },
            Some(c) => {
                assert(rest == seq![c] + it.remaining());
                current = c;
            },
        }
    }
}

/// The one-character text of the digit `d`.
fn digit_text(d: u8) -> (r: &'static str)
    requires
        d < 10,
    ensures
        r@ == seq![digit_char(d as int)],
{
    proof {
        reveal_strlit("0");
        reveal_strlit("1");
        reveal_strlit("2");
        reveal_strlit("3");
        reveal_strlit("4");
        reveal_strlit("5");
        reveal_strlit("6");
        reveal_strlit("7");
        reveal_strlit("8");
        reveal_strlit("9");
    }
    let r = match d {
        0 => "0",
        1 => "1",
        2 => "2",
        3 => "3",
        4 => "4",
        5 => "5",
        6 => "6",
        7 => "7",
        8 => "8",
        _ => "9",
    };
    assert(r@ =~= seq![digit_char(d as int)]);
    r
}

/// Appends the decimal digits of `n` to `out`.
fn write_nat(n: u64, out: &mut String)
    ensures
        final(out)@ == old(out)@ + digits_of(n as nat),
    decreases n,
{
    if n >= 10 {
        write_nat(n / 10, out);
    }
    out.append(digit_text((n % 10) as u8));
    assert(out@ =~= old(out)@ + digits_of(n as nat));
}

/// Writes the canonical text of the whole number `v`.
pub fn write_int(v: i128) -> (r: String)
    requires
        -0x8000_0000_0000_0000 <= v <= 0xffff_ffff_ffff_ffff,
    ensures
        r@ == written_int(v as int),
{
    let mut out = String::new();
    if v < 0 {
        proof {
            reveal_strlit("-");
        }
        out.append("-");
        write_nat((-v) as u64, &mut out);
        assert(out@ =~= written_int(v as int));
    } else {
        write_nat(v as u64, &mut out);
        assert(out@ =~= written_int(v as int));
    }
    out
}

/// What is read lies within the bounds.
pub proof fn lemma_read_bounds(text: Seq<char>, signed: bool, min: int, max: int)
    requires
        min <= 0 <= max,
    ensures
        read_int(text, signed, min, max) matches Ok(v) ==> min <= v <= max,
{
    lemma_read_digits_bounds(text, 0, false, min, max);
    if text.len() > 0 {
        lemma_read_digits_bounds(text.drop_first(), 0, false, min, max);
        lemma_read_digits_bounds(text.drop_first(), 0, true, min, max);
    }
}

/// What is read from a start within the bounds lies within the bounds.
pub proof fn lemma_read_digits_bounds(
    digits: Seq<char>,
    acc: int,
    negative: bool,
    min: int,
    max: int,
)
    requires
        min <= acc <= max,
    ensures
        read_digits(digits, acc, negative, min, max) matches Ok(v) ==> min <= v <= max,
    decreases digits.len(),
{
    if digits.len() > 0 && is_digit(digits[0]) {
        let next = step(acc, digits[0], negative);
        if min <= next <= max {
            lemma_read_digits_bounds(digits.drop_first(), next, negative, min, max);
        }
    }
}

/// Reading a text with one more character at its end is reading the text and
/// then taking one more step.
pub proof fn lemma_read_push(
    digits: Seq<char>,
    c: char,
    acc: int,
    negative: bool,
    min: int,
    max: int,
)
    ensures
        read_digits(digits.push(c), acc, negative, min, max) == match read_digits(
            digits,
            acc,
            negative,
            min,
            max,
        ) {
            Err(kind) => Err(kind),
            Ok(value) => read_digits(seq![c], value, negative, min, max),
        },
    decreases digits.len(),
{
    if digits.len() == 0 {
        assert(digits.push(c) =~= seq![c]);
    } else {
        let longer = digits.push(c);
        assert(longer[0] == digits[0]);
        assert(longer.drop_first() =~= digits.drop_first().push(c));
        if is_digit(digits[0]) {
            let next = step(acc, digits[0], negative);
            if min <= next <= max {
                lemma_read_push(digits.drop_first(), c, next, negative, min, max);
            }
        }
    }
}

/// The digits of a number are digits, and there is at least one.
pub proof fn lemma_digits_of(n: nat)
    ensures
        digits_of(n).len() >= 1,
        forall|i: int| 0 <= i < digits_of(n).len() ==> is_digit(#[trigger] digits_of(n)[i]),
    decreases n,
{
    if n >= 10 {
        lemma_digits_of(n / 10);
    }
}

/// The digits of `n` read back as `n`, or as `-n` where the reading is
/// negative, wherever that number lies within the bounds.
pub proof fn lemma_read_digits_of(n: nat, negative: bool, min: int, max: int)
    requires
        min <= 0 <= max,
        negative ==> min <= -n,
        !negative ==> n <= max,
    ensures
        read_digits(digits_of(n), 0, negative, min, max) == Ok::<int, IntErrorKind>(
            if negative {
                -n
            } else {
                n as int
            },
        ),
    decreases n,
{
    if n < 10 {
        let c = digit_char(n as int);
        assert(digits_of(n) =~= seq![c]);
        assert(seq![c].drop_first() =~= Seq::<char>::empty());
        reveal_with_fuel(read_digits, 2);
    } else {
        let c = digit_char((n % 10) as int);
        lemma_read_digits_of(n / 10, negative, min, max);
        lemma_read_push(digits_of(n / 10), c, 0, negative, min, max);
        assert(seq![c].drop_first() =~= Seq::<char>::empty());
        reveal_with_fuel(read_digits, 2);
    }
}

/// A whole number's canonical text reads back as that number.
pub proof fn lemma_int_round_trip(v: int, signed: bool, min: int, max: int)
    requires
        min <= 0 <= max,
        min <= v <= max,
        v < 0 ==> signed,
    ensures
        read_int(written_int(v), signed, min, max) == Ok::<int, IntErrorKind>(v),
{
    let text = written_int(v);
    if v < 0 {
        let digits = digits_of((-v) as nat);
        lemma_digits_of((-v) as nat);
        lemma_read_digits_of((-v) as nat, true, min, max);
        assert(text.drop_first() =~= digits);
    } else {
        lemma_digits_of(v as nat);
        lemma_read_digits_of(v as nat, false, min, max);
        assert(is_digit(text[0]));
    }
}

/// A result of reading, with the value and the failure as plain values.
pub open spec fn read_view<T: View>(r: Result<T, ParseFailure>) -> Result<T::V, ParseFailureView> {
    match r {
        Ok(value) => Ok(value@),
        Err(cause) => Err(cause@),
    }
}

/// A type of values that are typed in as text: it says what each text reads
/// as, and which text stands for each value.
///
/// A type that joins in verified code says both in `read` and `written`, and
/// its methods are proved against them. Of a type that joins elsewhere only
/// this is taken for granted: that what a text reads as depends on the text
/// alone, and that a value's text depends on the value alone.
pub trait TextValue: Sized + View {
    /// What `text` reads as: the value, or why it is none.
    open spec fn read(text: Seq<char>) -> Result<Self::V, ParseFailureView> {
        arbitrary::<spec_fn(Seq<char>) -> Result<Self::V, ParseFailureView>>()(text)
    }

    /// The canonical text of `value`.
    open spec fn written(value: Self::V) -> Seq<char> {
        arbitrary::<spec_fn(Self::V) -> Seq<char>>()(value)
    }

    /// Reads `text`.
    fn from_text(text: &str) -> (r: Result<Self, ParseFailure>)
        ensures
            read_view(r) == Self::read(text@),
    ;

    /// Writes the canonical text of this value.
    fn to_text(&self) -> (r: String)
        ensures
            r@ == Self::written(self@),
    ;
}

/// A type whose canonical texts read back as the values they were written
/// from.
pub trait ReadsBack: TextValue {
    proof fn lemma_reads_back(value: Self::V)
        ensures
            Self::read(Self::written(value)) == Ok::<Self::V, ParseFailureView>(value),
    ;
}

/// What reading a whole number gives, as a field's parse step reports it.
pub open spec fn read_number(text: Seq<char>, signed: bool, min: int, max: int) -> Result<
    int,
    ParseFailureView,
> {
    match read_int(text, signed, min, max) {
        Ok(v) => Ok(v),
        Err(kind) => Err(ParseFailureView::Integer(kind)),
    }
}

impl TextValue for String {
    /// Every text is a text.
    open spec fn read(text: Seq<char>) -> Result<Seq<char>, ParseFailureView> {
        Ok(text)
    }

    open spec fn written(value: Seq<char>) -> Seq<char> {
        value
    }

    fn from_text(text: &str) -> (r: Result<String, ParseFailure>) {
        Ok(text.to_owned())
    }

    fn to_text(&self) -> (r: String) {
        self.clone()
    }

}

impl ReadsBack for String {
    proof fn lemma_reads_back(value: Seq<char>) {
    }
}

impl TextValue for u8 {
    open spec fn read(text: Seq<char>) -> Result<u8, ParseFailureView> {
        match read_number(text, false, u8::MIN as int, u8::MAX as int) {
            Ok(v) => Ok(v as u8),
            Err(cause) => Err(cause),
        }
    }

    open spec fn written(value: u8) -> Seq<char> {
        written_int(value as int)
    }

    fn from_text(text: &str) -> (r: Result<u8, ParseFailure>) {
        match parse_int(text, false, u8::MIN as i128, u8::MAX as i128) {
            Ok(v) => Ok(v as u8),
            Err(kind) => Err(ParseFailure::Integer(kind)),
        }
    }

    fn to_text(&self) -> (r: String) {
        write_int(*self as i128)
    }

}

impl ReadsBack for u8 {
    proof fn lemma_reads_back(value: u8) {
        lemma_int_round_trip(value as int, false, u8::MIN as int, u8::MAX as int);
    }
}

impl TextValue for u16 {
    open spec fn read(text: Seq<char>) -> Result<u16, ParseFailureView> {
        match read_number(text, false, u16::MIN as int, u16::MAX as int) {
            Ok(v) => Ok(v as u16),
            Err(cause) => Err(cause),
        }
    }

    open spec fn written(value: u16) -> Seq<char> {
        written_int(value as int)
    }

    fn from_text(text: &str) -> (r: Result<u16, ParseFailure>) {
        match parse_int(text, false, u16::MIN as i128, u16::MAX as i128) {
            Ok(v) => Ok(v as u16),
            Err(kind) => Err(ParseFailure::Integer(kind)),
        }
    }

    fn to_text(&self) -> (r: String) {
        write_int(*self as i128)
    }

}

impl ReadsBack for u16 {
    proof fn lemma_reads_back(value: u16) {
        lemma_int_round_trip(value as int, false, u16::MIN as int, u16::MAX as int);
    }
}

impl TextValue for u32 {
    open spec fn read(text: Seq<char>) -> Result<u32, ParseFailureView> {
        match read_number(text, false, u32::MIN as int, u32::MAX as int) {
            Ok(v) => Ok(v as u32),
            Err(cause) => Err(cause),
        }
    }

    open spec fn written(value: u32) -> Seq<char> {
        written_int(value as int)
    }

    fn from_text(text: &str) -> (r: Result<u32, ParseFailure>) {
        match parse_int(text, false, u32::MIN as i128, u32::MAX as i128) {
            Ok(v) => Ok(v as u32),
            Err(kind) => Err(ParseFailure::Integer(kind)),
        }
    }

    fn to_text(&self) -> (r: String) {
        write_int(*self as i128)
    }

}

impl ReadsBack for u32 {
    proof fn lemma_reads_back(value: u32) {
        lemma_int_round_trip(value as int, false, u32::MIN as int, u32::MAX as int);
    }
}

impl TextValue for u64 {
    open spec fn read(text: Seq<char>) -> Result<u64, ParseFailureView> {
        match read_number(text, false, u64::MIN as int, u64::MAX as int) {
            Ok(v) => Ok(v as u64),
            Err(cause) => Err(cause),
        }
    }

    open spec fn written(value: u64) -> Seq<char> {
        written_int(value as int)
    }

    fn from_text(text: &str) -> (r: Result<u64, ParseFailure>) {
        match parse_int(text, false, u64::MIN as i128, u64::MAX as i128) {
            Ok(v) => Ok(v as u64),
            Err(kind) => Err(ParseFailure::Integer(kind)),
        }
    }

    fn to_text(&self) -> (r: String) {
        write_int(*self as i128)
    }

}

impl ReadsBack for u64 {
    proof fn lemma_reads_back(value: u64) {
        lemma_int_round_trip(value as int, false, u64::MIN as int, u64::MAX as int);
    }
}

impl TextValue for i8 {
    open spec fn read(text: Seq<char>) -> Result<i8, ParseFailureView> {
        match read_number(text, true, i8::MIN as int, i8::MAX as int) {
            Ok(v) => Ok(v as i8),
            Err(cause) => Err(cause),
        }
    }

    open spec fn written(value: i8) -> Seq<char> {
        written_int(value as int)
    }

    fn from_text(text: &str) -> (r: Result<i8, ParseFailure>) {
        match parse_int(text, true, i8::MIN as i128, i8::MAX as i128) {
            Ok(v) => Ok(v as i8),
            Err(kind) => Err(ParseFailure::Integer(kind)),
        }
    }

    fn to_text(&self) -> (r: String) {
        write_int(*self as i128)
    }

}

impl ReadsBack for i8 {
    proof fn lemma_reads_back(value: i8) {
        lemma_int_round_trip(value as int, true, i8::MIN as int, i8::MAX as int);
    }
}

impl TextValue for i16 {
    open spec fn read(text: Seq<char>) -> Result<i16, ParseFailureView> {
        match read_number(text, true, i16::MIN as int, i16::MAX as int) {
            Ok(v) => Ok(v as i16),
            Err(cause) => Err(cause),
        }
    }

    open spec fn written(value: i16) -> Seq<char> {
        written_int(value as int)
    }

    fn from_text(text: &str) -> (r: Result<i16, ParseFailure>) {
        match parse_int(text, true, i16::MIN as i128, i16::MAX as i128) {
            Ok(v) => Ok(v as i16),
            Err(kind) => Err(ParseFailure::Integer(kind)),
        }
    }

    fn to_text(&self) -> (r: String) {
        write_int(*self as i128)
    }

}

impl ReadsBack for i16 {
    proof fn lemma_reads_back(value: i16) {
        lemma_int_round_trip(value as int, true, i16::MIN as int, i16::MAX as int);
    }
}

impl TextValue for i32 {
    open spec fn read(text: Seq<char>) -> Result<i32, ParseFailureView> {
        match read_number(text, true, i32::MIN as int, i32::MAX as int) {
            Ok(v) => Ok(v as i32),
            Err(cause) => Err(cause),
        }
    }

    open spec fn written(value: i32) -> Seq<char> {
        written_int(value as int)
    }

    fn from_text(text: &str) -> (r: Result<i32, ParseFailure>) {
        match parse_int(text, true, i32::MIN as i128, i32::MAX as i128) {
            Ok(v) => Ok(v as i32),
            Err(kind) => Err(ParseFailure::Integer(kind)),
        }
    }

    fn to_text(&self) -> (r: String) {
        write_int(*self as i128)
    }

}

impl ReadsBack for i32 {
    proof fn lemma_reads_back(value: i32) {
        lemma_int_round_trip(value as int, true, i32::MIN as int, i32::MAX as int);
    }
}

impl TextValue for i64 {
    open spec fn read(text: Seq<char>) -> Result<i64, ParseFailureView> {
        match read_number(text, true, i64::MIN as int, i64::MAX as int) {
            Ok(v) => Ok(v as i64),
            Err(cause) => Err(cause),
        }
    }

    open spec fn written(value: i64) -> Seq<char> {
        written_int(value as int)
    }

    fn from_text(text: &str) -> (r: Result<i64, ParseFailure>) {
        match parse_int(text, true, i64::MIN as i128, i64::MAX as i128) {
            Ok(v) => Ok(v as i64),
            Err(kind) => Err(ParseFailure::Integer(kind)),
        }
    }

    fn to_text(&self) -> (r: String) {
        write_int(*self as i128)
    }

}

impl ReadsBack for i64 {
    proof fn lemma_reads_back(value: i64) {
        lemma_int_round_trip(value as int, true, i64::MIN as int, i64::MAX as int);
    }
}

impl TextValue for usize {
    open spec fn read(text: Seq<char>) -> Result<usize, ParseFailureView> {
        match read_number(text, false, usize::MIN as int, usize::MAX as int) {
            Ok(v) => Ok(v as usize),
            Err(cause) => Err(cause),
        }
    }

    open spec fn written(value: usize) -> Seq<char> {
        written_int(value as int)
    }

    fn from_text(text: &str) -> (r: Result<usize, ParseFailure>) {
        match parse_int(text, false, usize::MIN as i128, usize::MAX as i128) {
            Ok(v) => Ok(v as usize),
            Err(kind) => Err(ParseFailure::Integer(kind)),
        }
    }

    fn to_text(&self) -> (r: String) {
        write_int(*self as i128)
    }

}

impl ReadsBack for usize {
    proof fn lemma_reads_back(value: usize) {
        lemma_int_round_trip(value as int, false, usize::MIN as int, usize::MAX as int);
    }
}

impl TextValue for isize {
    open spec fn read(text: Seq<char>) -> Result<isize, ParseFailureView> {
        match read_number(text, true, isize::MIN as int, isize::MAX as int) {
            Ok(v) => Ok(v as isize),
            Err(cause) => Err(cause),
        }
    }

    open spec fn written(value: isize) -> Seq<char> {
        written_int(value as int)
    }

    fn from_text(text: &str) -> (r: Result<isize, ParseFailure>) {
        match parse_int(text, true, isize::MIN as i128, isize::MAX as i128) {
            Ok(v) => Ok(v as isize),
            Err(kind) => Err(ParseFailure::Integer(kind)),
        }
    }

    fn to_text(&self) -> (r: String) {
        write_int(*self as i128)
    }

}

impl ReadsBack for isize {
    proof fn lemma_reads_back(value: isize) {
        lemma_int_round_trip(value as int, true, isize::MIN as int, isize::MAX as int);
    }
}

} // verus!
