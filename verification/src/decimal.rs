//! Decimal numbers: a whole number of up to 96 bits, scaled down by a power of
//! ten.

use crate::errors::{ParseFailure, ParseFailureView};
use crate::text::TextValue;
use vstd::prelude::*;

verus! {

/// The largest scale of a decimal.
pub const MAX_SCALE: u32 = 28;

/// The largest mantissa of a decimal, apart from its sign: 96 bits of ones.
pub const MAX_MANTISSA: i128 = 0xffff_ffff_ffff_ffff_ffff_ffff;

/// Whether `mantissa` and `scale` are those of a decimal.
pub open spec fn is_decimal(mantissa: int, scale: int) -> bool {
    -MAX_MANTISSA <= mantissa <= MAX_MANTISSA && 0 <= scale <= MAX_SCALE
}

/// What `text` reads as: the mantissa and the scale of a decimal, or the
/// message of the refusal.
pub uninterp spec fn decimal_read(text: Seq<char>) -> Result<(int, int), Seq<char>>;

/// The text of the decimal with mantissa `mantissa` and scale `scale`.
pub uninterp spec fn decimal_written(mantissa: int, scale: int) -> Seq<char>;

/// `rust_decimal::Decimal::from_str`: the decimal that `text` reads as, as
/// what `mantissa` and `scale` give for it, which are those of a decimal; or
/// the text of the crate's error. Both depend on `text` alone.
#[verifier::external_body]
fn read_decimal(text: &str) -> (r: Result<(i128, u32), String>)
    ensures
        match r {
            Ok((mantissa, scale)) => {
                &&& decimal_read(text@) == Ok::<(int, int), Seq<char>>(
                    (mantissa as int, scale as int),
                )
                &&& is_decimal(mantissa as int, scale as int)
            },
            Err(message) => decimal_read(text@) == Err::<(int, int), Seq<char>>(message@),
        },
{
    match <rust_decimal::Decimal as std::str::FromStr>::from_str(text) {
        Ok(d) => Ok((d.mantissa(), d.scale())),
        Err(e) => Err(e.to_string()),
    }
}

/// `rust_decimal::Decimal::from_i128_with_scale`, which panics unless the two
/// numbers are those of a decimal, and the `Display` of what it makes: the
/// decimal's text, which depends on the two numbers alone.
#[verifier::external_body]
fn write_decimal(mantissa: i128, scale: u32) -> (r: String)
    requires
        is_decimal(mantissa as int, scale as int),
    ensures
        r@ == decimal_written(mantissa as int, scale as int),
{
    rust_decimal::Decimal::from_i128_with_scale(mantissa, scale).to_string()
}

/// What a `Decimal` holds: it stands for `mantissa / 10^scale`.
pub struct DecimalView {
    pub mantissa: int,
    pub scale: int,
}

/// A decimal number.
#[derive(Clone, Copy, Debug, PartialEq, Eq, Structural)]
pub struct Decimal {
    mantissa: i128,
    scale: u32,
}

impl View for Decimal {
    type V = DecimalView;

    closed spec fn view(&self) -> DecimalView {
        DecimalView { mantissa: self.mantissa as int, scale: self.scale as int }
    }
}

impl Default for Decimal {
    /// Zero, with scale 0.
    fn default() -> (r: Decimal)
        ensures
            r@ == (DecimalView { mantissa: 0, scale: 0 }),
    {
        Decimal { mantissa: 0, scale: 0 }
    }
}

impl Decimal {
    #[verifier::type_invariant]
    spec fn wf(self) -> bool {
        is_decimal(self.mantissa as int, self.scale as int)
    }

    /// The decimal `mantissa / 10^scale`, where the two numbers are those of
    /// a decimal.
    pub fn new(mantissa: i128, scale: u32) -> (r: Option<Decimal>)
        ensures
            r is Some <==> is_decimal(mantissa as int, scale as int),
            r matches Some(d) ==> d@ == (DecimalView {
                mantissa: mantissa as int,
                scale: scale as int,
            }),
    {
        if -MAX_MANTISSA <= mantissa && mantissa <= MAX_MANTISSA && scale <= MAX_SCALE {
            Some(Decimal { mantissa, scale })
        } else {
            None
        }
    }

    pub fn mantissa(&self) -> (r: i128)
        ensures
            r == self@.mantissa,
            is_decimal(self@.mantissa, self@.scale),
    {
        proof {
            use_type_invariant(self);
        }
        self.mantissa
    }

    pub fn scale(&self) -> (r: u32)
        ensures
            r == self@.scale,
            is_decimal(self@.mantissa, self@.scale),
    {
        proof {
            use_type_invariant(self);
        }
        self.scale
    }
}

impl TextValue for Decimal {
    open spec fn read(text: Seq<char>) -> Result<DecimalView, ParseFailureView> {
        match decimal_read(text) {
            Ok((mantissa, scale)) => Ok(DecimalView { mantissa, scale }),
            Err(message) => Err(ParseFailureView::Decimal(message)),
        }
    }

    open spec fn written(value: DecimalView) -> Seq<char> {
        decimal_written(value.mantissa, value.scale)
    }

    fn from_text(text: &str) -> (r: Result<Decimal, ParseFailure>) {
        match read_decimal(text) {
            Ok((mantissa, scale)) => Ok(Decimal { mantissa, scale }),
            Err(message) => Err(ParseFailure::Decimal(message)),
        }
    }

    fn to_text(&self) -> (r: String) {
        proof {
            use_type_invariant(self);
        }
        write_decimal(self.mantissa, self.scale)
    }
}

} // verus!
