//! The order of texts: character by character, a text before every longer
//! text that starts with it.

use crate::text::TextValue;
use vstd::prelude::*;
use vstd::std_specs::iter::IteratorSpec;

verus! {

/// Where one text stands with regard to another.
#[derive(Clone, Copy, Debug, PartialEq, Eq, Structural)]
pub enum Place {
    Before,
    Same,
    After,
}

/// Where `a` stands with regard to `b`: the first character in which they
/// differ decides, and where there is none, the shorter text comes first.
pub open spec fn text_place(a: Seq<char>, b: Seq<char>) -> Place
    decreases a.len(),
{
    if a.len() == 0 && b.len() == 0 {
        Place::Same
    } else if a.len() == 0 {
        Place::Before
    } else if b.len() == 0 {
        Place::After
    } else if a[0] < b[0] {
        Place::Before
    } else if a[0] > b[0] {
        Place::After
    } else {
        text_place(a.drop_first(), b.drop_first())
    }
}

/// Whether `a` comes before `b`.
pub open spec fn text_before(a: Seq<char>, b: Seq<char>) -> bool {
    text_place(a, b) == Place::Before
}

/// Two texts stand at the same place if and only if they are one text.
pub proof fn lemma_place_same(a: Seq<char>, b: Seq<char>)
    ensures
        text_place(a, b) == Place::Same <==> a == b,
    decreases a.len(),
{
    if a.len() > 0 && b.len() > 0 {
        lemma_place_same(a.drop_first(), b.drop_first());
        if a[0] == b[0] && a.drop_first() == b.drop_first() {
            assert(a =~= seq![a[0]] + a.drop_first());
            assert(b =~= seq![b[0]] + b.drop_first());
        }
    } else if a.len() == 0 && b.len() == 0 {
        assert(a =~= b);
    }
}

/// `a` comes before `b` if and only if `b` comes after `a`.
pub proof fn lemma_place_flip(a: Seq<char>, b: Seq<char>)
    ensures
        text_place(a, b) == Place::Before <==> text_place(b, a) == Place::After,
        text_place(a, b) == Place::Same <==> text_place(b, a) == Place::Same,
    decreases a.len(),
{
    if a.len() > 0 && b.len() > 0 {
        lemma_place_flip(a.drop_first(), b.drop_first());
    }
}

/// What comes before a text that comes before a third comes before the
/// third.
pub proof fn lemma_before_transitive(a: Seq<char>, b: Seq<char>, c: Seq<char>)
    requires
        text_before(a, b),
        text_before(b, c),
    ensures
        text_before(a, c),
    decreases a.len(),
{
    if a.len() > 0 && b.len() > 0 && c.len() > 0 {
        if a[0] == b[0] && b[0] == c[0] {
            lemma_before_transitive(a.drop_first(), b.drop_first(), c.drop_first());
        }
    }
}

/// Finds where `a` stands with regard to `b`.
pub fn compare_texts(a: &str, b: &str) -> (r: Place)
    ensures
        r == text_place(a@, b@),
{
    broadcast use vstd::string::group_string_axioms;

    let mut left = a.chars();
    let mut right = b.chars();
    let ghost goal = text_place(a@, b@);
    loop
        invariant
            text_place(left.remaining(), right.remaining()) == goal,
            goal == text_place(a@, b@),
            left.decrease() is Some,
        decreases left.decrease()->0,
    {
        let ghost rest_left = left.remaining();
        let ghost rest_right = right.remaining();
        let x = left.next();
        let y = right.next();
        match (x, y) {
            (None, None) => {
                return Place::Same;
            },
            (None, Some(_)) => {
                return Place::Before;
            },
            (Some(_), None) => {
                return Place::After;
            },
            (Some(x), Some(y)) => {
                assert(x == rest_left[0] && y == rest_right[0]);
                if x < y {
                    return Place::Before;
                }
                if x > y {
                    return Place::After;
                }
            },
        }
    }
}

/// A type of values that stand in an order in which no two values share a
/// place.
pub trait Ordered: TextValue {
    /// Where `a` stands with regard to `b`.
    spec fn place(a: Self::V, b: Self::V) -> Place;

    /// Finds where this value stands with regard to `other`.
    fn compare(&self, other: &Self) -> (r: Place)
        ensures
            r == Self::place(self@, other@),
    ;

    /// Two values stand at the same place if and only if they are one value.
    proof fn lemma_same(a: Self::V, b: Self::V)
        ensures
            Self::place(a, b) == Place::Same <==> a == b,
    ;

    /// `a` comes before `b` if and only if `b` comes after `a`.
    proof fn lemma_flip(a: Self::V, b: Self::V)
        ensures
            Self::place(a, b) == Place::Before <==> Self::place(b, a) == Place::After,
    ;

    /// What comes before a value that comes before a third comes before the
    /// third.
    proof fn lemma_transitive(a: Self::V, b: Self::V, c: Self::V)
        requires
            Self::place(a, b) == Place::Before,
            Self::place(b, c) == Place::Before,
        ensures
            Self::place(a, c) == Place::Before,
    ;
}

/// Where the whole number `a` stands with regard to `b`.
pub open spec fn int_place(a: int, b: int) -> Place {
    if a < b {
        Place::Before
    } else if a == b {
        Place::Same
    } else {
        Place::After
    }
}

impl Ordered for String {
    open spec fn place(a: Seq<char>, b: Seq<char>) -> Place {
        text_place(a, b)
    }

    fn compare(&self, other: &String) -> (r: Place) {
        compare_texts(self.as_str(), other.as_str())
    }

    proof fn lemma_same(a: Seq<char>, b: Seq<char>) {
        lemma_place_same(a, b);
    }

    proof fn lemma_flip(a: Seq<char>, b: Seq<char>) {
        lemma_place_flip(a, b);
    }

    proof fn lemma_transitive(a: Seq<char>, b: Seq<char>, c: Seq<char>) {
        lemma_before_transitive(a, b, c);
    }
}

impl Ordered for u8 {
    open spec fn place(a: u8, b: u8) -> Place {
        int_place(a as int, b as int)
    }

    fn compare(&self, other: &u8) -> (r: Place) {
        if *self < *other {
            Place::Before
        } else if *self == *other {
            Place::Same
        } else {
            Place::After
        }
    }

    proof fn lemma_same(a: u8, b: u8) {
    }

    proof fn lemma_flip(a: u8, b: u8) {
    }

    proof fn lemma_transitive(a: u8, b: u8, c: u8) {
    }
}

impl Ordered for u16 {
    open spec fn place(a: u16, b: u16) -> Place {
        int_place(a as int, b as int)
    }

    fn compare(&self, other: &u16) -> (r: Place) {
        if *self < *other {
            Place::Before
        } else if *self == *other {
            Place::Same
        } else {
            Place::After
        }
    }

    proof fn lemma_same(a: u16, b: u16) {
    }

    proof fn lemma_flip(a: u16, b: u16) {
    }

    proof fn lemma_transitive(a: u16, b: u16, c: u16) {
    }
}

impl Ordered for u32 {
    open spec fn place(a: u32, b: u32) -> Place {
        int_place(a as int, b as int)
    }

    fn compare(&self, other: &u32) -> (r: Place) {
        if *self < *other {
            Place::Before
        } else if *self == *other {
            Place::Same
        } else {
            Place::After
        }
    }

    proof fn lemma_same(a: u32, b: u32) {
    }

    proof fn lemma_flip(a: u32, b: u32) {
    }

    proof fn lemma_transitive(a: u32, b: u32, c: u32) {
    }
}

impl Ordered for u64 {
    open spec fn place(a: u64, b: u64) -> Place {
        int_place(a as int, b as int)
    }

    fn compare(&self, other: &u64) -> (r: Place) {
        if *self < *other {
            Place::Before
        } else if *self == *other {
            Place::Same
        } else {
            Place::After
        }
    }

    proof fn lemma_same(a: u64, b: u64) {
    }

    proof fn lemma_flip(a: u64, b: u64) {
    }

    proof fn lemma_transitive(a: u64, b: u64, c: u64) {
    }
}

impl Ordered for i8 {
    open spec fn place(a: i8, b: i8) -> Place {
        int_place(a as int, b as int)
    }

    fn compare(&self, other: &i8) -> (r: Place) {
        if *self < *other {
            Place::Before
        } else if *self == *other {
            Place::Same
        } else {
            Place::After
        }
    }

    proof fn lemma_same(a: i8, b: i8) {
    }

    proof fn lemma_flip(a: i8, b: i8) {
    }

    proof fn lemma_transitive(a: i8, b: i8, c: i8) {
    }
}

impl Ordered for i16 {
    open spec fn place(a: i16, b: i16) -> Place {
        int_place(a as int, b as int)
    }

    fn compare(&self, other: &i16) -> (r: Place) {
        if *self < *other {
            Place::Before
        } else if *self == *other {
            Place::Same
        } else {
            Place::After
        }
    }

    proof fn lemma_same(a: i16, b: i16) {
    }

    proof fn lemma_flip(a: i16, b: i16) {
    }

    proof fn lemma_transitive(a: i16, b: i16, c: i16) {
    }
}

impl Ordered for i32 {
    open spec fn place(a: i32, b: i32) -> Place {
        int_place(a as int, b as int)
    }

    fn compare(&self, other: &i32) -> (r: Place) {
        if *self < *other {
            Place::Before
        } else if *self == *other {
            Place::Same
        } else {
            Place::After
        }
    }

    proof fn lemma_same(a: i32, b: i32) {
    }

    proof fn lemma_flip(a: i32, b: i32) {
    }

    proof fn lemma_transitive(a: i32, b: i32, c: i32) {
    }
}

impl Ordered for i64 {
    open spec fn place(a: i64, b: i64) -> Place {
        int_place(a as int, b as int)
    }

    fn compare(&self, other: &i64) -> (r: Place) {
        if *self < *other {
            Place::Before
        } else if *self == *other {
            Place::Same
        } else {
            Place::After
        }
    }

    proof fn lemma_same(a: i64, b: i64) {
    }

    proof fn lemma_flip(a: i64, b: i64) {
    }

    proof fn lemma_transitive(a: i64, b: i64, c: i64) {
    }
}

impl Ordered for usize {
    open spec fn place(a: usize, b: usize) -> Place {
        int_place(a as int, b as int)
    }

    fn compare(&self, other: &usize) -> (r: Place) {
        if *self < *other {
            Place::Before
        } else if *self == *other {
            Place::Same
        } else {
            Place::After
        }
    }

    proof fn lemma_same(a: usize, b: usize) {
    }

    proof fn lemma_flip(a: usize, b: usize) {
    }

    proof fn lemma_transitive(a: usize, b: usize, c: usize) {
    }
}

impl Ordered for isize {
    open spec fn place(a: isize, b: isize) -> Place {
        int_place(a as int, b as int)
    }

    fn compare(&self, other: &isize) -> (r: Place) {
        if *self < *other {
            Place::Before
        } else if *self == *other {
            Place::Same
        } else {
            Place::After
        }
    }

    proof fn lemma_same(a: isize, b: isize) {
    }

    proof fn lemma_flip(a: isize, b: isize) {
    }

    proof fn lemma_transitive(a: isize, b: isize, c: isize) {
    }
}

} // verus!
