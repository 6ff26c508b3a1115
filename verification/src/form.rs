//! A form's result: the errors of its fields, keyed by field name.

use crate::errors::{join, joined, texts, Error, ErrorView, FieldResult};
use crate::pairs::{
    keys, lemma_pairs_dom, lemma_pairs_index, lemma_pairs_insert, lemma_pairs_update,
    lemma_rising_insert, lemma_rising_len, locate, pairs_map, rising, views,
};
use vstd::prelude::*;

verus! {

/// Whether the names of `entries` rise from each entry to the next, in the
/// order of texts.
pub open spec fn ascending(entries: Seq<(Seq<char>, ErrorView)>) -> bool {
    rising::<String>(keys(entries))
}

/// The line for one field: its name, a colon and the error's sentence.
pub open spec fn entry_line(entry: (Seq<char>, ErrorView)) -> Seq<char> {
    entry.0 + ": "@ + entry.1.message()
}

/// The lines of `entries`, in order.
pub open spec fn entry_lines(entries: Seq<(Seq<char>, ErrorView)>) -> Seq<Seq<char>> {
    Seq::new(entries.len(), |i: int| entry_line(entries[i]))
}

/// The names with their errors, as plain values.
spec fn entries_of(names: Seq<String>, errors: Seq<Error>) -> Seq<(Seq<char>, ErrorView)> {
    Seq::new(names.len(), |i: int| (names[i]@, errors[i]@))
}

/// The errors of a form's fields. A field's name is in it if and only if an
/// error was recorded for that field; a field that parsed well is absent.
#[derive(Debug)]
pub struct FormError {
    names: Vec<String>,
    errors: Vec<Error>,
}

impl View for FormError {
    type V = Map<Seq<char>, ErrorView>;

    /// The error of each field that has one, by the field's name.
    open spec fn view(&self) -> Map<Seq<char>, ErrorView> {
        pairs_map(self.entries())
    }
}

/// What a form's parse returns.
pub type FormResult<T> = Result<T, FormError>;

impl FormError {
    /// The recorded names and errors, in the order of the names. That order
    /// leaves no choice: the map fixes the entries.
    pub closed spec fn entries(&self) -> Seq<(Seq<char>, ErrorView)> {
        entries_of(self.names@, self.errors@)
    }

    #[verifier::type_invariant]
    spec fn wf(self) -> bool {
        self.names@.len() == self.errors@.len() && ascending(self.entries())
    }

    /// The sentence that lists the errors in the order of the fields' names:
    /// one line for each field, separated by a comma and a space.
    pub open spec fn message(&self) -> Seq<char> {
        joined(entry_lines(self.entries()), ", "@)
    }

    pub fn new() -> (r: FormError)
        ensures
            r.entries() == Seq::<(Seq<char>, ErrorView)>::empty(),
            r@ == Map::<Seq<char>, ErrorView>::empty(),
    {
        FormError { names: Vec::new(), errors: Vec::new() }
    }

    pub fn is_empty(&self) -> (r: bool)
        ensures
            r == (self@ == Map::<Seq<char>, ErrorView>::empty()),
            r == (self.entries().len() == 0),
    {
        proof {
            use_type_invariant(self);
            let entries = self.entries();
            if entries.len() > 0 {
                assert(self@.dom().contains(entries.last().0));
            }
        }
        self.errors.is_empty()
    }

    /// The number of fields that have an error.
    pub fn len(&self) -> (r: usize)
        ensures
            r == self.entries().len(),
            r == self@.dom().len(),
            ascending(self.entries()),
    {
        proof {
            use_type_invariant(self);
            lemma_rising_len::<String, ErrorView>(self.entries());
        }
        self.errors.len()
    }

    /// The error recorded for `field`; `None` where the field has none.
    pub fn get(&self, field: &str) -> (r: Option<&Error>)
        ensures
            match r {
                Some(error) => self@.dom().contains(field@) && self@[field@] == error@,
                None => !self@.dom().contains(field@),
            },
    {
        proof {
            use_type_invariant(self);
            lemma_pairs_dom(self.entries(), field@);
            assert(keys(self.entries()) == views(self.names@));
        }
        let name = field.to_owned();
        let (at, found) = locate(&self.names, &name);
        if found {
            proof {
                lemma_pairs_index::<String, ErrorView>(self.entries(), at as int);
            }
            Some(&self.errors[at])
        } else {
            proof {
                let entries = self.entries();
                assert forall|k: int| 0 <= k < entries.len() implies (#[trigger] entries[k]).0
                    != field@ by {
                    assert(views(self.names@)[k] == entries[k].0);
                }
            }
            None
        }
    }

    /// Records `err` for `field`, in place of an error that the field had.
    /// The entries stay in the order of their names.
    pub fn add_error(&mut self, field: &'static str, err: Error)
        ensures
            final(self)@ == old(self)@.insert(field@, err@),
            ascending(final(self).entries()),
    {
        proof {
            use_type_invariant(&*self);
            assert(keys(self.entries()) == views(self.names@));
        }
        let ghost before = self.entries();
        let name = field.to_owned();
        let (at, found) = locate(&self.names, &name);
        let mut taken = FormError::new();
        std::mem::swap(self, &mut taken);
        let FormError { mut names, mut errors } = taken;
        if found {
            errors.set(at, err);
            proof {
                lemma_pairs_update::<String, ErrorView>(before, at as int, err@);
                assert(entries_of(names@, errors@) == before.update(at as int, (field@, err@)));
            }
        } else {
            names.insert(at, name);
            errors.insert(at, err);
            proof {
                let after = entries_of(names@, errors@);
                assert(after == before.insert(at as int, (field@, err@)));
                assert forall|k: int| 0 <= k < before.len() implies (#[trigger] before[k]).0
                    != field@ by {
                    assert(keys(before)[k] == before[k].0);
                }
                lemma_pairs_insert(before, at as int, (field@, err@));
                lemma_rising_insert::<String>(keys(before), at as int, field@);
                assert(keys(after) == keys(before).insert(at as int, field@));
            }
        }
        *self = FormError { names, errors };
    }

    /// Records the error of `result`, if it is one, for `field`; a result
    /// that is a value changes nothing.
    pub fn add_result<T>(&mut self, field: &'static str, result: FieldResult<T>)
        ensures
            match result {
                Ok(_) => final(self)@ == old(self)@ && final(self).entries() == old(
                    self,
                ).entries(),
                Err(error) => final(self)@ == old(self)@.insert(field@, error@),
            },
            ascending(final(self).entries()),
    {
        proof {
            use_type_invariant(&*self);
        }
        if let Err(error) = result {
            self.add_error(field, error);
        }
    }

    pub fn to_string(&self) -> (r: String)
        ensures
            r@ == self.message(),
            ascending(self.entries()),
    {
        proof {
            use_type_invariant(self);
        }
        let mut lines: Vec<String> = Vec::new();
        let mut i: usize = 0;
        while i < self.errors.len()
            invariant
                i <= self.errors.len(),
                self.names@.len() == self.errors@.len(),
                lines@.len() == i,
                forall|k: int| 0 <= k < i ==> lines@[k]@ == entry_line(self.entries()[k]),
            decreases self.errors.len() - i,
        {
            let mut line = self.names[i].clone();
            line.append(": ");
            let issue = self.errors[i].to_string();
            line.append(issue.as_str());
            lines.push(line);
            i += 1;
        }
        assert(texts(lines@) == entry_lines(self.entries()));
        join(lines, ", ")
    }
}

/// A form: named fields that are updated one at a time and parsed together.
/// `parse` attempts every field, whatever the fields before it gave, and
/// succeeds only where none of them has an error.
pub trait Form: Sized {
    type Msg;

    type Output;

    fn update(&mut self, input: Self::Msg);

    fn parse(&self) -> FormResult<Self::Output>;
}

} // verus!
