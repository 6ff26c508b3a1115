//! Fields that select one of a set of options that is fixed when the field
//! is made.

use crate::errors::{Error, ErrorView, FieldResult, ParseFailure, ParseFailureView, SelectError};
use crate::field::UserInput;
use crate::order::Ordered;
use crate::pairs::{
    keys, lemma_insert_contains, lemma_pairs_insert, lemma_pairs_update, lemma_rising_insert,
    locate, pairs_map, rising, views,
};
use crate::text::TextValue;
use vstd::prelude::*;

verus! {

/// What parsing the text `raw` as one of `options` gives: the value that the
/// text reads as where it is among the options, and a failure that names the
/// text where it is not.
pub open spec fn select_outcome<O: TextValue>(raw: Seq<char>, options: Seq<O::V>) -> Result<
    O::V,
    ErrorView,
> {
    match O::read(raw) {
        Err(cause) => Err(ErrorView::Parse(cause)),
        Ok(value) => if options.contains(value) {
            Ok(value)
        } else {
            Err(ErrorView::Parse(ParseFailureView::Select(raw)))
        },
    }
}

/// `options` as a set that is kept in order.
fn in_order<O: Ordered>(options: Vec<O>) -> (r: Vec<O>)
    ensures
        rising::<O>(views(r@)),
        forall|value: O::V| views(r@).contains(value) <==> views(options@).contains(value),
{
    let ghost all = options@;
    let mut kept: Vec<O> = Vec::new();
    for option in it: options
        invariant
            it.seq() == all,
            rising::<O>(views(kept@)),
            forall|value: O::V|
                views(kept@).contains(value) <==> views(all.take(it.index())).contains(value),
    {
        let ghost before = views(kept@);
        let ghost seen = views(all.take(it.index()));
        let (at, found) = locate(&kept, &option);
        if !found {
            kept.insert(at, option);
        }
        proof {
            let after = views(kept@);
            let seen_now = views(all.take(it.index() + 1));
            assert(seen_now == seen.push(option@));
            if !found {
                assert(after == before.insert(at as int, option@));
                lemma_rising_insert::<O>(before, at as int, option@);
            }
            assert forall|value: O::V| after.contains(value) <==> seen_now.contains(value) by {
                lemma_insert_contains(seen, seen.len() as int, option@, value);
                assert(seen.insert(seen.len() as int, option@) == seen.push(option@));
                if !found {
                    lemma_insert_contains(before, at as int, option@, value);
                }
            }
        }
    }
    proof {
        assert(all.take(all.len() as int) == all);
    }
    kept
}

/// A field that selects one of a fixed set of values.
pub struct Select<O: Ordered> {
    input: String,
    options: Vec<O>,
}

/// A field that selects one of a fixed set of texts.
pub type BasicSelect = Select<String>;

impl<O: Ordered> Select<O> {
    /// The raw text that the field holds.
    pub closed spec fn raw(&self) -> Seq<char> {
        self.input@
    }

    /// The options: each once, in rising order.
    pub closed spec fn options(&self) -> Seq<O::V> {
        views(self.options@)
    }

    #[verifier::type_invariant]
    spec fn wf(self) -> bool {
        rising::<O>(views(self.options@))
    }

    /// What the field's text parses to.
    pub open spec fn reading(&self) -> Result<O::V, ErrorView> {
        select_outcome::<O>(self.raw(), self.options())
    }

    pub fn get_input(&self) -> (r: &str)
        ensures
            r@ == self.raw(),
    {
        self.input.as_str()
    }

    /// A field that shows `data` and offers the values of `options` as a
    /// set: each value once, in rising order.
    pub fn new(data: O, options: Vec<O>) -> (r: Select<O>)
        ensures
            r.raw() == O::written(data@),
            rising::<O>(r.options()),
            forall|value: O::V| r.options().contains(value) <==> views(options@).contains(value),
    {
        let options = in_order(options);
        Select { input: data.to_text(), options }
    }

    /// The options, in rising order.
    pub fn iter_options(&self) -> (r: &Vec<O>)
        ensures
            views(r@) == self.options(),
            rising::<O>(self.options()),
    {
        proof {
            use_type_invariant(self);
        }
        &self.options
    }
}

impl<O: Ordered> UserInput for Select<O> {
    type Output = O;

    type Input = String;

    open spec fn outcome(&self) -> Result<O::V, ErrorView> {
        self.reading()
    }

    open spec fn updated(&self, input: String, next: Self) -> bool {
        next.raw() == input@ && next.options() == self.options()
    }

    open spec fn can_show(&self, data: O) -> bool {
        true
    }

    open spec fn shows(&self, data: O, next: Self) -> bool {
        next.raw() == O::written(data@) && next.options() == self.options()
    }

    fn update(&mut self, input: String) {
        proof {
            use_type_invariant(&*self);
        }
        self.input = input;
    }

    fn parse(&self) -> (r: FieldResult<O>) {
        proof {
            use_type_invariant(self);
        }
        let parsed = match O::from_text(self.input.as_str()) {
            Ok(value) => value,
            Err(cause) => {
                return Err(Error::Parse(cause));
            },
        };
        let (_, found) = locate(&self.options, &parsed);
        if found {
            Ok(parsed)
        } else {
            Err(Error::Parse(ParseFailure::Select(SelectError::new(self.input.clone()))))
        }
    }

    fn set_value(&mut self, data: O) {
        proof {
            use_type_invariant(&*self);
        }
        self.input = data.to_text();
    }
}

/// The keys of `options` as plain values, each with its label.
pub open spec fn labelled<K: View, V>(options: Seq<(K, V)>) -> Seq<(K::V, V)> {
    Seq::new(options.len(), |i: int| (options[i].0@, options[i].1))
}

/// The keys with their labels.
spec fn zipped<K: View, V>(keys: Seq<K>, labels: Seq<V>) -> Seq<(K::V, V)> {
    Seq::new(keys.len(), |i: int| (keys[i]@, labels[i]))
}

/// A field that selects a key of a mapping from keys to labels. The mapping
/// may be made while the program runs, which is why a key counts by being in
/// it and not by its place.
pub struct RelationalSelect<K: Ordered, V> {
    input: String,
    keys: Vec<K>,
    labels: Vec<V>,
}

impl<K: Ordered, V> RelationalSelect<K, V> {
    /// The raw text that the field holds.
    pub closed spec fn raw(&self) -> Seq<char> {
        self.input@
    }

    /// The keys with their labels, in the rising order of the keys.
    pub closed spec fn entries(&self) -> Seq<(K::V, V)> {
        zipped(self.keys@, self.labels@)
    }

    /// The keys: each once, in rising order.
    pub open spec fn keys(&self) -> Seq<K::V> {
        keys(self.entries())
    }

    /// The label of each key.
    pub open spec fn mapping(&self) -> Map<K::V, V> {
        pairs_map(self.entries())
    }

    #[verifier::type_invariant]
    spec fn wf(self) -> bool {
        self.keys@.len() == self.labels@.len() && rising::<K>(views(self.keys@))
    }

    /// What the field's text parses to.
    pub open spec fn reading(&self) -> Result<K::V, ErrorView> {
        select_outcome::<K>(self.raw(), self.keys())
    }

    pub fn get_input(&self) -> (r: &str)
        ensures
            r@ == self.raw(),
    {
        self.input.as_str()
    }

    /// A field that holds the text `input` and offers the keys of `options`
    /// as a mapping: each key once, in rising order, with the label that
    /// comes last for it.
    pub fn new(input: String, options: Vec<(K, V)>) -> (r: RelationalSelect<K, V>)
        ensures
            r.raw() == input@,
            rising::<K>(r.keys()),
            r.mapping() == pairs_map(labelled(options@)),
    {
        let ghost all = options@;
        let mut keys: Vec<K> = Vec::new();
        let mut labels: Vec<V> = Vec::new();
        for option in it: options
            invariant
                it.seq() == all,
                keys@.len() == labels@.len(),
                rising::<K>(views(keys@)),
                pairs_map(zipped(keys@, labels@)) == pairs_map(labelled(all.take(it.index()))),
        {
            let ghost before = zipped(keys@, labels@);
            let ghost seen = labelled(all.take(it.index()));
            let (key, label) = option;
            proof {
                assert(crate::pairs::keys(before) == views(keys@));
                assert(labelled(all.take(it.index() + 1)) == seen.push((key@, label)));
                assert(seen.push((key@, label)).drop_last() == seen);
            }
            let (at, found) = locate(&keys, &key);
            if found {
                labels.set(at, label);
                proof {
                    lemma_pairs_update::<K, V>(before, at as int, label);
                    assert(zipped(keys@, labels@) == before.update(at as int, (key@, label)));
                }
            } else {
                keys.insert(at, key);
                labels.insert(at, label);
                proof {
                    let after = zipped(keys@, labels@);
                    assert(after == before.insert(at as int, (key@, label)));
                    assert forall|k: int| 0 <= k < before.len() implies (#[trigger] before[k]).0
                        != key@ by {
                        assert(crate::pairs::keys(before)[k] == before[k].0);
                    }
                    lemma_pairs_insert(before, at as int, (key@, label));
                    lemma_rising_insert::<K>(crate::pairs::keys(before), at as int, key@);
                    assert(views(keys@) == crate::pairs::keys(before).insert(at as int, key@));
                }
            }
        }
        proof {
            assert(all.take(all.len() as int) == all);
            assert(crate::pairs::keys(zipped(keys@, labels@)) == views(keys@));
        }
        RelationalSelect { input, keys, labels }
    }

    /// The keys with their labels, in the rising order of the keys.
    pub fn iter_options(&self) -> (r: Vec<(&K, &V)>)
        ensures
            r@.len() == self.entries().len(),
            forall|i: int|
                0 <= i < r@.len() ==> (#[trigger] r@[i]).0@ == self.entries()[i].0 && *r@[i].1
                    == self.entries()[i].1,
            rising::<K>(self.keys()),
    {
        proof {
            use_type_invariant(self);
            assert(self.keys() == views(self.keys@));
        }
        let mut pairs: Vec<(&K, &V)> = Vec::new();
        let mut i: usize = 0;
        while i < self.keys.len()
            invariant
                i <= self.keys.len(),
                self.keys@.len() == self.labels@.len(),
                pairs@.len() == i,
                forall|k: int|
                    0 <= k < i ==> (#[trigger] pairs@[k]).0@ == self.entries()[k].0 && *pairs@[k].1
                        == self.entries()[k].1,
            decreases self.keys.len() - i,
        {
            pairs.push((&self.keys[i], &self.labels[i]));
            i += 1;
        }
        pairs
    }
}

impl<K: Ordered, V> UserInput for RelationalSelect<K, V> {
    type Output = K;

    type Input = String;

    open spec fn outcome(&self) -> Result<K::V, ErrorView> {
        self.reading()
    }

    open spec fn updated(&self, input: String, next: Self) -> bool {
        next.raw() == input@ && next.entries() == self.entries()
    }

    open spec fn can_show(&self, data: K) -> bool {
        true
    }

    open spec fn shows(&self, data: K, next: Self) -> bool {
        next.raw() == K::written(data@) && next.entries() == self.entries()
    }

    fn update(&mut self, input: String) {
        proof {
            use_type_invariant(&*self);
        }
        self.input = input;
    }

    fn parse(&self) -> (r: FieldResult<K>) {
        proof {
            use_type_invariant(self);
            assert(self.keys() == views(self.keys@));
        }
        let key = match K::from_text(self.input.as_str()) {
            Ok(key) => key,
            Err(cause) => {
                return Err(Error::Parse(cause));
            },
        };
        let (_, found) = locate(&self.keys, &key);
        if found {
            Ok(key)
        } else {
            Err(Error::Parse(ParseFailure::Select(SelectError::new(self.input.clone()))))
        }
    }

    fn set_value(&mut self, data: K) {
        proof {
            use_type_invariant(&*self);
        }
        self.input = data.to_text();
    }
}

} // verus!
