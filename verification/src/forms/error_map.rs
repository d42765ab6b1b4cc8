//! The errors of a form, by the name of the field that reported them.

use vstd::prelude::*;
use vstd::hash_map::StringHashMap;
use crate::forms::{texts, FormValidationResult};

verus! {

/// The texts of the errors that a map stores under each name.
pub open spec fn error_texts(stored: Map<Seq<char>, FormValidationResult>) -> Map<
    Seq<char>,
    Seq<Seq<char>>,
> {
    Map::new(|name: Seq<char>| stored.contains_key(name), |name: Seq<char>| texts(stored[name]@))
}

/// A map from field names to the errors of the field of that name, kept in a
/// hash map. Errors stored under a name replace what was stored there.
pub struct ErrorMap {
    entries: StringHashMap<FormValidationResult>,
}

impl View for ErrorMap {
    type V = Map<Seq<char>, Seq<Seq<char>>>;

    closed spec fn view(&self) -> Map<Seq<char>, Seq<Seq<char>>> {
        error_texts(self.entries@)
    }
}

impl ErrorMap {
    /// An empty map.
    pub fn new() -> (m: ErrorMap)
        ensures
            m@ == Map::<Seq<char>, Seq<Seq<char>>>::empty(),
    {
        let m = ErrorMap { entries: StringHashMap::new() };
        assert(m@ =~= Map::empty());
        m
    }

    /// Forgets every entry.
    pub fn clear(&mut self)
        ensures
            final(self)@ == Map::<Seq<char>, Seq<Seq<char>>>::empty(),
    {
        self.entries.clear();
        assert(self@ =~= Map::empty());
    }

    /// Says whether the map holds no entry.
    pub fn is_empty(&self) -> (empty: bool)
        ensures
            empty == (self@ == Map::<Seq<char>, Seq<Seq<char>>>::empty()),
    {
        let empty = self.entries.is_empty();
        proof {
            if empty {
                assert(self@ =~= Map::empty());
            } else {
                let name = choose|name: Seq<char>| self.entries@.contains_key(name);
                assert(self.entries@.dom().contains(name));
                assert(self@.contains_key(name));
            }
        }
        empty
    }

    /// Stores `errors` under `name`, in place of what was stored there.
    pub fn insert(&mut self, name: String, errors: FormValidationResult)
        ensures
            final(self)@ == old(self)@.insert(name@, texts(errors@)),
    {
        let ghost key = name@;
        let ghost value = texts(errors@);
        self.entries.insert(name, errors);
        assert(self@ =~= old(self)@.insert(key, value));
    }

    /// The errors stored under `name`, if any are.
    pub fn get(&self, name: &str) -> (errors: Option<&FormValidationResult>)
        ensures
            match errors {
                Some(e) => self@.contains_key(name@) && texts(e@) == self@[name@],
                None => !self@.contains_key(name@),
            },
    {
        self.entries.get(name)
    }
}

} // verus!
