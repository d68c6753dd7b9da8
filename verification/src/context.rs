//! The data that a render reads.

use vstd::prelude::*;
use crate::table::{find_last, names_of, position};
use crate::value::{entries_view, keys_of, Entry, EntryModel, Value, ValueModel};

verus! {

/// The value bound to `name` in a list of entries: that of the last entry of
/// this name.
pub open spec fn lookup_entry(entries: Seq<EntryModel>, name: Seq<char>) -> Option<ValueModel> {
    match find_last(keys_of(entries), name) {
        Some(i) => Some(entries[i].value),
        None => None,
    }
}

/// The entry of `entries` that `name` stands for.
pub fn find_entry<'a>(entries: &'a Vec<Entry>, name: &String) -> (r: Option<&'a Value>)
    ensures
        match r {
            Some(v) => lookup_entry(entries_view(entries@), name@) == Some(v@),
            None => lookup_entry(entries_view(entries@), name@) is None,
        },
{
    proof {
        assert(keys_of(entries_view(entries@)) =~= names_of(entries@));
    }
    match position(entries, name) {
        Some(i) => Some(&entries[i].value),
        None => None,
    }
}

/// The top-level variables of a render, by name. The renderer reads a context
/// and never writes to it.
pub struct Context {
    entries: Vec<Entry>,
}

impl View for Context {
    type V = Seq<EntryModel>;

    closed spec fn view(&self) -> Seq<EntryModel> {
        entries_view(self.entries@)
    }
}

impl Context {
    /// A context without variables.
    pub fn new() -> (r: Context)
        ensures
            r@ == Seq::<EntryModel>::empty(),
    {
        let r = Context { entries: Vec::new() };
        assert(r@ =~= Seq::<EntryModel>::empty());
        r
    }

    /// Binds `name` to `value`, in place of what it was bound to.
    pub fn insert(&mut self, name: &str, value: Value)
        ensures
            final(self)@ == old(self)@.push(EntryModel { key: name@, value: value@ }),
    {
        self.entries.push(Entry { key: name.to_owned(), value });
        assert(self@ =~= old(self)@.push(EntryModel { key: name@, value: value@ }));
    }

    /// The value bound to `name`.
    pub fn get(&self, name: &String) -> (r: Option<&Value>)
        ensures
            match r {
                Some(v) => lookup_entry(self@, name@) == Some(v@),
                None => lookup_entry(self@, name@) is None,
            },
    {
        find_entry(&self.entries, name)
    }
}

} // verus!
