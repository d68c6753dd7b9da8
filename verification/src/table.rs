//! Name-keyed tables. Every table of this crate (a mapping's entries, a frame's
//! bindings, a registry, a macro table) is an ordered list of named items in
//! which the last item of a name is the one that counts.

use vstd::prelude::*;

verus! {

/// Index of the last name in `names` that equals `name`.
pub open spec fn find_last(names: Seq<Seq<char>>, name: Seq<char>) -> Option<int>
    decreases names.len(),
{
    if names.len() == 0 {
        None
    } else if names.last() == name {
        Some(names.len() - 1)
    } else {
        find_last(names.drop_last(), name)
    }
}

/// `find_last` returns an index at which the name stands, with no later occurrence,
/// and returns nothing exactly when the name does not occur.
pub proof fn lemma_find_last(names: Seq<Seq<char>>, name: Seq<char>)
    ensures
        match find_last(names, name) {
            Some(i) => 0 <= i < names.len() && names[i] == name && forall|j: int|
                i < j < names.len() ==> names[j] != name,
            None => forall|j: int| 0 <= j < names.len() ==> names[j] != name,
        },
    decreases names.len(),
{
    if names.len() > 0 && names.last() != name {
        let front = names.drop_last();
        lemma_find_last(front, name);
        assert forall|j: int| 0 <= j < front.len() implies front[j] == names[j] by {}
    }
}

/// An item that is found by its name.
pub trait Named {
    /// The characters of the item's name.
    spec fn name_view(&self) -> Seq<char>;

    /// The item's name.
    fn name(&self) -> (r: &String)
        ensures
            r@ == self.name_view(),
    ;
}

/// The names of a list of items, in order.
pub open spec fn names_of<T: Named>(items: Seq<T>) -> Seq<Seq<char>> {
    Seq::new(items.len(), |i: int| items[i].name_view())
}

/// Position of the item that `name` stands for in `items`, if there is one.
pub fn position<T: Named>(items: &Vec<T>, name: &String) -> (r: Option<usize>)
    ensures
        match r {
            Some(i) => i < items.len() && find_last(names_of(items@), name@) == Some(i as int)
                && items@[i as int].name_view() == name@,
            None => find_last(names_of(items@), name@) is None && forall|j: int|
                0 <= j < items.len() ==> (#[trigger] items@[j]).name_view() != name@,
        },
{
    let ghost names = names_of(items@);
    proof {
        lemma_find_last(names, name@);
        assert forall|j: int| 0 <= j < items.len() implies names[j] == (#[trigger] items@[j]).name_view() by {}
    }
    let mut i: usize = items.len();
    proof {
        assert(names.take(i as int) =~= names);
    }
    while i > 0
        invariant
            i <= items.len(),
            names == names_of(items@),
            find_last(names, name@) == find_last(names.take(i as int), name@),
        decreases i,
    {
        i -= 1;
        proof {
            assert(names.take(i + 1).drop_last() =~= names.take(i as int));
        }
        if *items[i].name() == *name {
            return Some(i);
        }
    }
    proof {
        assert(names.take(0).len() == 0);
    }
    None
}

} // verus!
