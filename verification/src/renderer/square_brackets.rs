//! Access into values: one step by a key, and a path of such steps.

use vstd::prelude::*;
use crate::context::{find_entry, lookup_entry};
use crate::errors::{Error, ErrorModel};
use crate::renderer::stack_frame::Bound;
use crate::value::{lemma_value_view, Value, ValueModel};

verus! {

/// The part of `current` that `key` selects: the value under a string key of a
/// mapping, the item at a position of a sequence. A mapping has nothing under a
/// key that is no string, a sequence is not indexed by anything but a number,
/// and a value of any other kind has no parts.
pub open spec fn index_value(current: ValueModel, key: ValueModel) -> Result<ValueModel, ErrorModel> {
    match current {
        ValueModel::Mapping(entries) => match key {
            ValueModel::String(name) => match lookup_entry(entries, name) {
                Some(v) => Ok(v),
                None => Err(ErrorModel::KeyNotFound),
            },
            _ => Err(ErrorModel::KeyNotFound),
        },
        ValueModel::Sequence(items) => match key {
            ValueModel::Number(n) => if 0 <= n < items.len() {
                Ok(items[n])
            } else {
                Err(ErrorModel::IndexOutOfRange)
            },
            _ => Err(ErrorModel::NotIndexable(current.kind())),
        },
        _ => Err(ErrorModel::NotIndexable(current.kind())),
    }
}

/// The part of `current` that the keys select, one after the other.
pub open spec fn walk(current: ValueModel, keys: Seq<ValueModel>) -> Result<ValueModel, ErrorModel>
    decreases keys.len(),
{
    if keys.len() == 0 {
        Ok(current)
    } else {
        match index_value(current, keys[0]) {
            Ok(v) => walk(v, keys.drop_first()),
            Err(error) => Err(error),
        }
    }
}

/// A key of one step: the name of a static accessor, or the value of a dynamic
/// one.
pub enum Key<'a> {
    Name(&'a String),
    Computed(Bound<'a>),
}

impl<'a> View for Key<'a> {
    type V = ValueModel;

    open spec fn view(&self) -> ValueModel {
        match self {
            Key::Name(name) => ValueModel::String(name@),
            Key::Computed(v) => v@,
        }
    }
}

/// The models of a list of keys.
pub open spec fn keys_view<'a>(keys: Seq<Key<'a>>) -> Seq<ValueModel> {
    Seq::new(keys.len(), |i: int| keys[i]@)
}

/// What a reference to a value or a failure denotes.
pub open spec fn found_view(r: Result<&Value, Error>) -> Result<ValueModel, ErrorModel> {
    match r {
        Ok(v) => Ok(v@),
        Err(error) => Err(error@),
    }
}

/// What a bound value or a failure denotes.
pub open spec fn bound_view<'a>(r: Result<Bound<'a>, Error>) -> Result<ValueModel, ErrorModel> {
    match r {
        Ok(v) => Ok(v@),
        Err(error) => Err(error@),
    }
}

/// The part of `current` that a string key selects.
fn index_by_name<'v>(current: &'v Value, name: &String) -> (r: Result<&'v Value, Error>)
    ensures
        found_view(r) == index_value(current@, ValueModel::String(name@)),
{
    proof {
        lemma_value_view(*current);
    }
    match current {
        Value::Mapping(entries) => match find_entry(entries, name) {
            Some(v) => Ok(v),
            None => Err(Error::KeyNotFound),
        },
        _ => Err(Error::NotIndexable(current.kind())),
    }
}

/// The part of `current` that `key` selects.
pub fn index<'v>(current: &'v Value, key: &Value) -> (r: Result<&'v Value, Error>)
    ensures
        found_view(r) == index_value(current@, key@),
{
    proof {
        lemma_value_view(*current);
    }
    match key {
        Value::String(name) => index_by_name(current, name),
        Value::Number(n) => match current {
            Value::Sequence(items) => {
                if 0 <= *n && (*n as u64) < (items.len() as u64) {
                    Ok(&items[*n as usize])
                } else {
                    Err(Error::IndexOutOfRange)
                }
            },
            Value::Mapping(_) => Err(Error::KeyNotFound),
            _ => Err(Error::NotIndexable(current.kind())),
        },
        _ => match current {
            Value::Mapping(_) => Err(Error::KeyNotFound),
            _ => Err(Error::NotIndexable(current.kind())),
        },
    }
}

/// The part of `current` that one key of a path selects.
fn step<'v, 'a>(current: &'v Value, key: &Key<'a>) -> (r: Result<&'v Value, Error>)
    ensures
        found_view(r) == index_value(current@, key@),
{
    match key {
        Key::Name(name) => index_by_name(current, name),
        Key::Computed(v) => index(current, v.get()),
    }
}

/// The part of `root` that the keys select, one after the other.
pub fn walk_keys<'v, 'a>(root: &'v Value, keys: &Vec<Key<'a>>) -> (r: Result<&'v Value, Error>)
    ensures
        found_view(r) == walk(root@, keys_view(keys@)),
{
    let ghost models = keys_view(keys@);
    let mut current: &'v Value = root;
    let mut i: usize = 0;
    proof {
        assert(models.skip(0) =~= models);
    }
    while i < keys.len()
        invariant
            i <= keys.len(),
            models == keys_view(keys@),
            walk(root@, models) == walk(current@, models.skip(i as int)),
        decreases keys.len() - i,
    {
        proof {
            assert(models.skip(i as int).drop_first() =~= models.skip(i + 1));
        }
        match step(current, &keys[i]) {
            Ok(next) => {
                current = next;
            },
            Err(error) => {
                return Err(error);
            },
        }
        i += 1;
    }
    Ok(current)
}

} // verus!
