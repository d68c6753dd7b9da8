//! Loops: what is walked, and the frame that each iteration runs in.

use vstd::prelude::*;
use crate::errors::{Error, ErrorModel};
use crate::renderer::stack_frame::{Bound, FrameKindModel, FrameModel, StackFrame};
use crate::template::opt_text;
use crate::value::{lemma_value_view, Entry, EntryModel, Value, ValueModel};

verus! {

/// One item of what a loop walks: a value, with its key when a mapping is
/// walked.
pub struct LoopItem {
    pub key: Option<Seq<char>>,
    pub value: ValueModel,
}

/// The longest source that a loop walks: positions are numbers.
pub open spec fn max_loop_length() -> nat {
    i64::MAX as nat
}

/// Item `i` of a sequence or a mapping.
pub open spec fn loop_item(source: ValueModel, i: int) -> LoopItem {
    match source {
        ValueModel::Sequence(items) => LoopItem { key: None, value: items[i] },
        ValueModel::Mapping(entries) => LoopItem {
            key: Some(entries[i].key),
            value: entries[i].value,
        },
        _ => LoopItem { key: None, value: ValueModel::Null },
    }
}

/// The items that a loop over `source` walks, in order: the items of a
/// sequence, or the entries of a mapping. A sequence is not walked by key and
/// value, and nothing else is walked at all.
pub open spec fn loop_items(source: ValueModel, key: Option<Seq<char>>) -> Result<
    Seq<LoopItem>,
    ErrorModel,
> {
    match source {
        ValueModel::Sequence(items) => if key is Some || items.len() > max_loop_length() {
            Err(ErrorModel::NotIterable(source.kind()))
        } else {
            Ok(Seq::new(items.len(), |i: int| loop_item(source, i)))
        },
        ValueModel::Mapping(entries) => if entries.len() > max_loop_length() {
            Err(ErrorModel::NotIterable(source.kind()))
        } else {
            Ok(Seq::new(entries.len(), |i: int| loop_item(source, i)))
        },
        _ => Err(ErrorModel::NotIterable(source.kind())),
    }
}

/// What `loop` stands for in iteration `index` of `length`: the position under
/// `index` and `index0`, whether the iteration is the first and the last, and
/// the number of iterations.
pub open spec fn loop_metadata(index: nat, length: nat) -> ValueModel {
    ValueModel::Mapping(
        seq![
            EntryModel { key: "index"@, value: ValueModel::Number(index as int) },
            EntryModel { key: "index0"@, value: ValueModel::Number(index as int) },
            EntryModel { key: "first"@, value: ValueModel::Bool(index == 0) },
            EntryModel { key: "last"@, value: ValueModel::Bool(index + 1 == length) },
            EntryModel { key: "length"@, value: ValueModel::Number(length as int) },
        ],
    )
}

/// The bindings of an iteration: `loop`, then the key under its name where one
/// is declared and the item has one, then the item under its name.
pub open spec fn loop_bindings(
    key: Option<Seq<char>>,
    item: Seq<char>,
    current: LoopItem,
    index: nat,
    length: nat,
) -> Seq<EntryModel> {
    let metadata = seq![EntryModel { key: "loop"@, value: loop_metadata(index, length) }];
    let keyed = match (key, current.key) {
        (Some(name), Some(k)) => metadata.push(EntryModel { key: name, value: ValueModel::String(k) }),
        _ => metadata,
    };
    keyed.push(EntryModel { key: item, value: current.value })
}

/// The frame that iteration `index` of `length` runs in.
pub open spec fn loop_frame(
    key: Option<Seq<char>>,
    item: Seq<char>,
    current: LoopItem,
    index: nat,
    length: nat,
) -> FrameModel {
    FrameModel {
        kind: FrameKindModel::ForLoop { index, length, key: current.key },
        bindings: loop_bindings(key, item, current, index, length),
    }
}

/// The number of iterations that a loop over `source` makes, or why it makes
/// none.
pub fn loop_length(source: &Value, key: &Option<String>) -> (r: Result<usize, Error>)
    ensures
        match r {
            Ok(n) => loop_items(source@, opt_text(*key)) matches Ok(items) && items.len() == n,
            Err(error) => loop_items(source@, opt_text(*key)) == Err::<Seq<LoopItem>, ErrorModel>(
                error@,
            ),
        },
{
    proof {
        lemma_value_view(*source);
    }
    let limit: u64 = 0x7fff_ffff_ffff_ffff;
    match source {
        Value::Sequence(items) => {
            if key.is_some() || items.len() as u64 > limit {
                Err(Error::NotIterable(source.kind()))
            } else {
                Ok(items.len())
            }
        },
        Value::Mapping(entries) => {
            if entries.len() as u64 > limit {
                Err(Error::NotIterable(source.kind()))
            } else {
                Ok(entries.len())
            }
        },
        _ => Err(Error::NotIterable(source.kind())),
    }
}

/// One item of what a loop walks, as the loop holds it.
pub struct CurrentItem<'a> {
    pub key: Option<String>,
    pub value: Bound<'a>,
}

impl<'a> View for CurrentItem<'a> {
    type V = LoopItem;

    open spec fn view(&self) -> LoopItem {
        LoopItem { key: opt_text(self.key), value: self.value@ }
    }
}

/// Item `i` of a sequence with no key, or of a mapping with its key.
fn item_of<'v>(source: &'v Value, i: usize) -> (r: (Option<&'v String>, &'v Value))
    requires
        loop_items(source@, None) matches Ok(items) && i < items.len(),
    ensures
        r.1@ == loop_item(source@, i as int).value,
        match r.0 {
            Some(k) => loop_item(source@, i as int).key == Some(k@),
            None => loop_item(source@, i as int).key is None,
        },
{
    proof {
        lemma_value_view(*source);
    }
    match source {
        Value::Sequence(items) => (None, &items[i]),
        Value::Mapping(entries) => (Some(&entries[i].key), &entries[i].value),
        _ => (None, source),
    }
}

/// Item `i` of the source of a loop: borrowed where the source is, a copy where
/// the source is the loop's own.
pub fn item_at<'a>(source: &Bound<'a>, i: usize) -> (r: CurrentItem<'a>)
    requires
        loop_items(source@, None) matches Ok(items) && i < items.len(),
    ensures
        r@ == loop_item(source@, i as int),
{
    match source {
        Bound::Borrowed(v) => {
            let whole: &'a Value = *v;
            let (key, value) = item_of(whole, i);
            let key = match key {
                Some(k) => Some(k.clone()),
                None => None,
            };
            CurrentItem { key, value: Bound::Borrowed(value) }
        },
        Bound::Owned(v) => {
            let (key, value) = item_of(v, i);
            let key = match key {
                Some(k) => Some(k.clone()),
                None => None,
            };
            CurrentItem { key, value: Bound::Owned(value.clone()) }
        },
    }
}

/// The value that `loop` stands for in iteration `index` of `length`.
pub fn metadata(index: usize, length: usize) -> (r: Value)
    requires
        index < length <= max_loop_length(),
    ensures
        r@ == loop_metadata(index as nat, length as nat),
{
    let mut entries: Vec<Entry> = Vec::new();
    entries.push(Entry { key: "index".to_owned(), value: Value::Number(index as i64) });
    entries.push(Entry { key: "index0".to_owned(), value: Value::Number(index as i64) });
    entries.push(Entry { key: "first".to_owned(), value: Value::Bool(index == 0) });
    entries.push(Entry { key: "last".to_owned(), value: Value::Bool(index + 1 == length) });
    entries.push(Entry { key: "length".to_owned(), value: Value::Number(length as i64) });
    let r = Value::Mapping(entries);
    proof {
        lemma_value_view(r);
        assert(r@->Mapping_0 =~= loop_metadata(index as nat, length as nat)->Mapping_0);
    }
    r
}

/// The frame that iteration `index` of `length` runs in.
pub fn iteration_frame<'a>(
    key: &Option<String>,
    item: &String,
    current: CurrentItem<'a>,
    index: usize,
    length: usize,
) -> (r: StackFrame<'a>)
    requires
        index < length <= max_loop_length(),
    ensures
        r@ == loop_frame(opt_text(*key), item@, current@, index as nat, length as nat),
{
    let entry_key = match &current.key {
        Some(k) => Some(k.clone()),
        None => None,
    };
    let mut frame = StackFrame::for_loop(index, length, entry_key);
    frame.bind("loop".to_owned(), Bound::Owned(metadata(index, length)));
    match (key, &current.key) {
        (Some(name), Some(k)) => {
            frame.bind(name.clone(), Bound::Owned(Value::String(k.clone())));
        },
        _ => {},
    }
    frame.bind(item.clone(), current.value);
    proof {
        assert(frame@.bindings =~= loop_bindings(
            opt_text(*key),
            item@,
            current@,
            index as nat,
            length as nat,
        ));
    }
    frame
}

} // verus!
