//! The values that flow through evaluation, their mathematical model and their
//! rendering as text.

use vstd::prelude::*;
use crate::table::Named;
use crate::utils::push_char;

verus! {

/// The kind of a value, as errors report it.
#[derive(Clone, Copy, Debug, PartialEq, Eq, Structural)]
pub enum ValueKind {
    Null,
    Bool,
    Number,
    String,
    Sequence,
    Mapping,
}

/// What a `Value` denotes: a tree over integers, texts and ordered collections.
pub enum ValueModel {
    Null,
    Bool(bool),
    Number(int),
    String(Seq<char>),
    Sequence(Seq<ValueModel>),
    Mapping(Seq<EntryModel>),
}

/// What an `Entry` denotes.
pub struct EntryModel {
    pub key: Seq<char>,
    pub value: ValueModel,
}

/// One entry of a mapping: a key and the value bound to it.
#[derive(Debug, PartialEq, Eq)]
pub struct Entry {
    pub key: String,
    pub value: Value,
}

/// A datum: null, a boolean, a number, a string, an ordered sequence or an
/// ordered mapping with string keys.
#[derive(Debug, PartialEq, Eq)]
pub enum Value {
    Null,
    Bool(bool),
    Number(i64),
    String(String),
    Sequence(Vec<Value>),
    Mapping(Vec<Entry>),
}

impl ValueModel {
    /// The kind of this value.
    pub open spec fn kind(self) -> ValueKind {
        match self {
            ValueModel::Null => ValueKind::Null,
            ValueModel::Bool(_) => ValueKind::Bool,
            ValueModel::Number(_) => ValueKind::Number,
            ValueModel::String(_) => ValueKind::String,
            ValueModel::Sequence(_) => ValueKind::Sequence,
            ValueModel::Mapping(_) => ValueKind::Mapping,
        }
    }
}

/// The keys of a mapping's entries, in order.
pub open spec fn keys_of(entries: Seq<EntryModel>) -> Seq<Seq<char>> {
    Seq::new(entries.len(), |i: int| entries[i].key)
}

impl View for Value {
    type V = ValueModel;

    open spec fn view(&self) -> ValueModel
        decreases self,
    {
        match self {
            Value::Null => ValueModel::Null,
            Value::Bool(b) => ValueModel::Bool(*b),
            Value::Number(n) => ValueModel::Number(*n as int),
            Value::String(s) => ValueModel::String(s@),
            Value::Sequence(items) => ValueModel::Sequence(
                Seq::new(
                    items@.len(),
                    |i: int|
                        if 0 <= i < items@.len() {
                            items@[i].view()
                        } else {
                            ValueModel::Null
                        },
                ),
            ),
            Value::Mapping(entries) => ValueModel::Mapping(
                Seq::new(
                    entries@.len(),
                    |i: int|
                        if 0 <= i < entries@.len() {
                            EntryModel { key: entries@[i].key@, value: entries@[i].value.view() }
                        } else {
                            EntryModel { key: Seq::empty(), value: ValueModel::Null }
                        },
                ),
            ),
        }
    }
}

impl View for Entry {
    type V = EntryModel;

    open spec fn view(&self) -> EntryModel {
        EntryModel { key: self.key@, value: self.value@ }
    }
}

/// The model of a list of values.
pub open spec fn values_view(items: Seq<Value>) -> Seq<ValueModel> {
    Seq::new(items.len(), |i: int| items[i]@)
}

/// The model of a list of entries.
pub open spec fn entries_view(entries: Seq<Entry>) -> Seq<EntryModel> {
    Seq::new(entries.len(), |i: int| entries[i]@)
}

/// The view of a sequence is the list of its items' views; that of a mapping the
/// list of its entries' views.
pub proof fn lemma_value_view(v: Value)
    ensures
        v matches Value::Sequence(items) ==> v@ == ValueModel::Sequence(values_view(items@)),
        v matches Value::Mapping(entries) ==> v@ == ValueModel::Mapping(entries_view(entries@)),
{
    match v {
        Value::Sequence(items) => {
            assert(v@->Sequence_0 =~= values_view(items@));
        },
        Value::Mapping(entries) => {
            assert(v@->Mapping_0 =~= entries_view(entries@));
        },
        _ => {},
    }
}

impl Named for Entry {
    open spec fn name_view(&self) -> Seq<char> {
        self.key@
    }

    fn name(&self) -> (r: &String) {
        &self.key
    }
}

impl Clone for Entry {
    fn clone(&self) -> (r: Entry)
        ensures
            r@ == self@,
        decreases self,
    {
        Entry { key: self.key.clone(), value: self.value.clone() }
    }
}

impl Clone for Value {
    fn clone(&self) -> (r: Value)
        ensures
            r@ == self@,
        decreases self,
    {
        proof {
            lemma_value_view(*self);
        }
        match self {
            Value::Null => Value::Null,
            Value::Bool(b) => Value::Bool(*b),
            Value::Number(n) => Value::Number(*n),
            Value::String(s) => Value::String(s.clone()),
            Value::Sequence(items) => {
                let mut copy: Vec<Value> = Vec::new();
                let mut i: usize = 0;
                while i < items.len()
                    invariant
                        i <= items.len(),
                        copy@.len() == i,
                        self is Sequence,
                        self->Sequence_0 == *items,
                        forall|j: int| 0 <= j < i ==> copy@[j]@ == items@[j]@,
                    decreases items.len() - i,
                {
                    proof {
                        assert(decreases_to!(self => self->Sequence_0));
                        assert(decreases_to!(*items => items[i as int]));
                    }
                    copy.push(items[i].clone());
                    i += 1;
                }
                let r = Value::Sequence(copy);
                proof {
                    lemma_value_view(r);
                    assert(values_view(copy@) =~= values_view(items@));
                }
                r
            },
            Value::Mapping(entries) => {
                let mut copy: Vec<Entry> = Vec::new();
                let mut i: usize = 0;
                while i < entries.len()
                    invariant
                        i <= entries.len(),
                        copy@.len() == i,
                        self is Mapping,
                        self->Mapping_0 == *entries,
                        forall|j: int| 0 <= j < i ==> copy@[j]@ == entries@[j]@,
                    decreases entries.len() - i,
                {
                    proof {
                        assert(decreases_to!(self => self->Mapping_0));
                        assert(decreases_to!(*entries => entries[i as int]));
                    }
                    copy.push(entries[i].clone());
                    i += 1;
                }
                let r = Value::Mapping(copy);
                proof {
                    lemma_value_view(r);
                    assert(entries_view(copy@) =~= entries_view(entries@));
                }
                r
            },
        }
    }
}

impl Value {
    /// The kind of this value.
    pub fn kind(&self) -> (k: ValueKind)
        ensures
            k == self@.kind(),
    {
        match self {
            Value::Null => ValueKind::Null,
            Value::Bool(_) => ValueKind::Bool,
            Value::Number(_) => ValueKind::Number,
            Value::String(_) => ValueKind::String,
            Value::Sequence(_) => ValueKind::Sequence,
            Value::Mapping(_) => ValueKind::Mapping,
        }
    }
}

/// The character that stands for a decimal digit.
pub open spec fn digit(d: int) -> char {
    if d == 0 {
        '0'
    } else if d == 1 {
        '1'
    } else if d == 2 {
        '2'
    } else if d == 3 {
        '3'
    } else if d == 4 {
        '4'
    } else if d == 5 {
        '5'
    } else if d == 6 {
        '6'
    } else if d == 7 {
        '7'
    } else if d == 8 {
        '8'
    } else {
        '9'
    }
}

/// The decimal digits of a natural number, most significant first.
pub open spec fn digits(n: nat) -> Seq<char>
    decreases n,
{
    if n < 10 {
        seq![digit(n as int)]
    } else {
        digits(n / 10).push(digit((n % 10) as int))
    }
}

/// The decimal notation of an integer, with a minus sign before a negative one.
pub open spec fn decimal(n: int) -> Seq<char> {
    if n < 0 {
        seq!['-'] + digits((-n) as nat)
    } else {
        digits(n as nat)
    }
}

/// The text that a value is written as in output: nothing for null, `true` or
/// `false`, decimal notation, the string itself, the items of a sequence in square
/// brackets separated by a comma and a space, and `[object]` for a mapping.
pub open spec fn render_value(v: ValueModel) -> Seq<char>
    decreases v, 0nat,
{
    match v {
        ValueModel::Null => Seq::empty(),
        ValueModel::Bool(b) => if b {
            seq!['t', 'r', 'u', 'e']
        } else {
            seq!['f', 'a', 'l', 's', 'e']
        },
        ValueModel::Number(n) => decimal(n),
        ValueModel::String(s) => s,
        ValueModel::Sequence(items) => seq!['['] + render_items(items, items.len()) + seq![']'],
        ValueModel::Mapping(_) => seq!['[', 'o', 'b', 'j', 'e', 'c', 't', ']'],
    }
}

/// The first `n` items of a sequence as text, separated by a comma and a space.
pub open spec fn render_items(items: Seq<ValueModel>, n: nat) -> Seq<char>
    decreases items, n,
{
    if n == 0 || n > items.len() {
        Seq::empty()
    } else if n == 1 {
        render_value(items[0])
    } else {
        render_items(items, (n - 1) as nat) + seq![',', ' '] + render_value(items[n - 1])
    }
}

/// The character that stands for the digit `d`.
fn digit_char(d: u64) -> (c: char)
    requires
        d < 10,
    ensures
        c == digit(d as int),
{
    if d == 0 {
        '0'
    } else if d == 1 {
        '1'
    } else if d == 2 {
        '2'
    } else if d == 3 {
        '3'
    } else if d == 4 {
        '4'
    } else if d == 5 {
        '5'
    } else if d == 6 {
        '6'
    } else if d == 7 {
        '7'
    } else if d == 8 {
        '8'
    } else {
        '9'
    }
}

/// Appends the decimal notation of `n` to `out`.
pub fn append_number(n: i64, out: &mut String)
    ensures
        final(out)@ == old(out)@ + decimal(n as int),
{
    let magnitude: u64 = if n < 0 {
        (-(n + 1)) as u64 + 1
    } else {
        n as u64
    };
    if n < 0 {
        push_char(out, '-');
    }
    let ghost start = out@;
    // The digits, least significant first.
    let mut reversed: Vec<char> = Vec::new();
    let mut rest: u64 = magnitude;
    reversed.push(digit_char(rest % 10));
    proof {
        assert(reversed@.reverse() =~= seq![digit((rest % 10) as int)]);
        if rest >= 10 {
            assert(digits(magnitude as nat) =~= digits((rest / 10) as nat) + reversed@.reverse());
        }
    }
    rest = rest / 10;
    while rest > 0
        invariant
            reversed@.len() > 0,
            rest > 0 ==> digits(magnitude as nat) == digits(rest as nat) + reversed@.reverse(),
            rest == 0 ==> digits(magnitude as nat) == reversed@.reverse(),
        decreases rest,
    {
        let ghost before = reversed@;
        reversed.push(digit_char(rest % 10));
        proof {
            assert(reversed@.reverse() =~= seq![digit((rest % 10) as int)] + before.reverse());
            if rest < 10 {
                assert(digits(magnitude as nat) =~= reversed@.reverse());
            } else {
                assert(digits(magnitude as nat) =~= digits((rest / 10) as nat)
                    + reversed@.reverse());
            }
        }
        rest = rest / 10;
    }
    let mut i: usize = reversed.len();
    while i > 0
        invariant
            i <= reversed.len(),
            out@ == start + reversed@.reverse().take(reversed.len() - i),
        decreases i,
    {
        i -= 1;
        push_char(out, reversed[i]);
        proof {
            let r = reversed@.reverse();
            let k = reversed.len() - i;
            assert(r.take(k) =~= r.take(k - 1).push(reversed@[i as int]));
        }
    }
    proof {
        assert(reversed@.reverse().take(reversed.len() as int) =~= reversed@.reverse());
        assert(out@ =~= old(out)@ + decimal(n as int));
    }
}

/// Appends the text of a value to `out`.
pub fn append_value(v: &Value, out: &mut String)
    ensures
        final(out)@ == old(out)@ + render_value(v@),
    decreases v,
{
    proof {
        lemma_value_view(*v);
    }
    match v {
        Value::Null => {
            assert(out@ =~= old(out)@ + render_value(v@));
        },
        Value::Bool(b) => {
            proof {
                reveal_strlit("true");
                reveal_strlit("false");
            }
            if *b {
                out.append("true");
            } else {
                out.append("false");
            }
            assert(out@ =~= old(out)@ + render_value(v@));
        },
        Value::Number(n) => append_number(*n, out),
        Value::String(s) => out.append(s.as_str()),
        Value::Sequence(items) => {
            push_char(out, '[');
            let ghost models = values_view(items@);
            let mut i: usize = 0;
            while i < items.len()
                invariant
                    i <= items.len(),
                    models == values_view(items@),
                    v is Sequence,
                    v->Sequence_0 == *items,
                    out@ == old(out)@ + seq!['['] + render_items(models, i as nat),
                decreases items.len() - i,
            {
                if i > 0 {
                    proof {
                        reveal_strlit(", ");
                    }
                    out.append(", ");
                }
                proof {
                    assert(decreases_to!(v => v->Sequence_0));
                    assert(decreases_to!(*items => items[i as int]));
                }
                append_value(&items[i], out);
                i += 1;
                assert(out@ =~= old(out)@ + seq!['['] + render_items(models, i as nat));
            }
            push_char(out, ']');
            assert(out@ =~= old(out)@ + render_value(v@));
        },
        Value::Mapping(_) => {
            proof {
                reveal_strlit("[object]");
            }
            out.append("[object]");
            assert(out@ =~= old(out)@ + render_value(v@));
        },
    }
}

} // verus!
