//! One scope of a render: the names bound while a loop body, a macro body or the
//! template itself is evaluated.

use vstd::prelude::*;
use crate::context::lookup_entry;
use crate::table::{names_of, position, Named};
use crate::template::opt_text;
use crate::value::{keys_of, EntryModel, Value, ValueModel};

verus! {

/// Where a loop stands: the position of the iteration, the number of
/// iterations, and the key of the entry when a mapping is walked. The position
/// is always below the number of iterations.
#[derive(Debug, PartialEq, Eq)]
pub struct LoopState {
    index: usize,
    length: usize,
    key: Option<String>,
}

impl LoopState {
    #[verifier::type_invariant]
    closed spec fn inv(&self) -> bool {
        self.index < self.length
    }

    /// The position of the iteration, from 0.
    pub closed spec fn spec_index(&self) -> nat {
        self.index as nat
    }

    /// The number of iterations that the loop makes.
    pub closed spec fn spec_length(&self) -> nat {
        self.length as nat
    }

    /// The key of the entry, when a mapping is walked.
    pub closed spec fn spec_key(&self) -> Option<Seq<char>> {
        opt_text(self.key)
    }

    /// The state of iteration `index` of `length`.
    pub fn new(index: usize, length: usize, key: Option<String>) -> (r: LoopState)
        requires
            index < length,
        ensures
            r.spec_index() == index,
            r.spec_length() == length,
            r.spec_key() == opt_text(key),
    {
        LoopState { index, length, key }
    }

    /// The position of the iteration, from 0.
    pub fn index(&self) -> (r: usize)
        ensures
            r == self.spec_index(),
            self.spec_index() < self.spec_length(),
    {
        proof {
            use_type_invariant(self);
        }
        self.index
    }

    /// The number of iterations that the loop makes.
    pub fn length(&self) -> (r: usize)
        ensures
            r == self.spec_length(),
            self.spec_index() < self.spec_length(),
    {
        proof {
            use_type_invariant(self);
        }
        self.length
    }

    /// The key of the entry, when a mapping is walked.
    pub fn key(&self) -> (r: &Option<String>)
        ensures
            opt_text(*r) == self.spec_key(),
    {
        &self.key
    }
}

/// What a frame was pushed for.
#[derive(Debug, PartialEq, Eq)]
pub enum FrameKind {
    /// The template's own scope.
    Plain,
    /// One iteration of a loop.
    ForLoop(LoopState),
    /// The body of a macro; `owner` is the position of the template that
    /// declares the macro.
    MacroCall { owner: usize },
}

/// What a frame kind denotes.
pub enum FrameKindModel {
    Plain,
    ForLoop { index: nat, length: nat, key: Option<Seq<char>> },
    MacroCall { owner: nat },
}

impl View for FrameKind {
    type V = FrameKindModel;

    open spec fn view(&self) -> FrameKindModel {
        match self {
            FrameKind::Plain => FrameKindModel::Plain,
            FrameKind::ForLoop(state) => FrameKindModel::ForLoop {
                index: state.spec_index(),
                length: state.spec_length(),
                key: state.spec_key(),
            },
            FrameKind::MacroCall { owner } => FrameKindModel::MacroCall { owner: *owner as nat },
        }
    }
}

/// A value that a frame holds or that evaluation hands on: its own, or a part
/// of the context or of the template, which is not copied.
#[derive(Debug)]
pub enum Bound<'a> {
    Owned(Value),
    Borrowed(&'a Value),
}

impl<'a> View for Bound<'a> {
    type V = ValueModel;

    open spec fn view(&self) -> ValueModel {
        match self {
            Bound::Owned(v) => v@,
            Bound::Borrowed(v) => v@,
        }
    }
}

impl<'a> Bound<'a> {
    /// The value itself.
    pub fn get(&self) -> (r: &Value)
        ensures
            r@ == self@,
    {
        match self {
            Bound::Owned(v) => v,
            Bound::Borrowed(v) => v,
        }
    }

    /// The same value once more: a copy of an owned one, the same borrow of a
    /// borrowed one.
    pub fn duplicate(&self) -> (r: Bound<'a>)
        ensures
            r@ == self@,
    {
        match self {
            Bound::Owned(v) => Bound::Owned(v.clone()),
            Bound::Borrowed(v) => Bound::Borrowed(v),
        }
    }

    /// The value as one of its own, copied if it was borrowed.
    pub fn into_owned(self) -> (r: Value)
        ensures
            r@ == self@,
    {
        match self {
            Bound::Owned(v) => v,
            Bound::Borrowed(v) => v.clone(),
        }
    }
}

/// A name with the value bound to it.
#[derive(Debug)]
pub struct Binding<'a> {
    pub name: String,
    pub value: Bound<'a>,
}

impl<'a> View for Binding<'a> {
    type V = EntryModel;

    open spec fn view(&self) -> EntryModel {
        EntryModel { key: self.name@, value: self.value@ }
    }
}

impl<'a> Named for Binding<'a> {
    open spec fn name_view(&self) -> Seq<char> {
        self.name@
    }

    fn name(&self) -> (r: &String) {
        &self.name
    }
}

/// The models of a list of bindings.
pub open spec fn bindings_view<'a>(bindings: Seq<Binding<'a>>) -> Seq<EntryModel> {
    Seq::new(bindings.len(), |i: int| bindings[i]@)
}

/// What a frame denotes: its kind and its bindings, the latest last.
pub struct FrameModel {
    pub kind: FrameKindModel,
    pub bindings: Seq<EntryModel>,
}

impl FrameModel {
    /// A loop frame stands for one of the iterations that its loop makes.
    pub open spec fn well_formed(self) -> bool {
        self.kind matches FrameKindModel::ForLoop { index, length, .. } ==> index < length
    }

    /// The value that the frame binds `name` to.
    pub open spec fn lookup(self, name: Seq<char>) -> Option<ValueModel> {
        lookup_entry(self.bindings, name)
    }

    /// The frame with one more binding, which hides an earlier one of that name.
    pub open spec fn bind(self, name: Seq<char>, value: ValueModel) -> FrameModel {
        FrameModel { kind: self.kind, bindings: self.bindings.push(EntryModel { key: name, value }) }
    }
}

/// One scope: a kind and the names bound in it.
#[derive(Debug)]
pub struct StackFrame<'a> {
    kind: FrameKind,
    bindings: Vec<Binding<'a>>,
}

impl<'a> View for StackFrame<'a> {
    type V = FrameModel;

    closed spec fn view(&self) -> FrameModel {
        FrameModel { kind: self.kind@, bindings: bindings_view(self.bindings@) }
    }
}

impl<'a> StackFrame<'a> {
    /// A frame for the template's own scope, without bindings.
    pub fn plain() -> (r: StackFrame<'a>)
        ensures
            r@ == (FrameModel { kind: FrameKindModel::Plain, bindings: Seq::empty() }),
    {
        let r = StackFrame { kind: FrameKind::Plain, bindings: Vec::new() };
        assert(r@.bindings =~= Seq::empty());
        r
    }

    /// A frame for iteration `index` of a loop of `length` iterations, without
    /// bindings.
    pub fn for_loop(index: usize, length: usize, key: Option<String>) -> (r: StackFrame<'a>)
        requires
            index < length,
        ensures
            r@ == (FrameModel {
                kind: FrameKindModel::ForLoop {
                    index: index as nat,
                    length: length as nat,
                    key: opt_text(key),
                },
                bindings: Seq::empty(),
            }),
    {
        let r = StackFrame {
            kind: FrameKind::ForLoop(LoopState::new(index, length, key)),
            bindings: Vec::new(),
        };
        assert(r@.bindings =~= Seq::empty());
        r
    }

    /// A frame for the body of a macro that the template at `owner` declares,
    /// without bindings.
    pub fn macro_call(owner: usize) -> (r: StackFrame<'a>)
        ensures
            r@ == (FrameModel {
                kind: FrameKindModel::MacroCall { owner: owner as nat },
                bindings: Seq::empty(),
            }),
    {
        let r = StackFrame { kind: FrameKind::MacroCall { owner }, bindings: Vec::new() };
        assert(r@.bindings =~= Seq::empty());
        r
    }

    /// What the frame was pushed for.
    pub fn kind(&self) -> (r: &FrameKind)
        ensures
            r@ == self@.kind,
            self@.well_formed(),
    {
        proof {
            match &self.kind {
                FrameKind::ForLoop(state) => {
                    use_type_invariant(state);
                },
                _ => {},
            }
        }
        &self.kind
    }

    /// Binds `name` to `value`, in place of what it was bound to in this frame.
    pub fn bind(&mut self, name: String, value: Bound<'a>)
        ensures
            final(self)@ == old(self)@.bind(name@, value@),
    {
        self.bindings.push(Binding { name, value });
        assert(self@.bindings =~= old(self)@.bindings.push(
            EntryModel { key: name@, value: value@ },
        ));
    }

    /// The value that the frame binds `name` to.
    pub fn find(&self, name: &String) -> (r: Option<&Bound<'a>>)
        ensures
            match r {
                Some(b) => self@.lookup(name@) == Some(b@),
                None => self@.lookup(name@) is None,
            },
    {
        proof {
            assert(keys_of(self@.bindings) =~= names_of(self.bindings@));
        }
        match position(&self.bindings, name) {
            Some(i) => Some(&self.bindings[i].value),
            None => None,
        }
    }
}

} // verus!
