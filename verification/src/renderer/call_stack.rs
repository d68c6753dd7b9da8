//! The scopes of a render, innermost last.

use vstd::prelude::*;
use crate::renderer::stack_frame::{Bound, FrameKind, FrameKindModel, FrameModel, StackFrame};
use crate::value::ValueModel;

verus! {

/// The value that the frames bind `name` to: that of the innermost frame that
/// binds it, where the search goes outwards from the innermost frame and ends
/// with the first macro frame, which hides the caller's scopes.
pub open spec fn lookup_stack(stack: Seq<FrameModel>, name: Seq<char>) -> Option<ValueModel>
    decreases stack.len(),
{
    if stack.len() == 0 {
        None
    } else {
        match stack.last().lookup(name) {
            Some(v) => Some(v),
            None => if stack.last().kind is MacroCall {
                None
            } else {
                lookup_stack(stack.drop_last(), name)
            },
        }
    }
}

/// The template whose macros are in reach: the owner named by the innermost
/// macro frame, if a macro body is being evaluated.
pub open spec fn active_owner(stack: Seq<FrameModel>) -> Option<nat>
    decreases stack.len(),
{
    if stack.len() == 0 {
        None
    } else {
        match stack.last().kind {
            FrameKindModel::MacroCall { owner } => Some(owner),
            _ => active_owner(stack.drop_last()),
        }
    }
}

/// The stack with `name` bound to `value` in its innermost frame.
pub open spec fn bind_innermost(stack: Seq<FrameModel>, name: Seq<char>, value: ValueModel) -> Seq<
    FrameModel,
> {
    if stack.len() == 0 {
        stack
    } else {
        stack.drop_last().push(stack.last().bind(name, value))
    }
}

/// The models of a list of frames.
pub open spec fn frames_view<'a>(frames: Seq<StackFrame<'a>>) -> Seq<FrameModel> {
    Seq::new(frames.len(), |i: int| frames[i]@)
}

/// The scopes that are open at one point of a render.
#[derive(Debug)]
pub struct CallStack<'a> {
    frames: Vec<StackFrame<'a>>,
}

impl<'a> View for CallStack<'a> {
    type V = Seq<FrameModel>;

    closed spec fn view(&self) -> Seq<FrameModel> {
        frames_view(self.frames@)
    }
}

impl<'a> CallStack<'a> {
    /// A stack without frames.
    pub fn new() -> (r: CallStack<'a>)
        ensures
            r@ == Seq::<FrameModel>::empty(),
    {
        let r = CallStack { frames: Vec::new() };
        assert(r@ =~= Seq::<FrameModel>::empty());
        r
    }

    /// The number of open scopes.
    pub fn len(&self) -> (n: usize)
        ensures
            n == self@.len(),
    {
        self.frames.len()
    }

    /// Opens a scope.
    pub fn push(&mut self, frame: StackFrame<'a>)
        ensures
            final(self)@ == old(self)@.push(frame@),
    {
        self.frames.push(frame);
        assert(self@ =~= old(self)@.push(frame@));
    }

    /// Closes the innermost scope and hands it back.
    pub fn pop(&mut self) -> (r: Option<StackFrame<'a>>)
        ensures
            match r {
                Some(frame) => old(self)@.len() > 0 && frame@ == old(self)@.last() && final(self)@
                    == old(self)@.drop_last(),
                None => old(self)@.len() == 0 && final(self)@ == old(self)@,
            },
    {
        let r = self.frames.pop();
        proof {
            if old(self)@.len() > 0 {
                assert(self@ =~= old(self)@.drop_last());
            }
        }
        r
    }

    /// Binds `name` in the innermost scope. A stack without scopes is left as it
    /// is, and `false` is returned.
    pub fn bind(&mut self, name: String, value: Bound<'a>) -> (bound: bool)
        ensures
            bound == (old(self)@.len() > 0),
            final(self)@ == bind_innermost(old(self)@, name@, value@),
    {
        match self.frames.pop() {
            Some(mut frame) => {
                frame.bind(name, value);
                self.frames.push(frame);
                assert(self@ =~= bind_innermost(old(self)@, name@, value@));
                true
            },
            None => false,
        }
    }

    /// The value bound to `name` in the scopes that are visible.
    pub fn lookup(&self, name: &String) -> (r: Option<&Bound<'a>>)
        ensures
            match r {
                Some(b) => lookup_stack(self@, name@) == Some(b@),
                None => lookup_stack(self@, name@) is None,
            },
    {
        let mut i: usize = self.frames.len();
        proof {
            assert(self@.take(i as int) =~= self@);
        }
        while i > 0
            invariant
                i <= self.frames.len(),
                lookup_stack(self@, name@) == lookup_stack(self@.take(i as int), name@),
            decreases i,
        {
            i -= 1;
            proof {
                assert(self@.take(i + 1).drop_last() =~= self@.take(i as int));
            }
            match self.frames[i].find(name) {
                Some(b) => {
                    return Some(b);
                },
                None => {},
            }
            match self.frames[i].kind() {
                FrameKind::MacroCall { .. } => {
                    return None;
                },
                _ => {},
            }
        }
        None
    }

    /// The owner named by the innermost macro frame.
    pub fn active_owner(&self) -> (r: Option<usize>)
        ensures
            match r {
                Some(owner) => active_owner(self@) == Some(owner as nat),
                None => active_owner(self@) is None,
            },
    {
        let mut i: usize = self.frames.len();
        proof {
            assert(self@.take(i as int) =~= self@);
        }
        while i > 0
            invariant
                i <= self.frames.len(),
                active_owner(self@) == active_owner(self@.take(i as int)),
            decreases i,
        {
            i -= 1;
            proof {
                assert(self@.take(i + 1).drop_last() =~= self@.take(i as int));
            }
            match self.frames[i].kind() {
                FrameKind::MacroCall { owner } => {
                    return Some(*owner);
                },
                _ => {},
            }
        }
        None
    }
}

} // verus!
