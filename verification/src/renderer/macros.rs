//! Calls: the arguments handed to callables, and what a callable's answer
//! becomes.

use vstd::prelude::*;
use crate::errors::{Error, ErrorModel};
use crate::registry::call_result;
use crate::renderer::semantics::{finish_call, EvaluatedModel};
use crate::renderer::stack_frame::{bindings_view, Binding, Bound};
use crate::value::{entries_view, Entry, Value};

verus! {

/// The value of an expression, and whether it is written out as it stands.
pub struct Evaluated<'a> {
    pub value: Bound<'a>,
    pub safe: bool,
}

impl<'a> View for Evaluated<'a> {
    type V = EvaluatedModel;

    open spec fn view(&self) -> EvaluatedModel {
        EvaluatedModel { value: self.value@, safe: self.safe }
    }
}

/// What the result of an evaluation denotes.
pub open spec fn evaluated_view<'a>(r: Result<Evaluated<'a>, Error>) -> Result<
    EvaluatedModel,
    ErrorModel,
> {
    match r {
        Ok(v) => Ok(v@),
        Err(error) => Err(error@),
    }
}

/// The arguments as values of their own, for a callable to read.
pub fn own_args<'a>(args: Vec<Binding<'a>>) -> (r: Vec<Entry>)
    ensures
        entries_view(r@) == bindings_view(args@),
{
    let ghost given = args@;
    let mut owned: Vec<Entry> = Vec::new();
    for binding in it: args.into_iter()
        invariant
            it.seq() == given,
            owned.len() == it.index(),
            forall|j: int| 0 <= j < owned.len() ==> (#[trigger] owned@[j])@ == given[j]@,
    {
        owned.push(Entry { key: binding.name, value: binding.value.into_owned() });
    }
    assert(entries_view(owned@) =~= bindings_view(given));
    owned
}

/// What a call of the callable `name` evaluates to, given what the callable
/// returned: its value, marked as the callable marks its results, or the
/// failure that names the callable and the cause.
pub fn finish<'a>(name: &String, returned: Result<Value, String>, safe: bool) -> (r: Result<
    Evaluated<'a>,
    Error,
>)
    ensures
        evaluated_view(r) == finish_call(name@, call_result(returned), safe),
{
    match returned {
        Ok(value) => Ok(Evaluated { value: Bound::Owned(value), safe }),
        Err(cause) => Err(Error::CallableFailed { name: name.clone(), cause }),
    }
}

} // verus!
