//! Filters and functions: the callables that a template reaches by name.

use vstd::prelude::*;
use crate::table::{find_last, names_of, position, Named};
use crate::value::{entries_view, Entry, EntryModel, Value, ValueModel};

verus! {

/// What a callable's result denotes: a value, or the cause of its failure.
pub open spec fn call_result(r: Result<Value, String>) -> Result<ValueModel, Seq<char>> {
    match r {
        Ok(v) => Ok(v@),
        Err(cause) => Err(cause@),
    }
}

/// A filter: a function of a subject and named arguments.
pub trait Filter {
    /// What the filter returns for a subject and arguments.
    spec fn output(&self, subject: ValueModel, args: Seq<EntryModel>) -> Result<
        ValueModel,
        Seq<char>,
    >;

    /// Whether what the filter returns is written out without escaping.
    spec fn safe(&self) -> bool;

    /// Applies the filter to a subject and arguments.
    fn filter(&self, value: &Value, args: &Vec<Entry>) -> (r: Result<Value, String>)
        ensures
            call_result(r) == self.output(value@, entries_view(args@)),
    ;

    /// Whether what the filter returns is written out without escaping.
    fn is_safe(&self) -> (r: bool)
        ensures
            r == self.safe(),
    ;
}

/// A function: a function of named arguments.
pub trait Function {
    /// What the function returns for its arguments.
    spec fn output(&self, args: Seq<EntryModel>) -> Result<ValueModel, Seq<char>>;

    /// Whether what the function returns is written out without escaping.
    spec fn safe(&self) -> bool;

    /// Calls the function with arguments.
    fn call(&self, args: &Vec<Entry>) -> (r: Result<Value, String>)
        ensures
            call_result(r) == self.output(entries_view(args@)),
    ;

    /// Whether what the function returns is written out without escaping.
    fn is_safe(&self) -> (r: bool)
        ensures
            r == self.safe(),
    ;
}

/// A closure is fit to be a filter when it accepts every subject and argument
/// list, and what it returns depends on nothing but what these denote.
pub open spec fn filter_is_functional<C: Fn(&Value, &Vec<Entry>) -> Result<Value, String>>(
    f: C,
) -> bool {
    &&& forall|v: Value, a: Vec<Entry>| call_requires(f, (&v, &a))
    &&& forall|
        v1: Value,
        a1: Vec<Entry>,
        o1: Result<Value, String>,
        v2: Value,
        a2: Vec<Entry>,
        o2: Result<Value, String>,
    |
        v1@ == v2@ && entries_view(a1@) == entries_view(a2@) && #[trigger] call_ensures(
            f,
            (&v1, &a1),
            o1,
        ) && #[trigger] call_ensures(f, (&v2, &a2), o2) ==> call_result(o1) == call_result(o2)
}

/// A closure is fit to be a function when it accepts every argument list, and
/// what it returns depends on nothing but what the arguments denote.
pub open spec fn function_is_functional<C: Fn(&Vec<Entry>) -> Result<Value, String>>(
    f: C,
) -> bool {
    &&& forall|a: Vec<Entry>| call_requires(f, (&a,))
    &&& forall|a1: Vec<Entry>, o1: Result<Value, String>, a2: Vec<Entry>, o2: Result<Value, String>|
        entries_view(a1@) == entries_view(a2@) && #[trigger] call_ensures(f, (&a1,), o1)
            && #[trigger] call_ensures(f, (&a2,), o2) ==> call_result(o1) == call_result(o2)
}

/// A filter made of a closure.
pub struct FnFilter<C: Fn(&Value, &Vec<Entry>) -> Result<Value, String>> {
    f: C,
    safe: bool,
}

impl<C: Fn(&Value, &Vec<Entry>) -> Result<Value, String>> FnFilter<C> {
    #[verifier::type_invariant]
    closed spec fn well_formed(&self) -> bool {
        filter_is_functional(self.f)
    }

    /// The closure that this filter runs.
    pub closed spec fn closure(&self) -> C {
        self.f
    }

    /// Makes a filter of `f`; `safe` says whether its results are written out
    /// without escaping.
    pub fn new(f: C, safe: bool) -> (r: Self)
        requires
            filter_is_functional(f),
        ensures
            r.closure() == f,
            r.safe() == safe,
            forall|v: Value, a: Vec<Entry>, o: Result<Value, String>| #[trigger]
                call_ensures(f, (&v, &a), o) ==> r.output(v@, entries_view(a@)) == call_result(o),
    {
        FnFilter { f, safe }
    }
}

impl<C: Fn(&Value, &Vec<Entry>) -> Result<Value, String>> Filter for FnFilter<C> {
    /// The result that the closure's contract admits for a subject and arguments
    /// with these models.
    closed spec fn output(&self, subject: ValueModel, args: Seq<EntryModel>) -> Result<
        ValueModel,
        Seq<char>,
    > {
        let witness = choose|v: Value, a: Vec<Entry>, o: Result<Value, String>|
            v@ == subject && entries_view(a@) == args && #[trigger] call_ensures(
                self.f,
                (&v, &a),
                o,
            );
        call_result(witness.2)
    }

    closed spec fn safe(&self) -> bool {
        self.safe
    }

    fn filter(&self, value: &Value, args: &Vec<Entry>) -> (r: Result<Value, String>)
        ensures
            call_ensures(self.closure(), (value, args), r),
    {
        proof {
            use_type_invariant(self);
        }
        let r = (self.f)(value, args);
        proof {
            assert(call_ensures(self.f, (value, args), r));
        }
        r
    }

    fn is_safe(&self) -> (r: bool) {
        self.safe
    }
}

/// A function made of a closure.
pub struct FnFunction<C: Fn(&Vec<Entry>) -> Result<Value, String>> {
    f: C,
    safe: bool,
}

impl<C: Fn(&Vec<Entry>) -> Result<Value, String>> FnFunction<C> {
    #[verifier::type_invariant]
    closed spec fn well_formed(&self) -> bool {
        function_is_functional(self.f)
    }

    /// The closure that this function runs.
    pub closed spec fn closure(&self) -> C {
        self.f
    }

    /// Makes a function of `f`; `safe` says whether its results are written out
    /// without escaping.
    pub fn new(f: C, safe: bool) -> (r: Self)
        requires
            function_is_functional(f),
        ensures
            r.closure() == f,
            r.safe() == safe,
            forall|a: Vec<Entry>, o: Result<Value, String>| #[trigger]
                call_ensures(f, (&a,), o) ==> r.output(entries_view(a@)) == call_result(o),
    {
        FnFunction { f, safe }
    }
}

impl<C: Fn(&Vec<Entry>) -> Result<Value, String>> Function for FnFunction<C> {
    /// The result that the closure's contract admits for arguments with these
    /// models.
    closed spec fn output(&self, args: Seq<EntryModel>) -> Result<ValueModel, Seq<char>> {
        let witness = choose|a: Vec<Entry>, o: Result<Value, String>|
            entries_view(a@) == args && #[trigger] call_ensures(self.f, (&a,), o);
        call_result(witness.1)
    }

    closed spec fn safe(&self) -> bool {
        self.safe
    }

    fn call(&self, args: &Vec<Entry>) -> (r: Result<Value, String>)
        ensures
            call_ensures(self.closure(), (args,), r),
    {
        proof {
            use_type_invariant(self);
        }
        let r = (self.f)(args);
        proof {
            assert(call_ensures(self.f, (args,), r));
        }
        r
    }

    fn is_safe(&self) -> (r: bool) {
        self.safe
    }
}

/// A callable under the name by which templates reach it.
pub struct Registered<T> {
    pub name: String,
    pub callable: T,
}

impl<T> Named for Registered<T> {
    open spec fn name_view(&self) -> Seq<char> {
        self.name@
    }

    fn name(&self) -> (r: &String) {
        &self.name
    }
}

/// Filters and functions by name. Of two callables of one name, the one that was
/// registered later counts.
pub struct Registry<F, G> {
    pub filters: Vec<Registered<F>>,
    pub functions: Vec<Registered<G>>,
}

/// The callables handed to one render, which come before the catalog's.
pub type AttachedFunctions<F, G> = Registry<F, G>;

/// What a registered filter denotes.
pub struct FilterModel {
    pub name: Seq<char>,
    pub output: spec_fn(ValueModel, Seq<EntryModel>) -> Result<ValueModel, Seq<char>>,
    pub safe: bool,
}

/// What a registered function denotes.
pub struct FunctionModel {
    pub name: Seq<char>,
    pub output: spec_fn(Seq<EntryModel>) -> Result<ValueModel, Seq<char>>,
    pub safe: bool,
}

/// What a registry denotes.
pub struct RegistryModel {
    pub filters: Seq<FilterModel>,
    pub functions: Seq<FunctionModel>,
}

/// What a filter denotes under a name.
pub open spec fn filter_model<F: Filter>(name: Seq<char>, filter: F) -> FilterModel {
    FilterModel {
        name,
        output: |subject: ValueModel, args: Seq<EntryModel>| filter.output(subject, args),
        safe: filter.safe(),
    }
}

/// What a function denotes under a name.
pub open spec fn function_model<G: Function>(name: Seq<char>, function: G) -> FunctionModel {
    FunctionModel {
        name,
        output: |args: Seq<EntryModel>| function.output(args),
        safe: function.safe(),
    }
}

impl<F: Filter, G: Function> View for Registry<F, G> {
    type V = RegistryModel;

    open spec fn view(&self) -> RegistryModel {
        RegistryModel {
            filters: Seq::new(
                self.filters@.len(),
                |i: int| filter_model(self.filters@[i].name@, self.filters@[i].callable),
            ),
            functions: Seq::new(
                self.functions@.len(),
                |i: int| function_model(self.functions@[i].name@, self.functions@[i].callable),
            ),
        }
    }
}

/// The names of a list of filters, in order.
pub open spec fn filter_names(filters: Seq<FilterModel>) -> Seq<Seq<char>> {
    Seq::new(filters.len(), |i: int| filters[i].name)
}

/// The names of a list of functions, in order.
pub open spec fn function_names(functions: Seq<FunctionModel>) -> Seq<Seq<char>> {
    Seq::new(functions.len(), |i: int| functions[i].name)
}

impl RegistryModel {
    /// The filter that `name` stands for.
    pub open spec fn filter(self, name: Seq<char>) -> Option<FilterModel> {
        match find_last(filter_names(self.filters), name) {
            Some(i) => Some(self.filters[i]),
            None => None,
        }
    }

    /// The function that `name` stands for.
    pub open spec fn function(self, name: Seq<char>) -> Option<FunctionModel> {
        match find_last(function_names(self.functions), name) {
            Some(i) => Some(self.functions[i]),
            None => None,
        }
    }
}

impl<F: Filter, G: Function> Registry<F, G> {
    /// A registry without callables.
    pub fn new() -> (r: Self)
        ensures
            r@ == (RegistryModel { filters: Seq::empty(), functions: Seq::empty() }),
    {
        let r = Registry { filters: Vec::new(), functions: Vec::new() };
        assert(r@.filters =~= Seq::empty());
        assert(r@.functions =~= Seq::empty());
        r
    }

    /// Registers a filter under `name`, in front of any earlier one of that name.
    pub fn register_filter(&mut self, name: &str, filter: F)
        ensures
            final(self)@.filters == old(self)@.filters.push(filter_model(name@, filter)),
            final(self)@.functions == old(self)@.functions,
    {
        self.filters.push(Registered { name: name.to_owned(), callable: filter });
        proof {
            assert(self@.filters =~= old(self)@.filters.push(filter_model(name@, filter)));
            assert(self@.functions =~= old(self)@.functions);
        }
    }

    /// Registers a function under `name`, in front of any earlier one of that
    /// name.
    pub fn register_function(&mut self, name: &str, function: G)
        ensures
            final(self)@.functions == old(self)@.functions.push(function_model(name@, function)),
            final(self)@.filters == old(self)@.filters,
    {
        self.functions.push(Registered { name: name.to_owned(), callable: function });
        proof {
            assert(self@.functions =~= old(self)@.functions.push(function_model(name@, function)));
            assert(self@.filters =~= old(self)@.filters);
        }
    }

    /// The filter registered under `name`.
    pub fn find_filter(&self, name: &String) -> (r: Option<&F>)
        ensures
            match r {
                Some(f) => self@.filter(name@) matches Some(m) && m.safe == f.safe()
                    && forall|subject: ValueModel, args: Seq<EntryModel>|
                        #[trigger] (m.output)(subject, args) == f.output(subject, args),
                None => self@.filter(name@) is None,
            },
    {
        proof {
            assert(filter_names(self@.filters) =~= names_of(self.filters@));
        }
        match position(&self.filters, name) {
            Some(i) => Some(&self.filters[i].callable),
            None => None,
        }
    }

    /// The function registered under `name`.
    pub fn find_function(&self, name: &String) -> (r: Option<&G>)
        ensures
            match r {
                Some(g) => self@.function(name@) matches Some(m) && m.safe == g.safe()
                    && forall|args: Seq<EntryModel>|
                        #[trigger] (m.output)(args) == g.output(args),
                None => self@.function(name@) is None,
            },
    {
        proof {
            assert(function_names(self@.functions) =~= names_of(self.functions@));
        }
        match position(&self.functions, name) {
            Some(i) => Some(&self.functions[i].callable),
            None => None,
        }
    }
}

} // verus!
