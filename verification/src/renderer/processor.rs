//! The evaluator: it walks a template's tree, keeps the scopes and writes the
//! text.

use vstd::prelude::*;
use crate::catalog::Catalog;
use crate::context::Context;
use crate::errors::{Error, ErrorModel};
use crate::registry::{Filter, Function, Registry};
use crate::renderer::call_stack::CallStack;
use crate::renderer::for_loop::{
    item_at, iteration_frame, loop_items, loop_length, max_loop_length, LoopItem,
};
use crate::renderer::macros::{evaluated_view, finish, own_args, Evaluated};
use crate::renderer::semantics::{
    bind_params, eval_args, eval_expr, eval_keys, eval_values, failed, find_filter,
    find_function, find_macro, invoke, lemma_render_nodes_same_outer, macro_names,
    render_iterations, render_node, render_nodes, resolve_root, root_frame, same_outer, Env,
    Supplied,
};
use crate::renderer::square_brackets::{bound_view, keys_view, walk, walk_keys, Key};
use crate::renderer::stack_frame::{bindings_view, Binding, Bound, FrameModel, StackFrame};
use crate::table::{names_of, position};
use crate::template::{
    accessors_view, args_view, exprs_view, lemma_expr_view, lemma_node_view, nodes_view,
    opt_text, params_view, Accessor, Arg, Expr, MacroDefinition, Node, Param, Template,
};
use crate::utils::escape_html;
use crate::value::{append_value, keys_of, render_value, EntryModel, Value, ValueModel};

verus! {

/// All that a render reads, by reference: nothing of it changes while the
/// template is rendered.
pub struct Environment<'a, F, G> {
    pub template: &'a Template,
    pub catalog: &'a Catalog<F, G>,
    pub context: &'a Context,
    pub attached: &'a Registry<F, G>,
    pub should_escape: bool,
}

impl<'a, F: Filter, G: Function> View for Environment<'a, F, G> {
    type V = Env;

    open spec fn view(&self) -> Env {
        Env {
            template: self.template@,
            catalog: self.catalog@,
            context: self.context@,
            attached: self.attached@,
            escape: self.should_escape,
        }
    }
}

/// The failure that a result holds, if it holds one.
pub open spec fn error_view(r: Result<(), Error>) -> Option<ErrorModel> {
    match r {
        Ok(_) => None,
        Err(error) => Some(error@),
    }
}

/// What a list of keys or a failure denotes.
pub open spec fn keys_result_view<'a>(r: Result<Vec<Key<'a>>, Error>) -> Result<
    Seq<ValueModel>,
    ErrorModel,
> {
    match r {
        Ok(keys) => Ok(keys_view(keys@)),
        Err(error) => Err(error@),
    }
}

/// The models of a list of bound values.
pub open spec fn bounds_view<'a>(values: Seq<Bound<'a>>) -> Seq<ValueModel> {
    Seq::new(values.len(), |i: int| values[i]@)
}

/// What a list of values or a failure denotes.
pub open spec fn values_result_view<'a>(r: Result<Vec<Bound<'a>>, Error>) -> Result<
    Seq<ValueModel>,
    ErrorModel,
> {
    match r {
        Ok(values) => Ok(bounds_view(values@)),
        Err(error) => Err(error@),
    }
}

/// What the arguments of a macro call denote.
pub open spec fn supplied_view<'a>(positional: Seq<Bound<'a>>, named: Seq<Binding<'a>>) -> Supplied {
    Supplied { positional: bounds_view(positional), named: bindings_view(named) }
}

/// What a list of evaluated arguments or a failure denotes.
pub open spec fn args_result_view<'a>(r: Result<Vec<Binding<'a>>, Error>) -> Result<
    Seq<EntryModel>,
    ErrorModel,
> {
    match r {
        Ok(args) => Ok(bindings_view(args@)),
        Err(error) => Err(error@),
    }
}

impl<'a, F: Filter, G: Function> Environment<'a, F, G> {
    /// The filter that `name` stands for: an attached one before a registered
    /// one.
    pub fn find_filter(&self, name: &String) -> (r: Option<&'a F>)
        ensures
            match r {
                Some(f) => find_filter(self@, name@) matches Some(m) && m.safe == f.safe()
                    && forall|subject: ValueModel, args: Seq<EntryModel>|
                        #[trigger] (m.output)(subject, args) == f.output(subject, args),
                None => find_filter(self@, name@) is None,
            },
    {
        match self.attached.find_filter(name) {
            Some(f) => Some(f),
            None => self.catalog.registry.find_filter(name),
        }
    }

    /// The function that `name` stands for: an attached one before a registered
    /// one.
    pub fn find_function(&self, name: &String) -> (r: Option<&'a G>)
        ensures
            match r {
                Some(g) => find_function(self@, name@) matches Some(m) && m.safe == g.safe()
                    && forall|args: Seq<EntryModel>| #[trigger] (m.output)(args) == g.output(args),
                None => find_function(self@, name@) is None,
            },
    {
        match self.attached.find_function(name) {
            Some(g) => Some(g),
            None => self.catalog.registry.find_function(name),
        }
    }

    /// The macro that `name` stands for where the scopes are `stack`: one of the
    /// template that declares the macro being evaluated, or else one of the
    /// template being rendered.
    pub fn find_macro(&self, stack: &CallStack<'a>, name: &String) -> (r: Option<
        &'a MacroDefinition,
    >)
        ensures
            match r {
                Some(definition) => find_macro(self@, stack@, name@) == Some(definition@),
                None => find_macro(self@, stack@, name@) is None,
            },
    {
        let template: &'a Template = match stack.active_owner() {
            Some(owner) => {
                if owner < self.catalog.templates.len() {
                    &self.catalog.templates[owner]
                } else {
                    return None;
                }
            },
            None => self.template,
        };
        proof {
            assert(macro_names(template@.macros) =~= names_of(template.macros@));
        }
        match position(&template.macros, name) {
            Some(i) => Some(&template.macros[i]),
            None => None,
        }
    }

    /// The part that the keys select of what `root` stands for.
    pub fn resolve(&self, stack: &CallStack<'a>, root: &String, keys: &Vec<Key<'a>>) -> (r: Result<
        Bound<'a>,
        Error,
    >)
        ensures
            bound_view(r) == (match resolve_root(self@, stack@, root@) {
                Ok(v) => walk(v, keys_view(keys@)),
                Err(error) => Err(error),
            }),
    {
        match stack.lookup(root) {
            Some(bound) => match bound {
                Bound::Borrowed(v) => {
                    let whole: &'a Value = *v;
                    match walk_keys(whole, keys) {
                        Ok(part) => Ok(Bound::Borrowed(part)),
                        Err(error) => Err(error),
                    }
                },
                Bound::Owned(v) => match walk_keys(v, keys) {
                    Ok(part) => Ok(Bound::Owned(part.clone())),
                    Err(error) => Err(error),
                },
            },
            None => match self.context.get(root) {
                Some(v) => match walk_keys(v, keys) {
                    Ok(part) => Ok(Bound::Borrowed(part)),
                    Err(error) => Err(error),
                },
                None => Err(Error::Undefined(root.clone())),
            },
        }
    }

    /// Evaluates an expression. The scopes are the same afterwards.
    pub fn eval_expr(&self, expr: &'a Expr, stack: &mut CallStack<'a>, depth: usize) -> (r: Result<
        Evaluated<'a>,
        Error,
    >)
        ensures
            final(stack)@ == old(stack)@,
            evaluated_view(r) == eval_expr(self@, expr@, old(stack)@, depth as nat),
        decreases depth, 0nat, expr, 0nat,
    {
        proof {
            lemma_expr_view(*expr);
        }
        match expr {
            Expr::Literal(v) => Ok(Evaluated { value: Bound::Borrowed(v), safe: false }),
            Expr::Path { root, accessors } => {
                let keys = match self.eval_keys(accessors, stack, depth) {
                    Ok(keys) => keys,
                    Err(error) => {
                        return Err(error);
                    },
                };
                match self.resolve(stack, root, &keys) {
                    Ok(value) => Ok(Evaluated { value, safe: false }),
                    Err(error) => Err(error),
                }
            },
            Expr::Filter { subject, name, args } => {
                let filter = match self.find_filter(name) {
                    Some(filter) => filter,
                    None => {
                        return Err(Error::UnknownCallable(name.clone()));
                    },
                };
                let subject = match self.eval_expr(subject, stack, depth) {
                    Ok(v) => v,
                    Err(error) => {
                        return Err(error);
                    },
                };
                let values = match self.eval_args(args, stack, depth) {
                    Ok(values) => own_args(values),
                    Err(error) => {
                        return Err(error);
                    },
                };
                finish(name, filter.filter(subject.value.get(), &values), filter.is_safe())
            },
            Expr::Function { name, args } => {
                let function = match self.find_function(name) {
                    Some(function) => function,
                    None => {
                        return Err(Error::UnknownCallable(name.clone()));
                    },
                };
                let values = match self.eval_args(args, stack, depth) {
                    Ok(values) => own_args(values),
                    Err(error) => {
                        return Err(error);
                    },
                };
                finish(name, function.call(&values), function.is_safe())
            },
            Expr::MacroCall { name, positional, named } => {
                let definition = match self.find_macro(stack, name) {
                    Some(definition) => definition,
                    None => {
                        return Err(Error::UnknownCallable(name.clone()));
                    },
                };
                if depth == 0 {
                    return Err(Error::RecursionExhausted);
                }
                if definition.owner >= self.catalog.templates.len() {
                    return Err(Error::UnknownCallable(name.clone()));
                }
                let positional = match self.eval_values(positional, stack, depth) {
                    Ok(values) => values,
                    Err(error) => {
                        return Err(error);
                    },
                };
                let named = match self.eval_args(named, stack, depth) {
                    Ok(values) => values,
                    Err(error) => {
                        return Err(error);
                    },
                };
                self.invoke(definition, &positional, &named, stack, depth - 1)
            },
        }
    }

    /// Evaluates the keys that a path's accessors stand for, in order.
    pub fn eval_keys(&self, accessors: &'a Vec<Accessor>, stack: &mut CallStack<'a>, depth: usize) -> (r:
        Result<Vec<Key<'a>>, Error>)
        ensures
            final(stack)@ == old(stack)@,
            keys_result_view(r) == eval_keys(
                self@,
                accessors_view(accessors@),
                0,
                old(stack)@,
                depth as nat,
            ),
        decreases depth, 0nat, accessors, 0nat,
    {
        let ghost env = self@;
        let ghost models = accessors_view(accessors@);
        let ghost scopes = stack@;
        let ghost total = eval_keys(env, models, 0, scopes, depth as nat);
        let mut keys: Vec<Key<'a>> = Vec::new();
        let mut i: usize = 0;
        proof {
            assert(keys_view(keys@) =~= Seq::empty());
            let rest = eval_keys(env, models, 0, scopes, depth as nat);
            if rest is Ok {
                assert(keys_view(keys@) + rest->Ok_0 =~= rest->Ok_0);
            }
        }
        while i < accessors.len()
            invariant
                i <= accessors.len(),
                env == self@,
                models == accessors_view(accessors@),
                stack@ == scopes,
                scopes == old(stack)@,
                total == eval_keys(env, models, 0, scopes, depth as nat),
                match eval_keys(env, models, i as nat, scopes, depth as nat) {
                    Ok(rest) => total == Ok::<Seq<ValueModel>, ErrorModel>(keys_view(keys@) + rest),
                    Err(error) => total == Err::<Seq<ValueModel>, ErrorModel>(error),
                },
            decreases accessors.len() - i,
        {
            let ghost before = keys_view(keys@);
            let key = match &accessors[i] {
                Accessor::Static(name) => Key::Name(name),
                Accessor::Dynamic(e) => match self.eval_expr(e, stack, depth) {
                    Ok(v) => Key::Computed(v.value),
                    Err(error) => {
                        return Err(error);
                    },
                },
            };
            keys.push(key);
            proof {
                assert(keys_view(keys@) =~= before.push(key@));
                let rest = eval_keys(env, models, (i + 1) as nat, scopes, depth as nat);
                if rest is Ok {
                    assert(before + (seq![key@] + rest->Ok_0) =~= keys_view(keys@) + rest->Ok_0);
                }
            }
            i += 1;
        }
        proof {
            assert(keys_view(keys@) + Seq::<ValueModel>::empty() =~= keys_view(keys@));
        }
        Ok(keys)
    }

    /// Evaluates expressions, in order.
    pub fn eval_values(&self, exprs: &'a Vec<Expr>, stack: &mut CallStack<'a>, depth: usize) -> (r:
        Result<Vec<Bound<'a>>, Error>)
        ensures
            final(stack)@ == old(stack)@,
            values_result_view(r) == eval_values(
                self@,
                exprs_view(exprs@),
                0,
                old(stack)@,
                depth as nat,
            ),
        decreases depth, 0nat, exprs, 0nat,
    {
        let ghost env = self@;
        let ghost models = exprs_view(exprs@);
        let ghost scopes = stack@;
        let ghost total = eval_values(env, models, 0, scopes, depth as nat);
        let mut values: Vec<Bound<'a>> = Vec::new();
        let mut i: usize = 0;
        proof {
            assert(bounds_view(values@) =~= Seq::empty());
            let rest = eval_values(env, models, 0, scopes, depth as nat);
            if rest is Ok {
                assert(bounds_view(values@) + rest->Ok_0 =~= rest->Ok_0);
            }
        }
        while i < exprs.len()
            invariant
                i <= exprs.len(),
                env == self@,
                models == exprs_view(exprs@),
                stack@ == scopes,
                scopes == old(stack)@,
                total == eval_values(env, models, 0, scopes, depth as nat),
                match eval_values(env, models, i as nat, scopes, depth as nat) {
                    Ok(rest) => total == Ok::<Seq<ValueModel>, ErrorModel>(
                        bounds_view(values@) + rest,
                    ),
                    Err(error) => total == Err::<Seq<ValueModel>, ErrorModel>(error),
                },
            decreases exprs.len() - i,
        {
            let ghost before = bounds_view(values@);
            let value = match self.eval_expr(&exprs[i], stack, depth) {
                Ok(v) => v.value,
                Err(error) => {
                    return Err(error);
                },
            };
            let ghost model = value@;
            values.push(value);
            proof {
                assert(bounds_view(values@) =~= before.push(model));
                let rest = eval_values(env, models, (i + 1) as nat, scopes, depth as nat);
                if rest is Ok {
                    assert(before + (seq![model] + rest->Ok_0) =~= bounds_view(values@)
                        + rest->Ok_0);
                }
            }
            i += 1;
        }
        proof {
            assert(bounds_view(values@) + Seq::<ValueModel>::empty() =~= bounds_view(values@));
        }
        Ok(values)
    }

    /// Evaluates the arguments of a call, in order.
    pub fn eval_args(&self, args: &'a Vec<Arg>, stack: &mut CallStack<'a>, depth: usize) -> (r: Result<
        Vec<Binding<'a>>,
        Error,
    >)
        ensures
            final(stack)@ == old(stack)@,
            args_result_view(r) == eval_args(self@, args_view(args@), 0, old(stack)@, depth as nat),
        decreases depth, 0nat, args, 0nat,
    {
        let ghost env = self@;
        let ghost models = args_view(args@);
        let ghost scopes = stack@;
        let ghost total = eval_args(env, models, 0, scopes, depth as nat);
        let mut values: Vec<Binding<'a>> = Vec::new();
        let mut i: usize = 0;
        proof {
            assert(bindings_view(values@) =~= Seq::empty());
            let rest = eval_args(env, models, 0, scopes, depth as nat);
            if rest is Ok {
                assert(bindings_view(values@) + rest->Ok_0 =~= rest->Ok_0);
            }
        }
        while i < args.len()
            invariant
                i <= args.len(),
                env == self@,
                models == args_view(args@),
                stack@ == scopes,
                scopes == old(stack)@,
                total == eval_args(env, models, 0, scopes, depth as nat),
                match eval_args(env, models, i as nat, scopes, depth as nat) {
                    Ok(rest) => total == Ok::<Seq<EntryModel>, ErrorModel>(
                        bindings_view(values@) + rest,
                    ),
                    Err(error) => total == Err::<Seq<EntryModel>, ErrorModel>(error),
                },
            decreases args.len() - i,
        {
            let ghost before = bindings_view(values@);
            let value = match self.eval_expr(&args[i].value, stack, depth) {
                Ok(v) => v.value,
                Err(error) => {
                    return Err(error);
                },
            };
            let binding = Binding { name: args[i].name.clone(), value };
            values.push(binding);
            proof {
                assert(bindings_view(values@) =~= before.push(binding@));
                let rest = eval_args(env, models, (i + 1) as nat, scopes, depth as nat);
                if rest is Ok {
                    assert(before + (seq![binding@] + rest->Ok_0) =~= bindings_view(values@)
                        + rest->Ok_0);
                }
            }
            i += 1;
        }
        proof {
            assert(bindings_view(values@) + Seq::<EntryModel>::empty() =~= bindings_view(values@));
        }
        Ok(values)
    }

    /// Calls a macro with evaluated arguments: opens a macro frame, binds the
    /// parameters, renders the body and closes the frame, whatever came of it.
    pub fn invoke(
        &self,
        definition: &'a MacroDefinition,
        positional: &Vec<Bound<'a>>,
        named: &Vec<Binding<'a>>,
        stack: &mut CallStack<'a>,
        depth: usize,
    ) -> (r: Result<Evaluated<'a>, Error>)
        ensures
            final(stack)@ == old(stack)@,
            evaluated_view(r) == invoke(
                self@,
                definition@,
                supplied_view(positional@, named@),
                old(stack)@,
                depth as nat,
            ),
        decreases depth, 2nat, definition, 0nat,
    {
        stack.push(StackFrame::macro_call(definition.owner));
        match self.bind_params(&definition.params, positional, named, stack, depth) {
            Err(error) => {
                let _ = stack.pop();
                assert(stack@ =~= old(stack)@);
                Err(error)
            },
            Ok(()) => {
                let ghost bound = stack@;
                let mut text = String::new();
                let rendered = self.render_nodes(&definition.body, stack, &mut text, depth);
                proof {
                    lemma_render_nodes_same_outer(
                        self@,
                        nodes_view(definition.body@),
                        0,
                        bound,
                        depth as nat,
                    );
                    assert(Seq::<char>::empty() + render_nodes(
                        self@,
                        nodes_view(definition.body@),
                        0,
                        bound,
                        depth as nat,
                    ).text =~= text@);
                }
                let _ = stack.pop();
                assert(stack@ =~= old(stack)@);
                match rendered {
                    Ok(()) => Ok(Evaluated { value: Bound::Owned(Value::String(text)), safe: true }),
                    Err(error) => Err(error),
                }
            },
        }
    }

    /// Binds the parameters of a macro in the innermost frame, in order.
    pub fn bind_params(
        &self,
        params: &'a Vec<Param>,
        positional: &Vec<Bound<'a>>,
        named: &Vec<Binding<'a>>,
        stack: &mut CallStack<'a>,
        depth: usize,
    ) -> (r: Result<(), Error>)
        ensures
            same_outer(old(stack)@, final(stack)@),
            match bind_params(
                self@,
                params_view(params@),
                0,
                supplied_view(positional@, named@),
                old(stack)@,
                depth as nat,
            ) {
                Ok(bound) => r is Ok && final(stack)@ == bound,
                Err(error) => r matches Err(e) && e@ == error,
            },
        decreases depth, 1nat, params, 0nat,
    {
        let ghost env = self@;
        let ghost models = params_view(params@);
        let ghost given = supplied_view(positional@, named@);
        let ghost total = bind_params(env, models, 0, given, stack@, depth as nat);
        let mut i: usize = 0;
        while i < params.len()
            invariant
                i <= params.len(),
                env == self@,
                models == params_view(params@),
                given == supplied_view(positional@, named@),
                same_outer(old(stack)@, stack@),
                total == bind_params(env, models, 0, given, old(stack)@, depth as nat),
                total == bind_params(env, models, i as nat, given, stack@, depth as nat),
            decreases params.len() - i,
        {
            let param = &params[i];
            let ghost scopes = stack@;
            proof {
                assert(keys_of(given.named) =~= names_of(named@));
            }
            let supplied = if i < positional.len() {
                Some(positional[i].duplicate())
            } else {
                match position(named, &param.name) {
                    Some(at) => Some(named[at].value.duplicate()),
                    None => None,
                }
            };
            let value = match supplied {
                Some(value) => value,
                None => match &param.default {
                    Some(e) => match self.eval_expr(e, stack, depth) {
                        Ok(v) => v.value,
                        Err(error) => {
                            return Err(error);
                        },
                    },
                    None => {
                        return Err(Error::MissingArgument(param.name.clone()));
                    },
                },
            };
            let _ = stack.bind(param.name.clone(), value);
            proof {
                if scopes.len() > 0 {
                    assert(stack@.drop_last() =~= scopes.drop_last());
                }
            }
            i += 1;
        }
        Ok(())
    }

    /// Renders nodes one after the other, up to the first that fails.
    pub fn render_nodes(
        &self,
        nodes: &'a Vec<Node>,
        stack: &mut CallStack<'a>,
        output: &mut String,
        depth: usize,
    ) -> (r: Result<(), Error>)
        ensures
            ({
                let outcome = render_nodes(self@, nodes_view(nodes@), 0, old(stack)@, depth as nat);
                &&& final(output)@ == old(output)@ + outcome.text
                &&& final(stack)@ == outcome.stack
                &&& error_view(r) == outcome.error
            }),
        decreases depth, 1nat, nodes, 0nat,
    {
        let ghost env = self@;
        let ghost models = nodes_view(nodes@);
        let ghost total = render_nodes(env, models, 0, stack@, depth as nat);
        let mut i: usize = 0;
        proof {
            assert(old(output)@ + total.text =~= output@ + total.text);
        }
        while i < nodes.len()
            invariant
                i <= nodes.len(),
                env == self@,
                models == nodes_view(nodes@),
                total == render_nodes(env, models, 0, old(stack)@, depth as nat),
                ({
                    let rest = render_nodes(env, models, i as nat, stack@, depth as nat);
                    &&& old(output)@ + total.text == output@ + rest.text
                    &&& total.stack == rest.stack
                    &&& total.error == rest.error
                }),
            decreases nodes.len() - i,
        {
            let ghost written = output@;
            let ghost scopes = stack@;
            let ghost first = render_node(env, models[i as int], scopes, depth as nat);
            let ghost rest = render_nodes(env, models, i as nat, scopes, depth as nat);
            match self.render_node(&nodes[i], stack, output, depth) {
                Ok(()) => {},
                Err(error) => {
                    proof {
                        assert(rest == first);
                    }
                    return Err(error);
                },
            }
            proof {
                let after = render_nodes(env, models, (i + 1) as nat, stack@, depth as nat);
                assert(rest.text == first.text + after.text);
                assert(written + (first.text + after.text) =~= output@ + after.text);
            }
            i += 1;
        }
        proof {
            let rest = render_nodes(env, models, i as nat, stack@, depth as nat);
            assert(output@ + rest.text =~= output@);
        }
        Ok(())
    }

    /// Renders one node.
    pub fn render_node(
        &self,
        node: &'a Node,
        stack: &mut CallStack<'a>,
        output: &mut String,
        depth: usize,
    ) -> (r: Result<(), Error>)
        ensures
            ({
                let outcome = render_node(self@, node@, old(stack)@, depth as nat);
                &&& final(output)@ == old(output)@ + outcome.text
                &&& final(stack)@ == outcome.stack
                &&& error_view(r) == outcome.error
            }),
        decreases depth, 1nat, node, 0nat,
    {
        proof {
            lemma_node_view(*node);
        }
        match node {
            Node::Text(text) => {
                output.append(text.as_str());
                Ok(())
            },
            Node::Expr(e) => match self.eval_expr(e, stack, depth) {
                Err(error) => {
                    assert(output@ + Seq::<char>::empty() =~= output@);
                    Err(error)
                },
                Ok(v) => {
                    if self.should_escape && !v.safe {
                        let mut plain = String::new();
                        append_value(v.value.get(), &mut plain);
                        assert(plain@ =~= render_value(v.value@));
                        let escaped = escape_html(plain.as_str());
                        output.append(escaped.as_str());
                    } else {
                        append_value(v.value.get(), output);
                    }
                    Ok(())
                },
            },
            Node::Assign { name, value } => match self.eval_expr(value, stack, depth) {
                Err(error) => {
                    assert(output@ + Seq::<char>::empty() =~= output@);
                    Err(error)
                },
                Ok(v) => {
                    let _ = stack.bind(name.clone(), v.value);
                    assert(output@ + Seq::<char>::empty() =~= output@);
                    Ok(())
                },
            },
            Node::For { key, item, source, body } => {
                let source = match self.eval_expr(source, stack, depth) {
                    Ok(v) => v.value,
                    Err(error) => {
                        assert(output@ + Seq::<char>::empty() =~= output@);
                        return Err(error);
                    },
                };
                self.render_for(key, item, &source, body, stack, output, depth)
            },
        }
    }

    /// Renders the body of a loop once for each item of `source`, each time in
    /// a frame of its own, which is closed before the next iteration and before
    /// a failure is handed on.
    pub fn render_for(
        &self,
        key: &'a Option<String>,
        item: &'a String,
        source: &Bound<'a>,
        body: &'a Vec<Node>,
        stack: &mut CallStack<'a>,
        output: &mut String,
        depth: usize,
    ) -> (r: Result<(), Error>)
        ensures
            ({
                let outcome = match loop_items(source@, opt_text(*key)) {
                    Err(error) => failed(old(stack)@, error),
                    Ok(items) => render_iterations(
                        self@,
                        opt_text(*key),
                        item@,
                        items,
                        0,
                        nodes_view(body@),
                        old(stack)@,
                        depth as nat,
                    ),
                };
                &&& final(output)@ == old(output)@ + outcome.text
                &&& final(stack)@ == outcome.stack
                &&& error_view(r) == outcome.error
            }),
        decreases depth, 1nat, body, 1nat,
    {
        let length = match loop_length(source.get(), key) {
            Ok(length) => length,
            Err(error) => {
                assert(output@ + Seq::<char>::empty() =~= output@);
                return Err(error);
            },
        };
        let ghost env = self@;
        let ghost items = loop_items(source@, opt_text(*key))->Ok_0;
        let ghost models = nodes_view(body@);
        let ghost scopes = stack@;
        let ghost total = render_iterations(
            env,
            opt_text(*key),
            item@,
            items,
            0,
            models,
            scopes,
            depth as nat,
        );
        let mut i: usize = 0;
        proof {
            assert(old(output)@ + total.text =~= output@ + total.text);
        }
        while i < length
            invariant
                i <= length,
                length == items.len(),
                length <= max_loop_length(),
                loop_items(source@, opt_text(*key)) == Ok::<Seq<LoopItem>, ErrorModel>(items),
                env == self@,
                models == nodes_view(body@),
                stack@ == scopes,
                scopes == old(stack)@,
                total.stack == scopes,
                total == render_iterations(
                    env,
                    opt_text(*key),
                    item@,
                    items,
                    0,
                    models,
                    scopes,
                    depth as nat,
                ),
                ({
                    let rest = render_iterations(
                        env,
                        opt_text(*key),
                        item@,
                        items,
                        i as nat,
                        models,
                        scopes,
                        depth as nat,
                    );
                    &&& old(output)@ + total.text == output@ + rest.text
                    &&& total.error == rest.error
                }),
            decreases length - i,
        {
            let ghost written = output@;
            let ghost rest = render_iterations(
                env,
                opt_text(*key),
                item@,
                items,
                i as nat,
                models,
                scopes,
                depth as nat,
            );
            let current = item_at(source, i);
            let frame = iteration_frame(key, item, current, i, length);
            stack.push(frame);
            let ghost opened = stack@;
            let rendered = self.render_nodes(body, stack, output, depth);
            proof {
                lemma_render_nodes_same_outer(env, models, 0, opened, depth as nat);
            }
            let _ = stack.pop();
            assert(stack@ =~= scopes);
            match rendered {
                Ok(()) => {},
                Err(error) => {
                    return Err(error);
                },
            }
            proof {
                let once = render_nodes(env, models, 0, opened, depth as nat);
                let after = render_iterations(
                    env,
                    opt_text(*key),
                    item@,
                    items,
                    (i + 1) as nat,
                    models,
                    scopes,
                    depth as nat,
                );
                assert(rest.text == once.text + after.text);
                assert(written + (once.text + after.text) =~= output@ + after.text);
            }
            i += 1;
        }
        proof {
            let rest = render_iterations(
                env,
                opt_text(*key),
                item@,
                items,
                i as nat,
                models,
                scopes,
                depth as nat,
            );
            assert(output@ + rest.text =~= output@);
        }
        Ok(())
    }
}

} // verus!

verus! {

/// The frame that a render starts in.
pub open spec fn initial_stack() -> Seq<FrameModel> {
    seq![root_frame()]
}

/// The evaluator of one render. It owns the scopes, which it opens when the
/// render begins and has closed again when the render ends, however it ends.
pub struct Processor<'a, F, G> {
    environment: Environment<'a, F, G>,
    call_stack: CallStack<'a>,
    depth: usize,
}

impl<'a, F: Filter, G: Function> Processor<'a, F, G> {
    /// What this processor reads.
    pub closed spec fn env(&self) -> Env {
        self.environment@
    }

    /// How deep macro calls may nest.
    pub closed spec fn depth(&self) -> nat {
        self.depth as nat
    }

    /// The scopes that are open.
    pub closed spec fn scopes(&self) -> Seq<FrameModel> {
        self.call_stack@
    }

    /// A processor for one render of `template`, in which macro calls may nest
    /// `depth` deep.
    pub fn new(
        template: &'a Template,
        catalog: &'a Catalog<F, G>,
        context: &'a Context,
        should_escape: bool,
        attached: &'a Registry<F, G>,
        depth: usize,
    ) -> (r: Self)
        ensures
            r.env() == (Env {
                template: template@,
                catalog: catalog@,
                context: context@,
                attached: attached@,
                escape: should_escape,
            }),
            r.depth() == depth,
            r.scopes().len() == 0,
    {
        Processor {
            environment: Environment { template, catalog, context, attached, should_escape },
            call_stack: CallStack::new(),
            depth,
        }
    }

    /// Renders the template into `output`: the text of the nodes in order, up
    /// to the first failure. No scope is open afterwards.
    pub fn render(&mut self, output: &mut String) -> (r: Result<(), Error>)
        ensures
            final(self).env() == old(self).env(),
            final(self).depth() == old(self).depth(),
            final(self).scopes().len() == 0,
            ({
                let outcome = render_nodes(
                    old(self).env(),
                    old(self).env().template.nodes,
                    0,
                    initial_stack(),
                    old(self).depth(),
                );
                &&& final(output)@ == old(output)@ + outcome.text
                &&& error_view(r) == outcome.error
            }),
    {
        self.call_stack = CallStack::new();
        self.call_stack.push(StackFrame::plain());
        assert(self.call_stack@ =~= initial_stack());
        let rendered = self.environment.render_nodes(
            &self.environment.template.nodes,
            &mut self.call_stack,
            output,
            self.depth,
        );
        proof {
            lemma_render_nodes_same_outer(
                self.env(),
                self.env().template.nodes,
                0,
                initial_stack(),
                self.depth(),
            );
        }
        let _ = self.call_stack.pop();
        rendered
    }
}

} // verus!
