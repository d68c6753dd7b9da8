//! What rendering means: the text, the scopes and the failure that a template
//! yields, defined over the models of templates and values.

use vstd::prelude::*;
use crate::catalog::CatalogModel;
use crate::context::lookup_entry;
use crate::errors::ErrorModel;
use crate::registry::{FilterModel, FunctionModel, RegistryModel};
use crate::renderer::call_stack::{active_owner, bind_innermost, lookup_stack};
use crate::renderer::for_loop::{loop_frame, loop_items, LoopItem};
use crate::renderer::square_brackets::walk;
use crate::renderer::stack_frame::{FrameKindModel, FrameModel};
use crate::table::find_last;
use crate::template::{
    AccessorModel, ArgModel, ExprModel, MacroModel, NodeModel, ParamModel, TemplateModel,
};
use crate::utils::escape;
use crate::value::{render_value, EntryModel, ValueModel};

verus! {

/// All that a render reads: the template, the catalog behind it, the context,
/// the callables attached for this render, and whether substitutions are
/// escaped.
pub struct Env {
    pub template: TemplateModel,
    pub catalog: CatalogModel,
    pub context: Seq<EntryModel>,
    pub attached: RegistryModel,
    pub escape: bool,
}

/// The value of an expression, and whether it is written out as it stands.
pub struct EvaluatedModel {
    pub value: ValueModel,
    pub safe: bool,
}

/// The arguments of a macro call, evaluated: those given by position, in order,
/// and those given by name.
pub struct Supplied {
    pub positional: Seq<ValueModel>,
    pub named: Seq<EntryModel>,
}

impl Supplied {
    /// The argument for the parameter `name` at position `index`: the one given
    /// at that position, or else the one given under that name.
    pub open spec fn value(self, index: nat, name: Seq<char>) -> Option<ValueModel> {
        if index < self.positional.len() {
            Some(self.positional[index as int])
        } else {
            lookup_entry(self.named, name)
        }
    }
}

/// What rendering a piece of a template comes to: the text written, the scopes
/// afterwards, and the failure that ended it, if one did.
pub struct Outcome {
    pub text: Seq<char>,
    pub stack: Seq<FrameModel>,
    pub error: Option<ErrorModel>,
}

/// The outcome of a piece that failed before it wrote anything.
pub open spec fn failed(stack: Seq<FrameModel>, error: ErrorModel) -> Outcome {
    Outcome { text: Seq::empty(), stack, error: Some(error) }
}

/// The outcome of one piece followed by another.
pub open spec fn followed_by(first: Outcome, rest: Outcome) -> Outcome {
    Outcome { text: first.text + rest.text, stack: rest.stack, error: rest.error }
}

/// The value that a root name stands for: what the visible scopes bind it to, or
/// else what the context binds it to.
pub open spec fn resolve_root(env: Env, stack: Seq<FrameModel>, name: Seq<char>) -> Result<
    ValueModel,
    ErrorModel,
> {
    match lookup_stack(stack, name) {
        Some(v) => Ok(v),
        None => match lookup_entry(env.context, name) {
            Some(v) => Ok(v),
            None => Err(ErrorModel::Undefined(name)),
        },
    }
}

/// The filter that a name stands for: an attached one before a registered one.
pub open spec fn find_filter(env: Env, name: Seq<char>) -> Option<FilterModel> {
    match env.attached.filter(name) {
        Some(f) => Some(f),
        None => env.catalog.registry.filter(name),
    }
}

/// The function that a name stands for: an attached one before a registered
/// one.
pub open spec fn find_function(env: Env, name: Seq<char>) -> Option<FunctionModel> {
    match env.attached.function(name) {
        Some(f) => Some(f),
        None => env.catalog.registry.function(name),
    }
}

/// The template whose macros are in reach: inside a macro body the template
/// that declares the macro, elsewhere the template being rendered.
pub open spec fn active_template(env: Env, stack: Seq<FrameModel>) -> Option<TemplateModel> {
    match active_owner(stack) {
        Some(owner) => if owner < env.catalog.templates.len() {
            Some(env.catalog.templates[owner as int])
        } else {
            None
        },
        None => Some(env.template),
    }
}

/// The names of a list of macros, in order.
pub open spec fn macro_names(macros: Seq<MacroModel>) -> Seq<Seq<char>> {
    Seq::new(macros.len(), |i: int| macros[i].name)
}

/// The macro that a name stands for where the scopes are `stack`.
pub open spec fn find_macro(env: Env, stack: Seq<FrameModel>, name: Seq<char>) -> Option<
    MacroModel,
> {
    match active_template(env, stack) {
        Some(template) => match find_last(macro_names(template.macros), name) {
            Some(i) => Some(template.macros[i]),
            None => None,
        },
        None => None,
    }
}

/// What a call of the callable `name` evaluates to, given what the callable
/// returned.
pub open spec fn finish_call(
    name: Seq<char>,
    returned: Result<ValueModel, Seq<char>>,
    safe: bool,
) -> Result<EvaluatedModel, ErrorModel> {
    match returned {
        Ok(value) => Ok(EvaluatedModel { value, safe }),
        Err(cause) => Err(ErrorModel::CallableFailed { name, cause }),
    }
}

/// The text written for the value of an expression: the value as text, escaped
/// if escaping is on and the value is not marked safe.
pub open spec fn written(env: Env, v: EvaluatedModel) -> Seq<char> {
    if env.escape && !v.safe {
        escape(render_value(v.value))
    } else {
        render_value(v.value)
    }
}

/// The frame that a macro body starts in.
pub open spec fn macro_frame(owner: nat) -> FrameModel {
    FrameModel { kind: FrameKindModel::MacroCall { owner }, bindings: Seq::empty() }
}

/// The value of an expression where the scopes are `stack` and macro calls may
/// still nest `depth` deep.
///
/// A literal is its value. A path first has the keys of its accessors
/// evaluated, from left to right, then its root looked up, then the keys applied
/// one after the other. A filter or function is looked up first; then the
/// subject and the arguments are evaluated and the callable is applied to them.
/// A macro is looked up first, in the template whose macros are in reach; then
/// its arguments are evaluated, those by position before those by name, and the
/// macro is called one level deeper.
pub open spec fn eval_expr(env: Env, e: ExprModel, stack: Seq<FrameModel>, depth: nat) -> Result<
    EvaluatedModel,
    ErrorModel,
>
    decreases depth, 0nat, e, 0nat,
{
    match e {
        ExprModel::Literal(value) => Ok(EvaluatedModel { value, safe: false }),
        ExprModel::Path { root, accessors } => match eval_keys(env, accessors, 0, stack, depth) {
            Err(error) => Err(error),
            Ok(keys) => match resolve_root(env, stack, root) {
                Err(error) => Err(error),
                Ok(value) => match walk(value, keys) {
                    Err(error) => Err(error),
                    Ok(value) => Ok(EvaluatedModel { value, safe: false }),
                },
            },
        },
        ExprModel::Filter { subject, name, args } => match find_filter(env, name) {
            None => Err(ErrorModel::UnknownCallable(name)),
            Some(filter) => match eval_expr(env, *subject, stack, depth) {
                Err(error) => Err(error),
                Ok(subject) => match eval_args(env, args, 0, stack, depth) {
                    Err(error) => Err(error),
                    Ok(values) => finish_call(
                        name,
                        (filter.output)(subject.value, values),
                        filter.safe,
                    ),
                },
            },
        },
        ExprModel::Function { name, args } => match find_function(env, name) {
            None => Err(ErrorModel::UnknownCallable(name)),
            Some(function) => match eval_args(env, args, 0, stack, depth) {
                Err(error) => Err(error),
                Ok(values) => finish_call(name, (function.output)(values), function.safe),
            },
        },
        ExprModel::MacroCall { name, positional, named } => match find_macro(env, stack, name) {
            None => Err(ErrorModel::UnknownCallable(name)),
            Some(definition) => if depth == 0 {
                Err(ErrorModel::RecursionExhausted)
            } else if definition.owner >= env.catalog.templates.len() {
                Err(ErrorModel::UnknownCallable(name))
            } else {
                match eval_values(env, positional, 0, stack, depth) {
                    Err(error) => Err(error),
                    Ok(positional) => match eval_args(env, named, 0, stack, depth) {
                        Err(error) => Err(error),
                        Ok(named) => invoke(
                            env,
                            definition,
                            Supplied { positional, named },
                            stack,
                            (depth - 1) as nat,
                        ),
                    },
                }
            },
        },
    }
}

/// The keys that the accessors from position `from` on stand for: a name for a
/// static one, the value of its expression for a dynamic one.
pub open spec fn eval_keys(
    env: Env,
    accessors: Seq<AccessorModel>,
    from: nat,
    stack: Seq<FrameModel>,
    depth: nat,
) -> Result<Seq<ValueModel>, ErrorModel>
    decreases depth, 0nat, accessors, accessors.len() - from,
{
    if from >= accessors.len() {
        Ok(Seq::empty())
    } else {
        let key = match accessors[from as int] {
            AccessorModel::Static(name) => Ok(ValueModel::String(name)),
            AccessorModel::Dynamic(e) => match eval_expr(env, e, stack, depth) {
                Ok(v) => Ok(v.value),
                Err(error) => Err(error),
            },
        };
        match key {
            Err(error) => Err(error),
            Ok(key) => match eval_keys(env, accessors, from + 1, stack, depth) {
                Err(error) => Err(error),
                Ok(rest) => Ok(seq![key] + rest),
            },
        }
    }
}

/// The values of the expressions from position `from` on, in order.
pub open spec fn eval_values(
    env: Env,
    exprs: Seq<ExprModel>,
    from: nat,
    stack: Seq<FrameModel>,
    depth: nat,
) -> Result<Seq<ValueModel>, ErrorModel>
    decreases depth, 0nat, exprs, exprs.len() - from,
{
    if from >= exprs.len() {
        Ok(Seq::empty())
    } else {
        match eval_expr(env, exprs[from as int], stack, depth) {
            Err(error) => Err(error),
            Ok(v) => match eval_values(env, exprs, from + 1, stack, depth) {
                Err(error) => Err(error),
                Ok(rest) => Ok(seq![v.value] + rest),
            },
        }
    }
}

/// The values of the arguments from position `from` on, under their names.
pub open spec fn eval_args(
    env: Env,
    args: Seq<ArgModel>,
    from: nat,
    stack: Seq<FrameModel>,
    depth: nat,
) -> Result<Seq<EntryModel>, ErrorModel>
    decreases depth, 0nat, args, args.len() - from,
{
    if from >= args.len() {
        Ok(Seq::empty())
    } else {
        match eval_expr(env, args[from as int].value, stack, depth) {
            Err(error) => Err(error),
            Ok(v) => match eval_args(env, args, from + 1, stack, depth) {
                Err(error) => Err(error),
                Ok(rest) => Ok(seq![EntryModel { key: args[from as int].name, value: v.value }] + rest),
            },
        }
    }
}

/// What a macro call evaluates to once its arguments are evaluated: a macro
/// frame is opened on the scopes, the parameters are bound in it, and the body
/// is rendered; the text is the value, marked safe.
pub open spec fn invoke(
    env: Env,
    definition: MacroModel,
    supplied: Supplied,
    stack: Seq<FrameModel>,
    depth: nat,
) -> Result<EvaluatedModel, ErrorModel>
    decreases depth, 2nat, definition, 0nat,
{
    match bind_params(
        env,
        definition.params,
        0,
        supplied,
        stack.push(macro_frame(definition.owner)),
        depth,
    ) {
        Err(error) => Err(error),
        Ok(bound) => {
            let outcome = render_nodes(env, definition.body, 0, bound, depth);
            match outcome.error {
                Some(error) => Err(error),
                None => Ok(EvaluatedModel { value: ValueModel::String(outcome.text), safe: true }),
            }
        },
    }
}

/// The scopes after the parameters from position `from` on are bound in the
/// innermost frame: each to the argument supplied for it, or else to the value
/// of its default, evaluated in the scopes as bound so far.
pub open spec fn bind_params(
    env: Env,
    params: Seq<ParamModel>,
    from: nat,
    supplied: Supplied,
    stack: Seq<FrameModel>,
    depth: nat,
) -> Result<Seq<FrameModel>, ErrorModel>
    decreases depth, 1nat, params, params.len() - from,
{
    if from >= params.len() {
        Ok(stack)
    } else {
        let param = params[from as int];
        let value = match supplied.value(from, param.name) {
            Some(v) => Ok(v),
            None => match param.default {
                Some(e) => match eval_expr(env, e, stack, depth) {
                    Ok(v) => Ok(v.value),
                    Err(error) => Err(error),
                },
                None => Err(ErrorModel::MissingArgument(param.name)),
            },
        };
        match value {
            Err(error) => Err(error),
            Ok(value) => bind_params(
                env,
                params,
                from + 1,
                supplied,
                bind_innermost(stack, param.name, value),
                depth,
            ),
        }
    }
}

/// The outcome of rendering the nodes from position `from` on, one after the
/// other, up to the first that fails.
pub open spec fn render_nodes(
    env: Env,
    nodes: Seq<NodeModel>,
    from: nat,
    stack: Seq<FrameModel>,
    depth: nat,
) -> Outcome
    decreases depth, 1nat, nodes, nodes.len() - from,
{
    if from >= nodes.len() {
        Outcome { text: Seq::empty(), stack, error: None }
    } else {
        let first = render_node(env, nodes[from as int], stack, depth);
        if first.error is Some {
            first
        } else {
            followed_by(first, render_nodes(env, nodes, from + 1, first.stack, depth))
        }
    }
}

/// The outcome of rendering one node.
pub open spec fn render_node(env: Env, node: NodeModel, stack: Seq<FrameModel>, depth: nat) -> Outcome
    decreases depth, 1nat, node, 0nat,
{
    match node {
        NodeModel::Text(text) => Outcome { text, stack, error: None },
        NodeModel::Expr(e) => match eval_expr(env, e, stack, depth) {
            Err(error) => failed(stack, error),
            Ok(v) => Outcome { text: written(env, v), stack, error: None },
        },
        NodeModel::Assign { name, value } => match eval_expr(env, value, stack, depth) {
            Err(error) => failed(stack, error),
            Ok(v) => Outcome {
                text: Seq::empty(),
                stack: bind_innermost(stack, name, v.value),
                error: None,
            },
        },
        NodeModel::For { key, item, source, body } => match eval_expr(env, source, stack, depth) {
            Err(error) => failed(stack, error),
            Ok(v) => match loop_items(v.value, key) {
                Err(error) => failed(stack, error),
                Ok(items) => render_iterations(env, key, item, items, 0, body, stack, depth),
            },
        },
    }
}

/// The outcome of the iterations from position `from` on: for each item the body
/// is rendered in a frame of its own on top of `stack`, which is closed again
/// before the next iteration, so that every iteration starts from `stack`.
pub open spec fn render_iterations(
    env: Env,
    key: Option<Seq<char>>,
    item: Seq<char>,
    items: Seq<LoopItem>,
    from: nat,
    body: Seq<NodeModel>,
    stack: Seq<FrameModel>,
    depth: nat,
) -> Outcome
    decreases depth, 1nat, body, body.len() + 1 + items.len() - from,
{
    if from >= items.len() {
        Outcome { text: Seq::empty(), stack, error: None }
    } else {
        let frame = loop_frame(key, item, items[from as int], from, items.len());
        let once = render_nodes(env, body, 0, stack.push(frame), depth);
        if once.error is Some {
            Outcome { text: once.text, stack, error: once.error }
        } else {
            let rest = render_iterations(env, key, item, items, from + 1, body, stack, depth);
            Outcome { text: once.text + rest.text, stack, error: rest.error }
        }
    }
}

/// Two stacks of the same depth that differ at most in the bindings of the
/// innermost frame.
pub open spec fn same_outer(before: Seq<FrameModel>, after: Seq<FrameModel>) -> bool {
    &&& after.len() == before.len()
    &&& before.len() > 0 ==> after.drop_last() == before.drop_last() && after.last().kind
        == before.last().kind
}

/// Rendering a node changes at most the bindings of the innermost frame.
pub proof fn lemma_render_node_same_outer(
    env: Env,
    node: NodeModel,
    stack: Seq<FrameModel>,
    depth: nat,
)
    ensures
        same_outer(stack, render_node(env, node, stack, depth).stack),
{
    match node {
        NodeModel::Assign { name, value } => {
            if stack.len() > 0 {
                let v = eval_expr(env, value, stack, depth);
                if v is Ok {
                    assert(bind_innermost(stack, name, v->Ok_0.value).drop_last() =~= stack.drop_last());
                }
            }
        },
        _ => {},
    }
}

/// Rendering nodes changes at most the bindings of the innermost frame: no
/// frame is left open or closed, and no outer frame is touched.
pub proof fn lemma_render_nodes_same_outer(
    env: Env,
    nodes: Seq<NodeModel>,
    from: nat,
    stack: Seq<FrameModel>,
    depth: nat,
)
    ensures
        same_outer(stack, render_nodes(env, nodes, from, stack, depth).stack),
    decreases nodes.len() - from,
{
    if from < nodes.len() {
        let first = render_node(env, nodes[from as int], stack, depth);
        lemma_render_node_same_outer(env, nodes[from as int], stack, depth);
        if first.error is None {
            lemma_render_nodes_same_outer(env, nodes, from + 1, first.stack, depth);
        }
    }
}

/// The frame that a render starts in.
pub open spec fn root_frame() -> FrameModel {
    FrameModel { kind: FrameKindModel::Plain, bindings: Seq::empty() }
}

/// What rendering the template of `env` yields: the whole text, or the first
/// failure.
pub open spec fn render_template(env: Env, depth: nat) -> Result<Seq<char>, ErrorModel> {
    let outcome = render_nodes(env, env.template.nodes, 0, seq![root_frame()], depth);
    match outcome.error {
        Some(error) => Err(error),
        None => Ok(outcome.text),
    }
}

} // verus!
