//! What holds of every render: scoping of names, of macros and of loops.

use vstd::prelude::*;
use crate::errors::ErrorModel;
use crate::renderer::call_stack::{active_owner, bind_innermost, lookup_stack};
use crate::renderer::for_loop::{loop_bindings, loop_frame, loop_items, loop_metadata, LoopItem};
use crate::renderer::semantics::{
    bind_params, eval_args, eval_expr, eval_keys, eval_values, find_macro, invoke, macro_frame,
    render_iterations, render_node, render_nodes, Env, Outcome, Supplied,
};
use crate::renderer::square_brackets::index_value;
use crate::renderer::stack_frame::FrameModel;
use crate::template::{AccessorModel, ArgModel, ExprModel, MacroModel, NodeModel, ParamModel};
use crate::table::find_last;
use crate::value::{keys_of, ValueModel};

verus! {

/// The scopes that a name can be found in: the frames from the innermost macro
/// frame on, or all frames where none is a macro frame.
pub open spec fn visible(stack: Seq<FrameModel>) -> Seq<FrameModel>
    decreases stack.len(),
{
    if stack.len() == 0 {
        stack
    } else if stack.last().kind is MacroCall {
        seq![stack.last()]
    } else {
        visible(stack.drop_last()).push(stack.last())
    }
}

/// Two outcomes with the same text, the same failure and the same visible
/// scopes.
pub open spec fn agree(first: Outcome, second: Outcome) -> bool {
    &&& first.text == second.text
    &&& first.error == second.error
    &&& visible(first.stack) == visible(second.stack)
}

/// A macro frame hides what is below it; any other frame is added to what was
/// visible.
pub proof fn lemma_visible_push(stack: Seq<FrameModel>, frame: FrameModel)
    ensures
        visible(stack.push(frame)) == if frame.kind is MacroCall {
            seq![frame]
        } else {
            visible(stack).push(frame)
        },
{
    assert(stack.push(frame).drop_last() =~= stack);
}

/// Binding a name in the innermost frame binds it in the innermost visible
/// frame.
pub proof fn lemma_visible_bind(stack: Seq<FrameModel>, name: Seq<char>, value: ValueModel)
    ensures
        visible(bind_innermost(stack, name, value)) == bind_innermost(visible(stack), name, value),
{
    if stack.len() > 0 {
        let front = stack.drop_last();
        let bound = stack.last().bind(name, value);
        assert(bind_innermost(stack, name, value).drop_last() =~= front);
        if stack.last().kind is MacroCall {
            assert(seq![stack.last()].drop_last().push(bound) =~= seq![bound]);
        } else {
            assert(visible(front).push(stack.last()).drop_last() =~= visible(front));
        }
    }
}

/// A name is looked up in the visible scopes only.
pub proof fn lemma_lookup_visible(stack: Seq<FrameModel>, name: Seq<char>)
    ensures
        lookup_stack(visible(stack), name) == lookup_stack(stack, name),
    decreases stack.len(),
{
    if stack.len() > 0 {
        if stack.last().kind is MacroCall {
            assert(seq![stack.last()].last() == stack.last());
        } else {
            lemma_lookup_visible(stack.drop_last(), name);
            assert(visible(stack).drop_last() =~= visible(stack.drop_last()));
        }
    }
}

/// The template whose macros are in reach is decided by the visible scopes.
pub proof fn lemma_active_owner_visible(stack: Seq<FrameModel>)
    ensures
        active_owner(visible(stack)) == active_owner(stack),
    decreases stack.len(),
{
    if stack.len() > 0 {
        if stack.last().kind is MacroCall {
            assert(seq![stack.last()].last() == stack.last());
        } else {
            lemma_active_owner_visible(stack.drop_last());
            assert(visible(stack).drop_last() =~= visible(stack.drop_last()));
        }
    }
}

/// An expression evaluates to the same in two stacks with the same visible
/// scopes.
pub proof fn lemma_eval_expr_visible(
    env: Env,
    e: ExprModel,
    first: Seq<FrameModel>,
    second: Seq<FrameModel>,
    depth: nat,
)
    requires
        visible(first) == visible(second),
    ensures
        eval_expr(env, e, first, depth) == eval_expr(env, e, second, depth),
    decreases depth, 0nat, e, 0nat,
{
    match e {
        ExprModel::Literal(_) => {},
        ExprModel::Path { root, accessors } => {
            lemma_eval_keys_visible(env, accessors, 0, first, second, depth);
            lemma_lookup_visible(first, root);
            lemma_lookup_visible(second, root);
        },
        ExprModel::Filter { subject, name, args } => {
            lemma_eval_expr_visible(env, *subject, first, second, depth);
            lemma_eval_args_visible(env, args, 0, first, second, depth);
        },
        ExprModel::Function { name, args } => {
            lemma_eval_args_visible(env, args, 0, first, second, depth);
        },
        ExprModel::MacroCall { name, positional, named } => {
            lemma_active_owner_visible(first);
            lemma_active_owner_visible(second);
            assert(find_macro(env, first, name) == find_macro(env, second, name));
            lemma_eval_values_visible(env, positional, 0, first, second, depth);
            lemma_eval_args_visible(env, named, 0, first, second, depth);
            match find_macro(env, first, name) {
                Some(definition) => {
                    if depth > 0 {
                        match (
                            eval_values(env, positional, 0, first, depth),
                            eval_args(env, named, 0, first, depth),
                        ) {
                            (Ok(positional), Ok(named)) => {
                                lemma_invoke_any_scopes(
                                    env,
                                    definition,
                                    Supplied { positional, named },
                                    first,
                                    second,
                                    (depth - 1) as nat,
                                );
                            },
                            _ => {},
                        }
                    }
                },
                None => {},
            }
        },
    }
}

/// The keys of a path evaluate to the same in two stacks with the same visible
/// scopes.
pub proof fn lemma_eval_keys_visible(
    env: Env,
    accessors: Seq<AccessorModel>,
    from: nat,
    first: Seq<FrameModel>,
    second: Seq<FrameModel>,
    depth: nat,
)
    requires
        visible(first) == visible(second),
    ensures
        eval_keys(env, accessors, from, first, depth) == eval_keys(
            env,
            accessors,
            from,
            second,
            depth,
        ),
    decreases depth, 0nat, accessors, accessors.len() - from,
{
    if from < accessors.len() {
        match accessors[from as int] {
            AccessorModel::Static(_) => {},
            AccessorModel::Dynamic(e) => {
                lemma_eval_expr_visible(env, e, first, second, depth);
            },
        }
        lemma_eval_keys_visible(env, accessors, from + 1, first, second, depth);
    }
}

/// Expressions evaluate to the same in two stacks with the same visible scopes.
pub proof fn lemma_eval_values_visible(
    env: Env,
    exprs: Seq<ExprModel>,
    from: nat,
    first: Seq<FrameModel>,
    second: Seq<FrameModel>,
    depth: nat,
)
    requires
        visible(first) == visible(second),
    ensures
        eval_values(env, exprs, from, first, depth) == eval_values(env, exprs, from, second, depth),
    decreases depth, 0nat, exprs, exprs.len() - from,
{
    if from < exprs.len() {
        lemma_eval_expr_visible(env, exprs[from as int], first, second, depth);
        lemma_eval_values_visible(env, exprs, from + 1, first, second, depth);
    }
}

/// The arguments of a call evaluate to the same in two stacks with the same
/// visible scopes.
pub proof fn lemma_eval_args_visible(
    env: Env,
    args: Seq<ArgModel>,
    from: nat,
    first: Seq<FrameModel>,
    second: Seq<FrameModel>,
    depth: nat,
)
    requires
        visible(first) == visible(second),
    ensures
        eval_args(env, args, from, first, depth) == eval_args(env, args, from, second, depth),
    decreases depth, 0nat, args, args.len() - from,
{
    if from < args.len() {
        lemma_eval_expr_visible(env, args[from as int].value, first, second, depth);
        lemma_eval_args_visible(env, args, from + 1, first, second, depth);
    }
}

/// A macro is evaluated as if it were called from nowhere: with the same
/// arguments it comes to the same whatever the scopes of its caller hold. The
/// defaults of its parameters and its body see the parameters and the context,
/// and nothing that a caller has bound.
pub proof fn lemma_invoke_any_scopes(
    env: Env,
    definition: MacroModel,
    supplied: Supplied,
    first: Seq<FrameModel>,
    second: Seq<FrameModel>,
    depth: nat,
)
    ensures
        invoke(env, definition, supplied, first, depth) == invoke(
            env,
            definition,
            supplied,
            second,
            depth,
        ),
    decreases depth, 2nat, definition, 0nat,
{
    let frame = macro_frame(definition.owner);
    lemma_visible_push(first, frame);
    lemma_visible_push(second, frame);
    lemma_bind_params_visible(
        env,
        definition.params,
        0,
        supplied,
        first.push(frame),
        second.push(frame),
        depth,
    );
    match bind_params(env, definition.params, 0, supplied, first.push(frame), depth) {
        Ok(bound) => {
            let other = bind_params(
                env,
                definition.params,
                0,
                supplied,
                second.push(frame),
                depth,
            )->Ok_0;
            lemma_render_nodes_visible(env, definition.body, 0, bound, other, depth);
        },
        Err(_) => {},
    }
}

/// Inside a macro frame an expression evaluates as if no frame were below it.
/// This holds of the default of a parameter as of any expression of the body: a
/// name that the caller has bound is not found, whatever the caller's scopes
/// hold.
pub proof fn lemma_macro_frame_hides_caller(
    env: Env,
    e: ExprModel,
    caller: Seq<FrameModel>,
    frame: FrameModel,
    depth: nat,
)
    requires
        frame.kind is MacroCall,
    ensures
        eval_expr(env, e, caller.push(frame), depth) == eval_expr(env, e, seq![frame], depth),
{
    lemma_visible_push(caller, frame);
    assert(seq![frame] =~= Seq::<FrameModel>::empty().push(frame));
    lemma_visible_push(Seq::empty(), frame);
    lemma_eval_expr_visible(env, e, caller.push(frame), seq![frame], depth);
}

/// The parameters of a macro are bound to the same in two stacks with the same
/// visible scopes.
pub proof fn lemma_bind_params_visible(
    env: Env,
    params: Seq<ParamModel>,
    from: nat,
    supplied: Supplied,
    first: Seq<FrameModel>,
    second: Seq<FrameModel>,
    depth: nat,
)
    requires
        visible(first) == visible(second),
    ensures
        match bind_params(env, params, from, supplied, first, depth) {
            Ok(bound) => bind_params(env, params, from, supplied, second, depth) matches Ok(other)
                && visible(bound) == visible(other),
            Err(error) => bind_params(env, params, from, supplied, second, depth) == Err::<
                Seq<FrameModel>,
                ErrorModel,
            >(error),
        },
    decreases depth, 1nat, params, params.len() - from,
{
    if from < params.len() {
        let param = params[from as int];
        let value = match supplied.value(from, param.name) {
            Some(v) => Ok(v),
            None => match param.default {
                Some(e) => {
                    lemma_eval_expr_visible(env, e, first, second, depth);
                    match eval_expr(env, e, first, depth) {
                        Ok(v) => Ok(v.value),
                        Err(error) => Err(error),
                    }
                },
                None => Err(ErrorModel::MissingArgument(param.name)),
            },
        };
        match value {
            Ok(value) => {
                lemma_visible_bind(first, param.name, value);
                lemma_visible_bind(second, param.name, value);
                lemma_bind_params_visible(
                    env,
                    params,
                    from + 1,
                    supplied,
                    bind_innermost(first, param.name, value),
                    bind_innermost(second, param.name, value),
                    depth,
                );
            },
            Err(_) => {},
        }
    }
}

/// Nodes render to the same in two stacks with the same visible scopes, and
/// leave the same visible scopes.
pub proof fn lemma_render_nodes_visible(
    env: Env,
    nodes: Seq<NodeModel>,
    from: nat,
    first: Seq<FrameModel>,
    second: Seq<FrameModel>,
    depth: nat,
)
    requires
        visible(first) == visible(second),
    ensures
        agree(
            render_nodes(env, nodes, from, first, depth),
            render_nodes(env, nodes, from, second, depth),
        ),
    decreases depth, 1nat, nodes, nodes.len() - from,
{
    if from < nodes.len() {
        lemma_render_node_visible(env, nodes[from as int], first, second, depth);
        let one = render_node(env, nodes[from as int], first, depth);
        let other = render_node(env, nodes[from as int], second, depth);
        if one.error is None {
            lemma_render_nodes_visible(env, nodes, from + 1, one.stack, other.stack, depth);
        }
    }
}

/// A node renders to the same in two stacks with the same visible scopes, and
/// leaves the same visible scopes.
pub proof fn lemma_render_node_visible(
    env: Env,
    node: NodeModel,
    first: Seq<FrameModel>,
    second: Seq<FrameModel>,
    depth: nat,
)
    requires
        visible(first) == visible(second),
    ensures
        agree(render_node(env, node, first, depth), render_node(env, node, second, depth)),
    decreases depth, 1nat, node, 0nat,
{
    match node {
        NodeModel::Text(_) => {},
        NodeModel::Expr(e) => {
            lemma_eval_expr_visible(env, e, first, second, depth);
        },
        NodeModel::Assign { name, value } => {
            lemma_eval_expr_visible(env, value, first, second, depth);
            match eval_expr(env, value, first, depth) {
                Ok(v) => {
                    lemma_visible_bind(first, name, v.value);
                    lemma_visible_bind(second, name, v.value);
                },
                Err(_) => {},
            }
        },
        NodeModel::For { key, item, source, body } => {
            lemma_eval_expr_visible(env, source, first, second, depth);
            match eval_expr(env, source, first, depth) {
                Ok(v) => match loop_items(v.value, key) {
                    Ok(items) => {
                        lemma_render_iterations_visible(
                            env,
                            key,
                            item,
                            items,
                            0,
                            body,
                            first,
                            second,
                            depth,
                        );
                    },
                    Err(_) => {},
                },
                Err(_) => {},
            }
        },
    }
}

/// A loop renders to the same in two stacks with the same visible scopes.
pub proof fn lemma_render_iterations_visible(
    env: Env,
    key: Option<Seq<char>>,
    item: Seq<char>,
    items: Seq<LoopItem>,
    from: nat,
    body: Seq<NodeModel>,
    first: Seq<FrameModel>,
    second: Seq<FrameModel>,
    depth: nat,
)
    requires
        visible(first) == visible(second),
    ensures
        agree(
            render_iterations(env, key, item, items, from, body, first, depth),
            render_iterations(env, key, item, items, from, body, second, depth),
        ),
    decreases depth, 1nat, body, body.len() + 1 + items.len() - from,
{
    if from < items.len() {
        let frame = loop_frame(key, item, items[from as int], from, items.len());
        lemma_visible_push(first, frame);
        lemma_visible_push(second, frame);
        lemma_render_nodes_visible(env, body, 0, first.push(frame), second.push(frame), depth);
        let once = render_nodes(env, body, 0, first.push(frame), depth);
        if once.error is None {
            lemma_render_iterations_visible(
                env,
                key,
                item,
                items,
                from + 1,
                body,
                first,
                second,
                depth,
            );
        }
    }
}

/// An expression that reads no scope: it calls no macro, and no scope binds
/// the root of a path in it.
pub open spec fn reads_no_scope(e: ExprModel, stack: Seq<FrameModel>) -> bool
    decreases e,
{
    match e {
        ExprModel::Literal(_) => true,
        ExprModel::Path { root, accessors } => lookup_stack(stack, root) is None && forall|i: int|
            0 <= i < accessors.len() ==> (#[trigger] accessors[i] matches AccessorModel::Dynamic(k)
                ==> reads_no_scope(k, stack)),
        ExprModel::Filter { subject, name, args } => reads_no_scope(*subject, stack) && forall|
            i: int,
        |
            0 <= i < args.len() ==> reads_no_scope((#[trigger] args[i]).value, stack),
        ExprModel::Function { name, args } => forall|i: int|
            0 <= i < args.len() ==> reads_no_scope((#[trigger] args[i]).value, stack),
        ExprModel::MacroCall { .. } => false,
    }
}

/// Lookup in the context is pure: an expression that reads no scope evaluates
/// to what the context and the callables alone determine, the same as with no
/// scope open at all. So it evaluates to the same whenever it is evaluated
/// again, whatever the scopes have come to hold that it does not read.
pub proof fn lemma_context_lookup_is_pure(env: Env, e: ExprModel, stack: Seq<FrameModel>, depth: nat)
    requires
        reads_no_scope(e, stack),
    ensures
        eval_expr(env, e, stack, depth) == eval_expr(env, e, Seq::empty(), depth),
    decreases e, 0nat,
{
    match e {
        ExprModel::Literal(_) => {},
        ExprModel::Path { root, accessors } => {
            lemma_keys_of_context_lookup(env, accessors, 0, stack, depth);
        },
        ExprModel::Filter { subject, name, args } => {
            lemma_context_lookup_is_pure(env, *subject, stack, depth);
            lemma_args_of_context_lookup(env, args, 0, stack, depth);
        },
        ExprModel::Function { name, args } => {
            lemma_args_of_context_lookup(env, args, 0, stack, depth);
        },
        ExprModel::MacroCall { .. } => {},
    }
}

/// The keys of a path that reads no scope evaluate as with no scope open.
pub proof fn lemma_keys_of_context_lookup(
    env: Env,
    accessors: Seq<AccessorModel>,
    from: nat,
    stack: Seq<FrameModel>,
    depth: nat,
)
    requires
        forall|i: int|
            0 <= i < accessors.len() ==> (#[trigger] accessors[i] matches AccessorModel::Dynamic(k)
                ==> reads_no_scope(k, stack)),
    ensures
        eval_keys(env, accessors, from, stack, depth) == eval_keys(
            env,
            accessors,
            from,
            Seq::empty(),
            depth,
        ),
    decreases accessors, accessors.len() - from,
{
    if from < accessors.len() {
        match accessors[from as int] {
            AccessorModel::Static(_) => {},
            AccessorModel::Dynamic(k) => {
                lemma_context_lookup_is_pure(env, k, stack, depth);
            },
        }
        lemma_keys_of_context_lookup(env, accessors, from + 1, stack, depth);
    }
}

/// The arguments of a call that reads no scope evaluate as with no scope open.
pub proof fn lemma_args_of_context_lookup(
    env: Env,
    args: Seq<ArgModel>,
    from: nat,
    stack: Seq<FrameModel>,
    depth: nat,
)
    requires
        forall|i: int| 0 <= i < args.len() ==> reads_no_scope((#[trigger] args[i]).value, stack),
    ensures
        eval_args(env, args, from, stack, depth) == eval_args(env, args, from, Seq::empty(), depth),
    decreases args, args.len() - from,
{
    if from < args.len() {
        lemma_context_lookup_is_pure(env, args[from as int].value, stack, depth);
        lemma_args_of_context_lookup(env, args, from + 1, stack, depth);
    }
}

/// What iteration `index` of a loop comes to: the body rendered in the frame of
/// that iteration, on top of the scopes as they were before the loop.
pub open spec fn iteration(
    env: Env,
    key: Option<Seq<char>>,
    item: Seq<char>,
    items: Seq<LoopItem>,
    index: nat,
    body: Seq<NodeModel>,
    stack: Seq<FrameModel>,
    depth: nat,
) -> Outcome {
    render_nodes(
        env,
        body,
        0,
        stack.push(loop_frame(key, item, items[index as int], index, items.len())),
        depth,
    )
}

/// The texts of the iterations from `from` up to `to`, in a row.
pub open spec fn iteration_texts(
    env: Env,
    key: Option<Seq<char>>,
    item: Seq<char>,
    items: Seq<LoopItem>,
    from: nat,
    to: nat,
    body: Seq<NodeModel>,
    stack: Seq<FrameModel>,
    depth: nat,
) -> Seq<char>
    decreases to - from,
{
    if from >= to {
        Seq::empty()
    } else {
        iteration(env, key, item, items, from, body, stack, depth).text + iteration_texts(
            env,
            key,
            item,
            items,
            from + 1,
            to,
            body,
            stack,
            depth,
        )
    }
}

/// A loop renders its body once for each item, in order, as long as no
/// iteration fails: after the iterations from `from` up to `to` the text is
/// theirs in a row, and the loop goes on from `to`. Every iteration starts from
/// the scopes as they were before the loop, so that nothing an iteration binds
/// is seen by the next.
pub proof fn lemma_loop_iterations(
    env: Env,
    key: Option<Seq<char>>,
    item: Seq<char>,
    items: Seq<LoopItem>,
    from: nat,
    to: nat,
    body: Seq<NodeModel>,
    stack: Seq<FrameModel>,
    depth: nat,
)
    requires
        from <= to <= items.len(),
        forall|i: nat|
            from <= i < to ==> (#[trigger] iteration(
                env,
                key,
                item,
                items,
                i,
                body,
                stack,
                depth,
            )).error is None,
    ensures
        ({
            let whole = render_iterations(env, key, item, items, from, body, stack, depth);
            let rest = render_iterations(env, key, item, items, to, body, stack, depth);
            &&& whole.text == iteration_texts(env, key, item, items, from, to, body, stack, depth)
                + rest.text
            &&& whole.error == rest.error
            &&& whole.stack == stack
        }),
    decreases to - from,
{
    let rest = render_iterations(env, key, item, items, to, body, stack, depth);
    if from < to {
        assert(iteration(env, key, item, items, from, body, stack, depth).error is None);
        lemma_loop_iterations(env, key, item, items, from + 1, to, body, stack, depth);
        let once = iteration(env, key, item, items, from, body, stack, depth);
        let later = iteration_texts(env, key, item, items, from + 1, to, body, stack, depth);
        assert(once.text + (later + rest.text) =~= (once.text + later) + rest.text);
    } else {
        assert(Seq::<char>::empty() + rest.text =~= rest.text);
    }
}

/// A loop over `n` items whose iterations all succeed renders its body exactly
/// `n` times and leaves the scopes as they were.
pub proof fn lemma_loop_runs_once_per_item(
    env: Env,
    key: Option<Seq<char>>,
    item: Seq<char>,
    items: Seq<LoopItem>,
    body: Seq<NodeModel>,
    stack: Seq<FrameModel>,
    depth: nat,
)
    requires
        forall|i: nat|
            i < items.len() ==> (#[trigger] iteration(
                env,
                key,
                item,
                items,
                i,
                body,
                stack,
                depth,
            )).error is None,
    ensures
        render_iterations(env, key, item, items, 0, body, stack, depth) == (Outcome {
            text: iteration_texts(env, key, item, items, 0, items.len(), body, stack, depth),
            stack,
            error: None,
        }),
{
    lemma_loop_iterations(env, key, item, items, 0, items.len(), body, stack, depth);
    let texts = iteration_texts(env, key, item, items, 0, items.len(), body, stack, depth);
    assert(texts + Seq::<char>::empty() =~= texts);
}

/// A loop ends with its first iteration that fails: the text is that of the
/// iterations before it and of the failing one up to its failure, and the
/// scopes are as they were before the loop.
pub proof fn lemma_loop_stops_at_first_failure(
    env: Env,
    key: Option<Seq<char>>,
    item: Seq<char>,
    items: Seq<LoopItem>,
    failing: nat,
    body: Seq<NodeModel>,
    stack: Seq<FrameModel>,
    depth: nat,
)
    requires
        failing < items.len(),
        iteration(env, key, item, items, failing, body, stack, depth).error is Some,
        forall|i: nat|
            i < failing ==> (#[trigger] iteration(
                env,
                key,
                item,
                items,
                i,
                body,
                stack,
                depth,
            )).error is None,
    ensures
        render_iterations(env, key, item, items, 0, body, stack, depth) == (Outcome {
            text: iteration_texts(env, key, item, items, 0, failing, body, stack, depth)
                + iteration(env, key, item, items, failing, body, stack, depth).text,
            stack,
            error: iteration(env, key, item, items, failing, body, stack, depth).error,
        }),
{
    lemma_loop_iterations(env, key, item, items, 0, failing, body, stack, depth);
}

/// In iteration `index` of `length`, `loop.index` and `loop.index0` are the
/// position, `loop.first` is true in iteration 0 only, `loop.last` is true in
/// the last iteration only, and `loop.length` is the number of iterations.
pub proof fn lemma_loop_metadata(index: nat, length: nat)
    ensures
        index_value(loop_metadata(index, length), ValueModel::String("index"@)) == Ok::<
            ValueModel,
            ErrorModel,
        >(ValueModel::Number(index as int)),
        index_value(loop_metadata(index, length), ValueModel::String("index0"@)) == Ok::<
            ValueModel,
            ErrorModel,
        >(ValueModel::Number(index as int)),
        index_value(loop_metadata(index, length), ValueModel::String("first"@)) == Ok::<
            ValueModel,
            ErrorModel,
        >(ValueModel::Bool(index == 0)),
        index_value(loop_metadata(index, length), ValueModel::String("last"@)) == Ok::<
            ValueModel,
            ErrorModel,
        >(ValueModel::Bool(index + 1 == length)),
        index_value(loop_metadata(index, length), ValueModel::String("length"@)) == Ok::<
            ValueModel,
            ErrorModel,
        >(ValueModel::Number(length as int)),
{
    reveal_strlit("index");
    reveal_strlit("index0");
    reveal_strlit("first");
    reveal_strlit("last");
    reveal_strlit("length");
    let entries = loop_metadata(index, length)->Mapping_0;
    let keys = keys_of(entries);
    assert(keys =~= seq!["index"@, "index0"@, "first"@, "last"@, "length"@]);
    assert("index"@ != "index0"@) by {
        assert("index"@.len() != "index0"@.len());
    }
    assert("first"@[0] == 'f' && "last"@[0] == 'l' && "length"@[0] == 'l' && "index"@[0] == 'i'
        && "index0"@[0] == 'i');
    assert("last"@[1] == 'a' && "length"@[1] == 'e');
    reveal_with_fuel(find_last, 6);
    let k4 = keys.drop_last();
    let k3 = k4.drop_last();
    let k2 = k3.drop_last();
    let k1 = k2.drop_last();
    assert(keys.last() == "length"@ && k4.last() == "last"@ && k3.last() == "first"@ && k2.last()
        == "index0"@ && k1.last() == "index"@);
}

/// In the frame of an iteration the item stands under its name, the key under
/// the name declared for it, and the loop's metadata under `loop`, unless the
/// item or the key is itself called `loop`.
pub proof fn lemma_loop_frame_bindings(
    key: Option<Seq<char>>,
    item: Seq<char>,
    current: LoopItem,
    index: nat,
    length: nat,
    stack: Seq<FrameModel>,
)
    ensures
        ({
            let inside = stack.push(loop_frame(key, item, current, index, length));
            &&& lookup_stack(inside, item) == Some(current.value)
            &&& (key matches Some(name) && current.key matches Some(k) && name != item)
                ==> lookup_stack(inside, key->Some_0) == Some(ValueModel::String(current.key->Some_0))
            &&& (item != "loop"@ && key != Some("loop"@)) ==> lookup_stack(inside, "loop"@) == Some(
                loop_metadata(index, length),
            )
        }),
{
    let bindings = loop_bindings(key, item, current, index, length);
    let keys = keys_of(bindings);
    reveal_with_fuel(find_last, 4);
    assert(keys.last() == item);
    let k2 = keys.drop_last();
    match (key, current.key) {
        (Some(name), Some(k)) => {
            assert(keys =~= seq!["loop"@, name, item]);
            assert(k2.last() == name);
            assert(k2.drop_last().last() == "loop"@);
        },
        _ => {
            assert(keys =~= seq!["loop"@, item]);
            assert(k2.last() == "loop"@);
        },
    }
}

} // verus!
