use template_renderer::catalog::Catalog;
use template_renderer::context::{find_entry, Context};
use template_renderer::errors::Error;
use template_renderer::registry::{Filter, FnFilter, FnFunction, Function, Registry};
use template_renderer::renderer::call_stack::CallStack;
use template_renderer::renderer::for_loop::{item_at, iteration_frame, loop_length, metadata};
use template_renderer::renderer::macros::{finish, own_args};
use template_renderer::renderer::processor::{Environment, Processor};
use template_renderer::renderer::square_brackets::{index, walk_keys, Key};
use template_renderer::renderer::stack_frame::{Binding, Bound, FrameKind, LoopState, StackFrame};
use template_renderer::renderer::MAX_MACRO_DEPTH;
use template_renderer::table::position;
use template_renderer::template::{Accessor, Expr, MacroDefinition, Node, Template};
use template_renderer::value::{append_number, append_value, Entry, Value, ValueKind};

type FilterFn = fn(&Value, &Vec<Entry>) -> Result<Value, String>;
type FunctionFn = fn(&Vec<Entry>) -> Result<Value, String>;
type Filters = FnFilter<FilterFn>;
type Functions = FnFunction<FunctionFn>;

fn string(s: &str) -> Value {
    Value::String(s.to_string())
}

fn entry(key: &str, value: Value) -> Entry {
    Entry { key: key.to_string(), value }
}

fn sample() -> Value {
    Value::Mapping(vec![
        entry("name", string("Ann")),
        entry("tags", Value::Sequence(vec![string("a"), Value::Number(2), Value::Null])),
        entry("nested", Value::Mapping(vec![entry("deep", Value::Bool(true))])),
    ])
}

fn identity(value: &Value, _: &Vec<Entry>) -> Result<Value, String> {
    Ok(value.clone())
}

fn count(args: &Vec<Entry>) -> Result<Value, String> {
    Ok(Value::Number(args.len() as i64))
}

fn refuse(_: &Vec<Entry>) -> Result<Value, String> {
    Err("refused".to_string())
}

#[test]
fn position_is_that_of_the_last_item_of_a_name() {
    let entries = vec![
        entry("a", Value::Number(1)),
        entry("b", Value::Number(2)),
        entry("a", Value::Number(3)),
    ];
    assert_eq!(position(&entries, &"a".to_string()), Some(2));
    assert_eq!(position(&entries, &"b".to_string()), Some(1));
    assert_eq!(position(&entries, &"c".to_string()), None);
    assert_eq!(position(&Vec::<Entry>::new(), &"a".to_string()), None);
    assert_eq!(find_entry(&entries, &"a".to_string()), Some(&Value::Number(3)));
    assert_eq!(find_entry(&entries, &"".to_string()), None);
}

#[test]
fn clone_copies_the_whole_value() {
    let v = sample();
    let copy = v.clone();
    assert_eq!(copy, v);
    assert_eq!(entry("k", sample()).clone(), entry("k", sample()));
    assert_eq!(Value::Number(i64::MIN).clone(), Value::Number(i64::MIN));
}

#[test]
fn kinds() {
    assert_eq!(Value::Null.kind(), ValueKind::Null);
    assert_eq!(Value::Bool(true).kind(), ValueKind::Bool);
    assert_eq!(Value::Number(0).kind(), ValueKind::Number);
    assert_eq!(string("").kind(), ValueKind::String);
    assert_eq!(Value::Sequence(vec![]).kind(), ValueKind::Sequence);
    assert_eq!(Value::Mapping(vec![]).kind(), ValueKind::Mapping);
}

#[test]
fn numbers_in_decimal() {
    for n in [0, 1, 9, 10, 11, 99, 100, 12345, -1, -9, -10, -120, i64::MAX, i64::MIN, i64::MIN + 1] {
        let mut out = "n=".to_string();
        append_number(n, &mut out);
        assert_eq!(out, format!("n={}", n));
    }
}

#[test]
fn values_appended_as_text() {
    let mut out = "<".to_string();
    append_value(&sample(), &mut out);
    assert_eq!(out, "<[object]");
    let mut out = String::new();
    append_value(
        &Value::Sequence(vec![string("a"), Value::Number(-2), Value::Null, Value::Bool(false), sample()]),
        &mut out,
    );
    assert_eq!(out, "[a, -2, , false, [object]]");
    let mut out = String::new();
    append_value(&Value::Sequence(vec![Value::Sequence(vec![]), Value::Sequence(vec![Value::Null])]), &mut out);
    assert_eq!(out, "[[], []]");
}

#[test]
fn one_step_into_a_value() {
    let v = sample();
    assert_eq!(index(&v, &string("name")), Ok(&string("Ann")));
    assert_eq!(index(&v, &string("age")), Err(Error::KeyNotFound));
    assert_eq!(index(&v, &Value::Number(0)), Err(Error::KeyNotFound));
    assert_eq!(index(&v, &Value::Null), Err(Error::KeyNotFound));
    let tags = Value::Sequence(vec![string("a"), Value::Number(2)]);
    assert_eq!(index(&tags, &Value::Number(0)), Ok(&string("a")));
    assert_eq!(index(&tags, &Value::Number(1)), Ok(&Value::Number(2)));
    assert_eq!(index(&tags, &Value::Number(2)), Err(Error::IndexOutOfRange));
    assert_eq!(index(&tags, &Value::Number(-1)), Err(Error::IndexOutOfRange));
    assert_eq!(index(&tags, &Value::Number(i64::MAX)), Err(Error::IndexOutOfRange));
    assert_eq!(index(&tags, &Value::Number(i64::MIN)), Err(Error::IndexOutOfRange));
    assert_eq!(index(&tags, &string("0")), Err(Error::NotIndexable(ValueKind::Sequence)));
    assert_eq!(index(&tags, &Value::Bool(true)), Err(Error::NotIndexable(ValueKind::Sequence)));
    assert_eq!(index(&string("s"), &Value::Number(0)), Err(Error::NotIndexable(ValueKind::String)));
    assert_eq!(index(&Value::Null, &string("k")), Err(Error::NotIndexable(ValueKind::Null)));
    assert_eq!(index(&Value::Number(1), &Value::Null), Err(Error::NotIndexable(ValueKind::Number)));
    assert_eq!(index(&Value::Bool(true), &string("k")), Err(Error::NotIndexable(ValueKind::Bool)));
}

#[test]
fn several_steps_into_a_value() {
    let v = sample();
    let tags = "tags".to_string();
    let nested = "nested".to_string();
    let deep = "deep".to_string();
    assert_eq!(walk_keys(&v, &vec![]), Ok(&v));
    assert_eq!(
        walk_keys(&v, &vec![Key::Name(&tags), Key::Computed(Bound::Owned(Value::Number(1)))]),
        Ok(&Value::Number(2))
    );
    assert_eq!(walk_keys(&v, &vec![Key::Name(&nested), Key::Name(&deep)]), Ok(&Value::Bool(true)));
    assert_eq!(
        walk_keys(&v, &vec![Key::Name(&nested), Key::Name(&deep), Key::Name(&deep)]),
        Err(Error::NotIndexable(ValueKind::Bool))
    );
    assert_eq!(
        walk_keys(&v, &vec![Key::Name(&deep), Key::Computed(Bound::Owned(Value::Number(7)))]),
        Err(Error::KeyNotFound)
    );
    let seven = Value::Number(7);
    assert_eq!(
        walk_keys(&v, &vec![Key::Name(&tags), Key::Computed(Bound::Borrowed(&seven)), Key::Name(&deep)]),
        Err(Error::IndexOutOfRange)
    );
}

#[test]
fn bound_values() {
    let v = sample();
    let borrowed = Bound::Borrowed(&v);
    let owned = Bound::Owned(string("x"));
    assert_eq!(borrowed.get(), &v);
    assert_eq!(owned.get(), &string("x"));
    assert_eq!(borrowed.duplicate().get(), &v);
    assert_eq!(owned.duplicate().get(), &string("x"));
    assert_eq!(borrowed.into_owned(), v);
    assert_eq!(owned.into_owned(), string("x"));
}

#[test]
fn frames() {
    let v = Value::Number(1);
    let mut frame = StackFrame::plain();
    assert_eq!(frame.kind(), &FrameKind::Plain);
    assert!(frame.find(&"x".to_string()).is_none());
    frame.bind("x".to_string(), Bound::Borrowed(&v));
    frame.bind("y".to_string(), Bound::Owned(string("y")));
    assert_eq!(frame.find(&"x".to_string()).unwrap().get(), &Value::Number(1));
    frame.bind("x".to_string(), Bound::Owned(Value::Number(2)));
    assert_eq!(frame.find(&"x".to_string()).unwrap().get(), &Value::Number(2));
    assert_eq!(frame.find(&"y".to_string()).unwrap().get(), &string("y"));
    assert!(frame.find(&"z".to_string()).is_none());
    let frame: StackFrame = StackFrame::macro_call(3);
    assert_eq!(frame.kind(), &FrameKind::MacroCall { owner: 3 });
    let frame: StackFrame = StackFrame::for_loop(1, 4, Some("k".to_string()));
    match frame.kind() {
        FrameKind::ForLoop(state) => {
            assert_eq!(state.index(), 1);
            assert_eq!(state.length(), 4);
            assert_eq!(state.key(), &Some("k".to_string()));
        }
        _ => panic!("a loop frame was expected"),
    }
    let state = LoopState::new(0, 1, None);
    assert_eq!((state.index(), state.length(), state.key()), (0, 1, &None));
}

#[test]
fn call_stack_push_pop_lookup() {
    let mut stack = CallStack::new();
    assert_eq!(stack.len(), 0);
    assert!(stack.pop().is_none());
    assert!(!stack.bind("x".to_string(), Bound::Owned(Value::Number(0))));
    assert_eq!(stack.len(), 0);
    assert!(stack.lookup(&"x".to_string()).is_none());
    assert_eq!(stack.active_owner(), None);

    stack.push(StackFrame::plain());
    assert!(stack.bind("x".to_string(), Bound::Owned(Value::Number(1))));
    assert!(stack.bind("y".to_string(), Bound::Owned(Value::Number(10))));
    stack.push(StackFrame::for_loop(0, 1, None));
    assert_eq!(stack.len(), 2);
    assert_eq!(stack.lookup(&"x".to_string()).unwrap().get(), &Value::Number(1));
    assert!(stack.bind("x".to_string(), Bound::Owned(Value::Number(2))));
    assert_eq!(stack.lookup(&"x".to_string()).unwrap().get(), &Value::Number(2));
    assert_eq!(stack.lookup(&"y".to_string()).unwrap().get(), &Value::Number(10));
    assert_eq!(stack.active_owner(), None);

    stack.push(StackFrame::macro_call(7));
    assert!(stack.lookup(&"x".to_string()).is_none());
    assert!(stack.lookup(&"y".to_string()).is_none());
    assert_eq!(stack.active_owner(), Some(7));
    assert!(stack.bind("p".to_string(), Bound::Owned(Value::Number(3))));
    stack.push(StackFrame::plain());
    assert_eq!(stack.lookup(&"p".to_string()).unwrap().get(), &Value::Number(3));
    assert!(stack.lookup(&"x".to_string()).is_none());
    assert_eq!(stack.active_owner(), Some(7));
    stack.push(StackFrame::macro_call(2));
    assert_eq!(stack.active_owner(), Some(2));
    assert!(stack.lookup(&"p".to_string()).is_none());

    assert_eq!(stack.pop().unwrap().kind(), &FrameKind::MacroCall { owner: 2 });
    assert_eq!(stack.pop().unwrap().kind(), &FrameKind::Plain);
    let frame = stack.pop().unwrap();
    assert_eq!(frame.kind(), &FrameKind::MacroCall { owner: 7 });
    assert_eq!(frame.find(&"p".to_string()).unwrap().get(), &Value::Number(3));
    assert_eq!(stack.lookup(&"x".to_string()).unwrap().get(), &Value::Number(2));
    assert!(stack.pop().is_some());
    assert_eq!(stack.lookup(&"x".to_string()).unwrap().get(), &Value::Number(1));
    assert_eq!(stack.len(), 1);
    assert!(stack.pop().is_some());
    assert!(stack.pop().is_none());
}

#[test]
fn loop_sources() {
    let items = Value::Sequence(vec![string("a"), string("b")]);
    let users = Value::Mapping(vec![entry("k", Value::Number(1))]);
    let key = Some("key".to_string());
    assert_eq!(loop_length(&items, &None), Ok(2));
    assert_eq!(loop_length(&items, &key), Err(Error::NotIterable(ValueKind::Sequence)));
    assert_eq!(loop_length(&users, &None), Ok(1));
    assert_eq!(loop_length(&users, &key), Ok(1));
    assert_eq!(loop_length(&Value::Sequence(vec![]), &None), Ok(0));
    assert_eq!(loop_length(&Value::Null, &None), Err(Error::NotIterable(ValueKind::Null)));
    assert_eq!(loop_length(&Value::Bool(true), &key), Err(Error::NotIterable(ValueKind::Bool)));
    assert_eq!(loop_length(&Value::Number(3), &None), Err(Error::NotIterable(ValueKind::Number)));
    assert_eq!(loop_length(&string("abc"), &None), Err(Error::NotIterable(ValueKind::String)));

    let current = item_at(&Bound::Borrowed(&items), 1);
    assert_eq!((current.key, current.value.get()), (None, &string("b")));
    let current = item_at(&Bound::Owned(items.clone()), 0);
    assert_eq!((current.key, current.value.get()), (None, &string("a")));
    let current = item_at(&Bound::Borrowed(&users), 0);
    assert_eq!((current.key, current.value.get()), (Some("k".to_string()), &Value::Number(1)));
    let current = item_at(&Bound::Owned(users.clone()), 0);
    assert_eq!((current.key, current.value.get()), (Some("k".to_string()), &Value::Number(1)));
}

#[test]
fn loop_metadata_values() {
    assert_eq!(
        metadata(0, 3),
        Value::Mapping(vec![
            entry("index", Value::Number(0)),
            entry("index0", Value::Number(0)),
            entry("first", Value::Bool(true)),
            entry("last", Value::Bool(false)),
            entry("length", Value::Number(3)),
        ])
    );
    assert_eq!(
        metadata(2, 3),
        Value::Mapping(vec![
            entry("index", Value::Number(2)),
            entry("index0", Value::Number(2)),
            entry("first", Value::Bool(false)),
            entry("last", Value::Bool(true)),
            entry("length", Value::Number(3)),
        ])
    );
    assert_eq!(index(&metadata(0, 1), &string("last")), Ok(&Value::Bool(true)));
    assert_eq!(index(&metadata(1, 3), &string("first")), Ok(&Value::Bool(false)));
    assert_eq!(index(&metadata(1, 3), &string("last")), Ok(&Value::Bool(false)));
}

#[test]
fn frame_of_an_iteration() {
    let users = Value::Mapping(vec![entry("a", Value::Number(1)), entry("b", Value::Number(2))]);
    let source = Bound::Borrowed(&users);
    let key = Some("k".to_string());
    let item = "v".to_string();
    let frame = iteration_frame(&key, &item, item_at(&source, 1), 1, 2);
    assert_eq!(frame.find(&"k".to_string()).unwrap().get(), &string("b"));
    assert_eq!(frame.find(&"v".to_string()).unwrap().get(), &Value::Number(2));
    assert_eq!(frame.find(&"loop".to_string()).unwrap().get(), &metadata(1, 2));
    match frame.kind() {
        FrameKind::ForLoop(state) => {
            assert_eq!((state.index(), state.length(), state.key()), (1, 2, &Some("b".to_string())));
        }
        _ => panic!("a loop frame was expected"),
    }
    let frame = iteration_frame(&None, &item, item_at(&source, 0), 0, 2);
    assert!(frame.find(&"k".to_string()).is_none());
    assert_eq!(frame.find(&"v".to_string()).unwrap().get(), &Value::Number(1));

    let items = Value::Sequence(vec![string("x")]);
    let named_loop = "loop".to_string();
    let frame = iteration_frame(&None, &named_loop, item_at(&Bound::Borrowed(&items), 0), 0, 1);
    assert_eq!(frame.find(&"loop".to_string()).unwrap().get(), &string("x"));
}

#[test]
fn arguments_for_callables() {
    let v = sample();
    let args = vec![
        Binding { name: "a".to_string(), value: Bound::Borrowed(&v) },
        Binding { name: "b".to_string(), value: Bound::Owned(Value::Number(2)) },
        Binding { name: "a".to_string(), value: Bound::Owned(Value::Null) },
    ];
    assert_eq!(
        own_args(args),
        vec![entry("a", sample()), entry("b", Value::Number(2)), entry("a", Value::Null)]
    );
    assert_eq!(own_args(vec![]), vec![]);
}

#[test]
fn what_a_callable_returned() {
    let name = "f".to_string();
    let done = finish(&name, Ok(Value::Number(1)), true).unwrap();
    assert_eq!((done.value.get(), done.safe), (&Value::Number(1), true));
    let done = finish(&name, Ok(Value::Null), false).unwrap();
    assert_eq!((done.value.get(), done.safe), (&Value::Null, false));
    match finish(&name, Err("why".to_string()), true) {
        Err(error) => {
            assert_eq!(error, Error::CallableFailed { name: "f".to_string(), cause: "why".to_string() })
        }
        Ok(_) => panic!("a failure was expected"),
    }
}

#[test]
fn callables_made_of_closures() {
    let f = FnFilter::new(identity as FilterFn, true);
    assert!(f.is_safe());
    assert_eq!(f.filter(&sample(), &vec![]), Ok(sample()));
    let g = FnFunction::new(count as FunctionFn, false);
    assert!(!g.is_safe());
    assert_eq!(g.call(&vec![entry("a", Value::Null), entry("b", Value::Null)]), Ok(Value::Number(2)));
    let offset = 5;
    let adding = FnFunction::new(move |args: &Vec<Entry>| Ok(Value::Number(args.len() as i64 + offset)), false);
    assert_eq!(adding.call(&vec![]), Ok(Value::Number(5)));
}

#[test]
fn registry_finds_the_latest_of_a_name() {
    let mut registry: Registry<Filters, Functions> = Registry::new();
    assert!(registry.find_filter(&"id".to_string()).is_none());
    assert!(registry.find_function(&"count".to_string()).is_none());
    registry.register_function("f", FnFunction::new(count as FunctionFn, false));
    registry.register_function("f", FnFunction::new(refuse as FunctionFn, true));
    registry.register_filter("id", FnFilter::new(identity as FilterFn, false));
    let f = registry.find_function(&"f".to_string()).unwrap();
    assert!(f.is_safe());
    assert_eq!(f.call(&vec![]), Err("refused".to_string()));
    assert!(registry.find_function(&"id".to_string()).is_none());
    assert!(registry.find_filter(&"f".to_string()).is_none());
    assert!(!registry.find_filter(&"id".to_string()).unwrap().is_safe());
}

#[test]
fn context_holds_the_latest_binding() {
    let mut context = Context::new();
    assert_eq!(context.get(&"x".to_string()), None);
    context.insert("x", Value::Number(1));
    context.insert("y", string("y"));
    assert_eq!(context.get(&"x".to_string()), Some(&Value::Number(1)));
    context.insert("x", Value::Number(2));
    assert_eq!(context.get(&"x".to_string()), Some(&Value::Number(2)));
    assert_eq!(context.get(&"y".to_string()), Some(&string("y")));
    assert_eq!(context.get(&"z".to_string()), None);
}

#[test]
fn catalog_counts_its_templates() {
    let mut catalog: Catalog<Filters, Functions> = Catalog::new();
    let t = |name: &str| Template { name: name.to_string(), path: None, nodes: vec![], macros: vec![] };
    assert_eq!(catalog.add_template(t("a")), 0);
    assert_eq!(catalog.add_template(t("b")), 1);
    assert_eq!(catalog.templates[1].name, "b");
    catalog.add_autoescape_suffix(".html");
    assert_eq!(catalog.autoescape_suffixes, vec![".html".to_string()]);
}

#[test]
fn processor_closes_every_scope() {
    let catalog: Catalog<Filters, Functions> = Catalog::new();
    let attached: Registry<Filters, Functions> = Registry::new();
    let mut context = Context::new();
    context.insert("x", string("<x>"));
    let nodes = vec![
        Node::Expr(Expr::Path { root: "x".to_string(), accessors: vec![] }),
        Node::Assign { name: "y".to_string(), value: Expr::Literal(string("y")) },
        Node::Expr(Expr::Path { root: "y".to_string(), accessors: vec![] }),
    ];
    let t = Template { name: "t".to_string(), path: None, nodes, macros: vec![] };
    let mut processor = Processor::new(&t, &catalog, &context, true, &attached, MAX_MACRO_DEPTH);
    let mut output = String::new();
    assert_eq!(processor.render(&mut output), Ok(()));
    assert_eq!(output, "&lt;x&gt;y");
    assert_eq!(processor.render(&mut output), Ok(()));
    assert_eq!(output, "&lt;x&gt;y&lt;x&gt;y");
    let mut processor = Processor::new(&t, &catalog, &context, false, &attached, MAX_MACRO_DEPTH);
    let mut output = String::new();
    assert_eq!(processor.render(&mut output), Ok(()));
    assert_eq!(output, "<x>y");
}

#[test]
fn depth_of_macro_calls_is_counted() {
    let twice = MacroDefinition {
        name: "outer".to_string(),
        params: vec![],
        body: vec![Node::Text("o".to_string()), Node::Expr(Expr::MacroCall { name: "inner".to_string(), positional: vec![], named: vec![] })],
        owner: 0,
    };
    let inner = MacroDefinition {
        name: "inner".to_string(),
        params: vec![],
        body: vec![Node::Text("i".to_string())],
        owner: 0,
    };
    let t = Template {
        name: "t".to_string(),
        path: None,
        nodes: vec![Node::Expr(Expr::MacroCall { name: "outer".to_string(), positional: vec![], named: vec![] })],
        macros: vec![twice, inner],
    };
    let mut catalog: Catalog<Filters, Functions> = Catalog::new();
    catalog.add_template(t);
    let attached: Registry<Filters, Functions> = Registry::new();
    let context = Context::new();
    let render = |depth: usize| {
        let mut processor = Processor::new(&catalog.templates[0], &catalog, &context, false, &attached, depth);
        let mut output = String::new();
        (processor.render(&mut output), output)
    };
    assert_eq!(render(0), (Err(Error::RecursionExhausted), String::new()));
    assert_eq!(render(1), (Err(Error::RecursionExhausted), String::new()));
    assert_eq!(render(2), (Ok(()), "oi".to_string()));
    assert_eq!(render(MAX_MACRO_DEPTH), (Ok(()), "oi".to_string()));
}

#[test]
fn expressions_leave_the_scopes_as_they_are() {
    let catalog: Catalog<Filters, Functions> = Catalog::new();
    let attached: Registry<Filters, Functions> = Registry::new();
    let mut context = Context::new();
    context.insert("items", Value::Sequence(vec![string("a"), string("b")]));
    let t = Template { name: "t".to_string(), path: None, nodes: vec![], macros: vec![] };
    let environment = Environment {
        template: &t,
        catalog: &catalog,
        context: &context,
        attached: &attached,
        should_escape: false,
    };
    let mut stack = CallStack::new();
    stack.push(StackFrame::plain());
    stack.bind("i".to_string(), Bound::Owned(Value::Number(1)));
    let e = Expr::Path {
        root: "items".to_string(),
        accessors: vec![Accessor::Dynamic(Expr::Path { root: "i".to_string(), accessors: vec![] })],
    };
    for _ in 0..2 {
        let v = environment.eval_expr(&e, &mut stack, 4).unwrap();
        assert_eq!((v.value.get(), v.safe), (&string("b"), false));
        assert_eq!(stack.len(), 1);
        assert_eq!(stack.lookup(&"i".to_string()).unwrap().get(), &Value::Number(1));
    }
    let keys = vec![Key::Computed(Bound::Owned(Value::Number(0)))];
    assert_eq!(environment.resolve(&stack, &"items".to_string(), &keys).unwrap().get(), &string("a"));
    assert_eq!(environment.resolve(&stack, &"i".to_string(), &vec![]).unwrap().get(), &Value::Number(1));
    match environment.resolve(&stack, &"j".to_string(), &vec![]) {
        Err(error) => assert_eq!(error, Error::Undefined("j".to_string())),
        Ok(_) => panic!("a failure was expected"),
    }
}
