//! The parsed form of a template: text, expressions and control flow as a tree,
//! together with the macros that the template declares.

use vstd::prelude::*;
use crate::table::Named;
use crate::value::{Value, ValueModel};

verus! {

/// An expression: something that evaluates to a value.
#[derive(Debug, PartialEq, Eq)]
pub enum Expr {
    /// A value written in the template.
    Literal(Value),
    /// A root name followed by accessors, as in `user.roles[i]`.
    Path { root: String, accessors: Vec<Accessor> },
    /// A filter applied to a subject, with named arguments.
    Filter { subject: Box<Expr>, name: String, args: Vec<Arg> },
    /// A function called with named arguments.
    Function { name: String, args: Vec<Arg> },
    /// A macro called with arguments by position and by name; its value is the
    /// text it renders.
    MacroCall { name: String, positional: Vec<Expr>, named: Vec<Arg> },
}

/// One step of a path.
#[derive(Debug, PartialEq, Eq)]
pub enum Accessor {
    /// `.name`: the key is the name itself.
    Static(String),
    /// `[expr]`: the key is what the expression evaluates to.
    Dynamic(Expr),
}

/// A named argument of a call.
#[derive(Debug, PartialEq, Eq)]
pub struct Arg {
    pub name: String,
    pub value: Expr,
}

/// A node of a template's tree.
#[derive(Debug, PartialEq, Eq)]
pub enum Node {
    /// Literal text, written out as it stands.
    Text(String),
    /// An expression whose value is written out, escaped where escaping is on.
    Expr(Expr),
    /// Binds a name in the innermost frame.
    Assign { name: String, value: Expr },
    /// Renders `body` once for each item of what `source` evaluates to.
    For { key: Option<String>, item: String, source: Expr, body: Vec<Node> },
}

/// A parameter of a macro, with the expression that stands in when a call leaves
/// it out.
#[derive(Debug, PartialEq, Eq)]
pub struct Param {
    pub name: String,
    pub default: Option<Expr>,
}

/// A macro: a named, parameterised fragment. `owner` is the position, among the
/// catalog's templates, of the template that declares it.
#[derive(Debug, PartialEq, Eq)]
pub struct MacroDefinition {
    pub name: String,
    pub params: Vec<Param>,
    pub body: Vec<Node>,
    pub owner: usize,
}

/// A parsed template.
#[derive(Debug, PartialEq, Eq)]
pub struct Template {
    pub name: String,
    pub path: Option<String>,
    pub nodes: Vec<Node>,
    pub macros: Vec<MacroDefinition>,
}

/// What an `Expr` denotes.
pub enum ExprModel {
    Literal(ValueModel),
    Path { root: Seq<char>, accessors: Seq<AccessorModel> },
    Filter { subject: Box<ExprModel>, name: Seq<char>, args: Seq<ArgModel> },
    Function { name: Seq<char>, args: Seq<ArgModel> },
    MacroCall { name: Seq<char>, positional: Seq<ExprModel>, named: Seq<ArgModel> },
}

/// What an `Accessor` denotes.
pub enum AccessorModel {
    Static(Seq<char>),
    Dynamic(ExprModel),
}

/// What an `Arg` denotes.
pub struct ArgModel {
    pub name: Seq<char>,
    pub value: ExprModel,
}

/// What a `Node` denotes.
pub enum NodeModel {
    Text(Seq<char>),
    Expr(ExprModel),
    Assign { name: Seq<char>, value: ExprModel },
    For { key: Option<Seq<char>>, item: Seq<char>, source: ExprModel, body: Seq<NodeModel> },
}

/// What a `Param` denotes.
pub struct ParamModel {
    pub name: Seq<char>,
    pub default: Option<ExprModel>,
}

/// What a `MacroDefinition` denotes.
pub struct MacroModel {
    pub name: Seq<char>,
    pub params: Seq<ParamModel>,
    pub body: Seq<NodeModel>,
    pub owner: nat,
}

/// What a `Template` denotes.
pub struct TemplateModel {
    pub name: Seq<char>,
    pub path: Option<Seq<char>>,
    pub nodes: Seq<NodeModel>,
    pub macros: Seq<MacroModel>,
}

/// The characters of an optional string.
pub open spec fn opt_text(s: Option<String>) -> Option<Seq<char>> {
    match s {
        Some(s) => Some(s@),
        None => None,
    }
}

/// The model of an expression: the same tree over the models of its strings,
/// values and lists.
pub open spec fn expr_model(e: Expr) -> ExprModel
    decreases e,
{
    match e {
        Expr::Literal(v) => ExprModel::Literal(v@),
        Expr::Path { root, accessors } => ExprModel::Path {
            root: root@,
            accessors: Seq::new(
                accessors@.len(),
                |i: int|
                    if 0 <= i < accessors@.len() {
                        accessor_model(accessors@[i])
                    } else {
                        AccessorModel::Static(Seq::empty())
                    },
            ),
        },
        Expr::Filter { subject, name, args } => ExprModel::Filter {
            subject: Box::new(expr_model(*subject)),
            name: name@,
            args: Seq::new(
                args@.len(),
                |i: int|
                    if 0 <= i < args@.len() {
                        arg_model(args@[i])
                    } else {
                        ArgModel { name: Seq::empty(), value: ExprModel::Literal(ValueModel::Null) }
                    },
            ),
        },
        Expr::Function { name, args } => ExprModel::Function {
            name: name@,
            args: Seq::new(
                args@.len(),
                |i: int|
                    if 0 <= i < args@.len() {
                        arg_model(args@[i])
                    } else {
                        ArgModel { name: Seq::empty(), value: ExprModel::Literal(ValueModel::Null) }
                    },
            ),
        },
        Expr::MacroCall { name, positional, named } => ExprModel::MacroCall {
            name: name@,
            positional: Seq::new(
                positional@.len(),
                |i: int|
                    if 0 <= i < positional@.len() {
                        expr_model(positional@[i])
                    } else {
                        ExprModel::Literal(ValueModel::Null)
                    },
            ),
            named: Seq::new(
                named@.len(),
                |i: int|
                    if 0 <= i < named@.len() {
                        arg_model(named@[i])
                    } else {
                        ArgModel { name: Seq::empty(), value: ExprModel::Literal(ValueModel::Null) }
                    },
            ),
        },
    }
}

/// The model of an accessor.
pub open spec fn accessor_model(a: Accessor) -> AccessorModel
    decreases a,
{
    match a {
        Accessor::Static(name) => AccessorModel::Static(name@),
        Accessor::Dynamic(e) => AccessorModel::Dynamic(expr_model(e)),
    }
}

/// The model of an argument.
pub open spec fn arg_model(a: Arg) -> ArgModel
    decreases a,
{
    ArgModel { name: a.name@, value: expr_model(a.value) }
}

/// The model of a node: the same tree over the models of its strings,
/// expressions and lists.
pub open spec fn node_model(n: Node) -> NodeModel
    decreases n,
{
    match n {
        Node::Text(s) => NodeModel::Text(s@),
        Node::Expr(e) => NodeModel::Expr(expr_model(e)),
        Node::Assign { name, value } => NodeModel::Assign { name: name@, value: expr_model(value) },
        Node::For { key, item, source, body } => NodeModel::For {
            key: opt_text(key),
            item: item@,
            source: expr_model(source),
            body: Seq::new(
                body@.len(),
                |i: int|
                    if 0 <= i < body@.len() {
                        node_model(body@[i])
                    } else {
                        NodeModel::Text(Seq::empty())
                    },
            ),
        },
    }
}

impl View for Expr {
    type V = ExprModel;

    open spec fn view(&self) -> ExprModel {
        expr_model(*self)
    }
}

impl View for Accessor {
    type V = AccessorModel;

    open spec fn view(&self) -> AccessorModel {
        accessor_model(*self)
    }
}

impl View for Arg {
    type V = ArgModel;

    open spec fn view(&self) -> ArgModel {
        arg_model(*self)
    }
}

impl View for Node {
    type V = NodeModel;

    open spec fn view(&self) -> NodeModel {
        node_model(*self)
    }
}

/// The models of a list of accessors.
pub open spec fn accessors_view(accessors: Seq<Accessor>) -> Seq<AccessorModel> {
    Seq::new(accessors.len(), |i: int| accessors[i]@)
}

/// The models of a list of expressions.
pub open spec fn exprs_view(exprs: Seq<Expr>) -> Seq<ExprModel> {
    Seq::new(exprs.len(), |i: int| exprs[i]@)
}

/// The models of a list of arguments.
pub open spec fn args_view(args: Seq<Arg>) -> Seq<ArgModel> {
    Seq::new(args.len(), |i: int| args[i]@)
}

/// The models of a list of nodes.
pub open spec fn nodes_view(nodes: Seq<Node>) -> Seq<NodeModel> {
    Seq::new(nodes.len(), |i: int| nodes[i]@)
}

/// The models of a list of parameters.
pub open spec fn params_view(params: Seq<Param>) -> Seq<ParamModel> {
    Seq::new(params.len(), |i: int| params[i]@)
}

/// The models of a list of macros.
pub open spec fn macros_view(macros: Seq<MacroDefinition>) -> Seq<MacroModel> {
    Seq::new(macros.len(), |i: int| macros[i]@)
}

/// The view of an expression that holds a list is built from that list's views.
pub proof fn lemma_expr_view(e: Expr)
    ensures
        e matches Expr::Path { root, accessors } ==> e@ == (ExprModel::Path {
            root: root@,
            accessors: accessors_view(accessors@),
        }),
        e matches Expr::Filter { subject, name, args } ==> e@ == (ExprModel::Filter {
            subject: Box::new(subject@),
            name: name@,
            args: args_view(args@),
        }),
        e matches Expr::Function { name, args } ==> e@ == (ExprModel::Function {
            name: name@,
            args: args_view(args@),
        }),
        e matches Expr::MacroCall { name, positional, named } ==> e@ == (ExprModel::MacroCall {
            name: name@,
            positional: exprs_view(positional@),
            named: args_view(named@),
        }),
{
    match e {
        Expr::Path { root, accessors } => {
            assert(e@->accessors =~= accessors_view(accessors@));
        },
        Expr::Filter { subject, name, args } => {
            assert(e@->Filter_args =~= args_view(args@));
        },
        Expr::Function { name, args } => {
            assert(e@->Function_args =~= args_view(args@));
        },
        Expr::MacroCall { name, positional, named } => {
            assert(e@->positional =~= exprs_view(positional@));
            assert(e@->named =~= args_view(named@));
        },
        _ => {},
    }
}

/// The view of a loop node holds the views of the nodes of its body.
pub proof fn lemma_node_view(n: Node)
    ensures
        n matches Node::For { key, item, source, body } ==> n@ == (NodeModel::For {
            key: opt_text(key),
            item: item@,
            source: source@,
            body: nodes_view(body@),
        }),
{
    match n {
        Node::For { key, item, source, body } => {
            assert(n@->body =~= nodes_view(body@));
        },
        _ => {},
    }
}

impl View for Param {
    type V = ParamModel;

    open spec fn view(&self) -> ParamModel {
        ParamModel {
            name: self.name@,
            default: match self.default {
                Some(e) => Some(e@),
                None => None,
            },
        }
    }
}

impl View for MacroDefinition {
    type V = MacroModel;

    open spec fn view(&self) -> MacroModel {
        MacroModel {
            name: self.name@,
            params: params_view(self.params@),
            body: nodes_view(self.body@),
            owner: self.owner as nat,
        }
    }
}

impl View for Template {
    type V = TemplateModel;

    open spec fn view(&self) -> TemplateModel {
        TemplateModel {
            name: self.name@,
            path: opt_text(self.path),
            nodes: nodes_view(self.nodes@),
            macros: macros_view(self.macros@),
        }
    }
}

impl Named for Arg {
    open spec fn name_view(&self) -> Seq<char> {
        self.name@
    }

    fn name(&self) -> (r: &String) {
        &self.name
    }
}

impl Named for MacroDefinition {
    open spec fn name_view(&self) -> Seq<char> {
        self.name@
    }

    fn name(&self) -> (r: &String) {
        &self.name
    }
}

} // verus!
