//! The meaning of a NoPHP syntax tree.
//!
//! Building a module from a node of the tree either panics, reports an
//! error, or yields a module (`parse_outcome`). A module is given meaning as
//! a `Node`: the module together with the modules that its own sub-trees
//! build into, where a sub-tree that would panic when built is `None`. The
//! interpreter then runs nodes over a `State` (the output buffer and the
//! variables) or evaluates them to values; `None` from `proc_node`,
//! `run_nodes`, `eval_node` or `eval_nodes` means that the original program
//! panics there.

use vstd::prelude::*;

use crate::ast::{
    json_as_array, json_as_object, json_as_str, json_get, lemma_lookup_decreases, lookup, seq_get,
    Json,
};
use crate::modules::{display, np_less, np_type_outcome, EqualityOp, NpVal};
use crate::prelude::{ErrorKind, Outcome};

verus! {

/// The content of a module once built, with strings and trees as models.
pub enum ModuleModel {
    Php { data: Seq<Json> },
    FunctionCall { arguments: Seq<Json>, function: Seq<char> },
    Concat { entries: Seq<(Seq<char>, Json)> },
    VariableAssignment { id: Seq<char>, value: NpVal },
    Conditional { op: EqualityOp, a: Seq<Json>, b: Seq<Json>, code: Seq<Json> },
    Identifier { id: Seq<char> },
    Resolut { np_type: NpVal },
}

/// A module together with the modules that its sub-trees build into.
pub enum Node {
    /// The body of the page.
    Php(Option<Seq<Node>>),
    /// The argument modules and the name of the function.
    FunctionCall(Option<Seq<Node>>, Seq<char>),
    /// The modules of both operands, when the tree has both.
    Concat(Option<(Option<Seq<Node>>, Option<Seq<Node>>)>),
    VariableAssignment(Seq<char>, NpVal),
    /// The operator, both sides as trees, and the modules of the body.
    Conditional(EqualityOp, Seq<Json>, Seq<Json>, Option<Seq<Node>>),
    Identifier(Seq<char>),
    Resolut(NpVal),
}

/// What the program has written so far, and its variables.
pub struct State {
    pub buffer: Seq<char>,
    pub scope: Map<Seq<char>, NpVal>,
}

// ---------------------------------------------------------------------------
// Building modules from the tree

/// What `Php::try_new` does with the entries of its node.
pub open spec fn php_module(m: Seq<(Seq<char>, Json)>) -> Outcome<ModuleModel> {
    match lookup(m, "PROGRAM"@) {
        Some(p) => match json_as_array(p) {
            Some(data) => Outcome::Done(ModuleModel::Php { data }),
            None => Outcome::Panic,
        },
        None => Outcome::Panic,
    }
}

/// The name of the called function: `ID[1].VALUE` as a string.
pub open spec fn function_name(m: Seq<(Seq<char>, Json)>) -> Option<Seq<char>> {
    match lookup(m, "ID"@) {
        Some(idv) => match json_as_array(idv) {
            Some(ida) => match seq_get(ida, 1) {
                Some(e) => match json_as_object(e) {
                    Some(o) => match lookup(o, "VALUE"@) {
                        Some(v) => json_as_str(v),
                        None => None,
                    },
                    None => None,
                },
                None => None,
            },
            None => None,
        },
        None => None,
    }
}

/// The positional arguments of a call: `FUNCTION_ARGUMENTS.POSITIONAL_ARGS`.
pub open spec fn call_arguments(m: Seq<(Seq<char>, Json)>) -> Option<Seq<Json>> {
    match lookup(m, "FUNCTION_ARGUMENTS"@) {
        Some(fa) => match json_get(fa, "POSITIONAL_ARGS"@) {
            Some(pa) => json_as_array(pa),
            None => None,
        },
        None => None,
    }
}

/// What `FunctionCall::try_new` does with the entries of its node.
pub open spec fn function_call_module(m: Seq<(Seq<char>, Json)>) -> Outcome<ModuleModel> {
    match (call_arguments(m), function_name(m)) {
        (Some(arguments), Some(function)) => Outcome::Done(
            ModuleModel::FunctionCall { arguments, function },
        ),
        _ => Outcome::Panic,
    }
}

/// What `ConcatMod::try_new` does with the entries of its node.
pub open spec fn concat_module(m: Seq<(Seq<char>, Json)>) -> Outcome<ModuleModel> {
    Outcome::Done(ModuleModel::Concat { entries: m })
}

/// What `EqualityOp::try_new` does with an operator name.
pub open spec fn equality_op_outcome(s: Seq<char>) -> Outcome<EqualityOp> {
    if s == "EQEQ"@ {
        Outcome::Done(EqualityOp::EqEq)
    } else if s == "NOT_EQEQ"@ {
        Outcome::Done(EqualityOp::NotEqEq)
    } else if s == "GREATER"@ {
        Outcome::Done(EqualityOp::Gt)
    } else if s == "LESSER"@ {
        Outcome::Done(EqualityOp::Lt)
    } else {
        Outcome::Fail(ErrorKind::InvalidEqOp(s))
    }
}

/// The body and the condition of a conditional: `[_, {CODE, CONDITION}]`.
pub open spec fn code_and_cond(code: Seq<Json>) -> Option<(Seq<Json>, Seq<Json>)> {
    match seq_get(code, 1) {
        Some(v) => match json_as_object(v) {
            Some(o) => match lookup(o, "CODE"@) {
                Some(c) => match json_as_array(c) {
                    Some(body) => match lookup(o, "CONDITION"@) {
                        Some(k) => match json_as_array(k) {
                            Some(cond) => Some((body, cond)),
                            None => None,
                        },
                        None => None,
                    },
                    None => None,
                },
                None => None,
            },
            None => None,
        },
        None => None,
    }
}

/// What `Conditional::try_new` does with the entries of its node.
pub open spec fn conditional_module(m: Seq<(Seq<char>, Json)>) -> Outcome<ModuleModel> {
    match lookup(m, "IF"@) {
        Some(Json::Array(code)) => match code_and_cond(code) {
            Some((body, cond)) => match (seq_get(cond, 0), seq_get(cond, 1), seq_get(cond, 2)) {
                (Some(Json::Str(op)), Some(Json::Array(a)), Some(Json::Array(b))) => {
                    match equality_op_outcome(op) {
                        Outcome::Done(o) => Outcome::Done(
                            ModuleModel::Conditional { op: o, a, b, code: body },
                        ),
                        Outcome::Fail(e) => Outcome::Fail(e),
                        Outcome::Panic => Outcome::Panic,
                    }
                },
                _ => Outcome::Fail(ErrorKind::MalformedAST),
            },
            None => Outcome::Fail(ErrorKind::MalformedAST),
        },
        _ => Outcome::Fail(ErrorKind::MalformedAST),
    }
}

/// What `Identifier::try_new` does with the entries of its node.
pub open spec fn identifier_module(m: Seq<(Seq<char>, Json)>) -> Outcome<ModuleModel> {
    match lookup(m, "VALUE"@) {
        Some(v) => match json_as_str(v) {
            Some(s) => Outcome::Done(ModuleModel::Identifier { id: s }),
            None => Outcome::Fail(ErrorKind::MalformedAST),
        },
        None => Outcome::Fail(ErrorKind::MalformedAST),
    }
}

/// What `ResolutMod::try_new` does with a type name and the entries of its node.
pub open spec fn resolut_module(id: Seq<char>, m: Seq<(Seq<char>, Json)>) -> Outcome<
    ModuleModel,
> {
    match lookup(m, "VALUE"@) {
        Some(v) => match v {
            Json::Str(s) => if id == "STRING"@ {
                Outcome::Done(ModuleModel::Resolut { np_type: NpVal::Str(s) })
            } else {
                Outcome::Fail(ErrorKind::Other("Invalid type reached"@))
            },
            _ => Outcome::Fail(ErrorKind::Other("Invalid type reached"@)),
        },
        None => Outcome::Panic,
    }
}

/// What `VariableAssignment::try_new` does with the entries of its node.
pub open spec fn variable_module(m: Seq<(Seq<char>, Json)>) -> Outcome<ModuleModel> {
    match lookup(m, "EXPRESSION"@) {
        Some(expr) => match lookup(m, "ID"@) {
            Some(idv) => match json_as_str(idv) {
                Some(id) => match json_as_array(expr) {
                    Some(ex) => match (seq_get(ex, 0), seq_get(ex, 1)) {
                        (Some(Json::Str(t)), Some(Json::Object(vv))) => match lookup(vv, "VALUE"@) {
                            Some(val) => match np_type_outcome(t, val) {
                                Outcome::Done(v) => Outcome::Done(
                                    ModuleModel::VariableAssignment { id, value: v },
                                ),
                                Outcome::Fail(e) => Outcome::Fail(e),
                                Outcome::Panic => Outcome::Panic,
                            },
                            None => Outcome::Fail(ErrorKind::MalformedAST),
                        },
                        _ => Outcome::Fail(ErrorKind::MalformedAST),
                    },
                    None => Outcome::Fail(ErrorKind::MalformedAST),
                },
                None => Outcome::Fail(ErrorKind::MalformedAST),
            },
            None => Outcome::Fail(ErrorKind::MalformedAST),
        },
        None => Outcome::Fail(ErrorKind::MalformedAST),
    }
}

/// What building a module from a node `[KIND, {..}]` does.
pub open spec fn parse_outcome(code: Seq<Json>) -> Outcome<ModuleModel> {
    match (seq_get(code, 0), seq_get(code, 1)) {
        (Some(Json::Str(id)), Some(Json::Object(m))) => {
            if id == "PHP"@ {
                php_module(m)
            } else if id == "FUNCTION_CALL"@ {
                function_call_module(m)
            } else if id == "CONCAT"@ {
                concat_module(m)
            } else if id == "VARIABLE_ASSIGNMENT"@ {
                variable_module(m)
            } else if id == "CONDITIONAL"@ {
                conditional_module(m)
            } else if id == "ID"@ {
                identifier_module(m)
            } else if id == "STRING"@ {
                resolut_module(id, m)
            } else {
                Outcome::Panic
            }
        },
        _ => Outcome::Fail(ErrorKind::MalformedAST),
    }
}

/// The trees inside a built module lie inside the node it was built from.
pub open spec fn parts_below(code: Seq<Json>, mm: ModuleModel) -> bool {
    match mm {
        ModuleModel::Php { data } => decreases_to!(code => data),
        ModuleModel::FunctionCall { arguments, .. } => decreases_to!(code => arguments),
        ModuleModel::Concat { entries } => decreases_to!(code => entries),
        ModuleModel::Conditional { code: body, .. } => decreases_to!(code => body),
        _ => true,
    }
}

pub proof fn lemma_parse_parts_below(code: Seq<Json>)
    ensures
        parse_outcome(code) matches Outcome::Done(mm) ==> parts_below(code, mm),
{
    if code.len() >= 2 {
        if let Json::Object(m) = code[1] {
            assert(decreases_to!(code => code[1]));
            assert(decreases_to!(code[1] => m));
            lemma_lookup_decreases(m, "PROGRAM"@);
            lemma_lookup_decreases(m, "FUNCTION_ARGUMENTS"@);
            lemma_lookup_decreases(m, "IF"@);
            if let Some(fa) = lookup(m, "FUNCTION_ARGUMENTS"@) {
                if let Json::Object(fm) = fa {
                    lemma_lookup_decreases(fm, "POSITIONAL_ARGS"@);
                }
            }
            if let Some(Json::Array(c)) = lookup(m, "IF"@) {
                if c.len() >= 2 {
                    assert(decreases_to!(c => c[1]));
                    if let Json::Object(o) = c[1] {
                        lemma_lookup_decreases(o, "CODE"@);
                    }
                }
            }
        }
    }
}

/// The node of the modules that executing one element of a list builds:
/// one module for an array, none for anything else.
pub open spec fn build_one(v: Json) -> Option<Seq<Node>>
    decreases v,
{
    match v {
        Json::Array(c) => match build_node(c) {
            Some(n) => Some(seq![n]),
            None => None,
        },
        _ => Some(Seq::empty()),
    }
}

/// The nodes of the modules that executing a list builds; `None` when
/// building one of them fails.
pub open spec fn build_seq(ast: Seq<Json>) -> Option<Seq<Node>>
    decreases ast,
{
    if ast.len() == 0 {
        Some(Seq::empty())
    } else {
        match (build_one(ast[0]), build_seq(ast.drop_first())) {
            (Some(x), Some(y)) => Some(x + y),
            _ => None,
        }
    }
}

/// The node of the module built from `[KIND, {..}]`; `None` when building
/// it panics or reports an error.
pub open spec fn build_node(code: Seq<Json>) -> Option<Node>
    decreases code,
{
    match parse_outcome(code) {
        Outcome::Done(mm) => {
            proof {
                lemma_parse_parts_below(code);
            }
            match mm {
                ModuleModel::Php { data } => Some(Node::Php(build_seq(data))),
                ModuleModel::FunctionCall { arguments, function } => Some(
                    Node::FunctionCall(build_seq(arguments), function),
                ),
                ModuleModel::Concat { entries: data } => {
                    proof {
                        lemma_lookup_decreases(data, "0"@);
                        lemma_lookup_decreases(data, "1"@);
                    }
                    Some(
                        Node::Concat(
                            match (lookup(data, "0"@), lookup(data, "1"@)) {
                                (Some(f), Some(s)) => Some((build_one(f), build_one(s))),
                                _ => None,
                            },
                        ),
                    )
                },
                ModuleModel::VariableAssignment { id, value } => Some(
                    Node::VariableAssignment(id, value),
                ),
                ModuleModel::Conditional { op, a, b, code: body } => Some(
                    Node::Conditional(op, a, b, build_seq(body)),
                ),
                ModuleModel::Identifier { id } => Some(Node::Identifier(id)),
                ModuleModel::Resolut { np_type } => Some(Node::Resolut(np_type)),
            }
        },
        _ => None,
    }
}

/// The node of a built module.
pub open spec fn node_of(mm: ModuleModel) -> Node {
    match mm {
        ModuleModel::Php { data } => Node::Php(build_seq(data)),
        ModuleModel::FunctionCall { arguments, function } => Node::FunctionCall(
            build_seq(arguments),
            function,
        ),
        ModuleModel::Concat { entries: data } => Node::Concat(
            match (lookup(data, "0"@), lookup(data, "1"@)) {
                (Some(f), Some(s)) => Some((build_one(f), build_one(s))),
                _ => None,
            },
        ),
        ModuleModel::VariableAssignment { id, value } => Node::VariableAssignment(id, value),
        ModuleModel::Conditional { op, a, b, code } => Node::Conditional(op, a, b, build_seq(code)),
        ModuleModel::Identifier { id } => Node::Identifier(id),
        ModuleModel::Resolut { np_type } => Node::Resolut(np_type),
    }
}

pub proof fn lemma_build_node(code: Seq<Json>)
    ensures
        match parse_outcome(code) {
            Outcome::Done(mm) => build_node(code) == Some(node_of(mm)),
            _ => build_node(code) is None,
        },
{
}

// ---------------------------------------------------------------------------
// Running modules

/// Whether the comparison `op` holds between two values.
pub open spec fn compare_values(op: EqualityOp, l: NpVal, r: NpVal) -> bool {
    match op {
        EqualityOp::EqEq => l == r,
        EqualityOp::NotEqEq => l != r,
        EqualityOp::Gt => np_less(r, l),
        EqualityOp::Lt => np_less(l, r),
    }
}

/// The value of one side of a condition `[KIND, {VALUE}]`: a variable for
/// `ID`, a literal otherwise. The outer `None` is a panic, the inner `None`
/// a side without a value.
pub open spec fn qualify(side: Seq<Json>, scope: Map<Seq<char>, NpVal>) -> Option<Option<NpVal>> {
    match (seq_get(side, 0), seq_get(side, 1)) {
        (Some(Json::Str(id)), Some(Json::Object(m))) => match lookup(m, "VALUE"@) {
            Some(v) => if id == "ID"@ {
                match json_as_str(v) {
                    Some(name) => Some(
                        if scope.contains_key(name) {
                            Some(scope[name])
                        } else {
                            None
                        },
                    ),
                    None => Some(None),
                }
            } else {
                match np_type_outcome(id, v) {
                    Outcome::Done(x) => Some(Some(x)),
                    Outcome::Fail(_) => Some(None),
                    Outcome::Panic => None,
                }
            },
            None => Some(None),
        },
        _ => Some(None),
    }
}

/// The values that evaluating a list of modules yields, in order; modules
/// without a value are left out.
pub open spec fn eval_nodes(ms: Seq<Node>, scope: Map<Seq<char>, NpVal>) -> Option<Seq<NpVal>>
    decreases ms,
{
    if ms.len() == 0 {
        Some(Seq::empty())
    } else {
        match (eval_node(ms[0], scope), eval_nodes(ms.drop_first(), scope)) {
            (Some(Some(v)), Some(rest)) => Some(seq![v] + rest),
            (Some(None), Some(rest)) => Some(rest),
            _ => None,
        }
    }
}

/// The first value of a list of modules, which must exist.
pub open spec fn first_value(p: Option<Seq<Node>>, scope: Map<Seq<char>, NpVal>) -> Option<NpVal>
    decreases p,
{
    match p {
        Some(ms) => match eval_nodes(ms, scope) {
            Some(vs) => if vs.len() > 0 {
                Some(vs[0])
            } else {
                None
            },
            None => None,
        },
        None => None,
    }
}

/// The value of a module, if it has one.
pub open spec fn eval_node(n: Node, scope: Map<Seq<char>, NpVal>) -> Option<Option<NpVal>>
    decreases n,
{
    match n {
        Node::Concat(parts) => match parts {
            Some((p1, p2)) => match (first_value(p1, scope), first_value(p2, scope)) {
                (Some(x), Some(y)) => Some(Some(NpVal::Str(display(x) + display(y)))),
                _ => None,
            },
            None => None,
        },
        Node::Identifier(id) => Some(
            if scope.contains_key(id) {
                Some(scope[id])
            } else {
                None
            },
        ),
        Node::Resolut(v) => Some(Some(v)),
        _ => Some(None),
    }
}

/// The state after running a list of modules in order.
pub open spec fn run_nodes(ms: Seq<Node>, st: State) -> Option<State>
    decreases ms,
{
    if ms.len() == 0 {
        Some(st)
    } else {
        match proc_node(ms[0], st) {
            Some(st2) => run_nodes(ms.drop_first(), st2),
            None => None,
        }
    }
}

/// The state after running one module.
pub open spec fn proc_node(n: Node, st: State) -> Option<State>
    decreases n,
{
    match n {
        Node::Php(body) => match body {
            Some(ms) => run_nodes(ms, st),
            None => None,
        },
        Node::FunctionCall(args, function) => match args {
            Some(ms) => if function == "echo"@ {
                match eval_nodes(ms, st.scope) {
                    Some(vs) => if vs.len() > 0 {
                        Some(State { buffer: st.buffer + display(vs[0]), scope: st.scope })
                    } else {
                        None
                    },
                    None => None,
                }
            } else {
                None
            },
            None => None,
        },
        Node::VariableAssignment(id, v) => Some(
            State { buffer: st.buffer, scope: st.scope.insert(id, v) },
        ),
        Node::Conditional(op, a, b, body) => match (qualify(a, st.scope), qualify(b, st.scope)) {
            (Some(l), Some(r)) => match (l, r) {
                (Some(x), Some(y)) => if compare_values(op, x, y) {
                    match body {
                        Some(ms) => run_nodes(ms, st),
                        None => None,
                    }
                } else {
                    Some(st)
                },
                _ => Some(st),
            },
            _ => None,
        },
        _ => Some(st),
    }
}

} // verus!
