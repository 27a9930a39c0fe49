//! The modules of the interpreter: one for each kind of node in the tree.

mod concat;
mod conditional;
mod identifier;
mod resolut;
mod variable;

pub use concat::ConcatMod;
pub use conditional::{Conditional, EqualityOp};
pub use identifier::Identifier;
pub use resolut::ResolutMod;
pub use variable::VariableAssignment;

use vstd::prelude::*;

use core::cmp::Ordering;
use vstd::std_specs::cmp::{PartialEqSpecImpl, PartialOrdSpecImpl};

use crate::ast::{
    duplicate_values, entries_view, json_as_str, map_get, values_view, Json, Value,
};
use crate::compiler::{
    eval_modules, execute_into, nodes_of, np_views, opt_opt_view, opt_view, run_modules, scope_model,
    state_of, AnyModule, ScopeBuffer,
};
use crate::semantics::{
    eval_node, function_call_module, node_of, php_module, proc_node, ModuleModel, Node,
};
use crate::StringHashMap;
use crate::prelude::{built_matches, result_matches, Built, ErrorKind, NoPhpError, Outcome};
use crate::text::{
    chars_less, i64_decimal, lemma_chars_less_asymmetric, int_decimal, parse_i64, replace_newline_escapes, text_eq, text_i64,
    text_less, unescape_newlines,
};

verus! {

/// A value of a NoPHP program.
#[derive(Debug, Clone, Eq)]
pub enum NpType {
    String(String),
    Number(i64),
}

/// The model of an [`NpType`].
pub enum NpVal {
    Str(Seq<char>),
    Num(i64),
}

impl View for NpType {
    type V = NpVal;

    open spec fn view(&self) -> NpVal {
        match self {
            NpType::String(s) => NpVal::Str(s@),
            NpType::Number(n) => NpVal::Num(*n),
        }
    }
}

/// What `NpType::try_new` does with a type name and a literal.
pub open spec fn np_type_outcome(var_type: Seq<char>, var_value: Json) -> Outcome<NpVal> {
    if var_type == "STRING"@ {
        match json_as_str(var_value) {
            Some(s) => Outcome::Done(NpVal::Str(s)),
            None => Outcome::Fail(ErrorKind::ValueParseError),
        }
    } else if var_type == "INT"@ {
        match json_as_str(var_value) {
            Some(s) => match text_i64(s) {
                Some(n) => Outcome::Done(NpVal::Num(n)),
                None => Outcome::Fail(ErrorKind::ValueParseError),
            },
            None => Outcome::Fail(ErrorKind::ValueParseError),
        }
    } else {
        Outcome::Panic
    }
}

/// How a value is written out: strings with their `\n` escapes turned into
/// newlines, numbers in decimal.
pub open spec fn display(v: NpVal) -> Seq<char> {
    match v {
        NpVal::Str(s) => unescape_newlines(s),
        NpVal::Num(n) => int_decimal(n as int),
    }
}

/// The order of values: every string comes before every number, strings
/// compare character by character, numbers by magnitude.
pub open spec fn np_less(a: NpVal, b: NpVal) -> bool {
    match (a, b) {
        (NpVal::Str(x), NpVal::Str(y)) => chars_less(x, y),
        (NpVal::Str(_), NpVal::Num(_)) => true,
        (NpVal::Num(_), NpVal::Str(_)) => false,
        (NpVal::Num(x), NpVal::Num(y)) => x < y,
    }
}

/// No value comes both before and after another.
pub proof fn lemma_np_less_asymmetric(a: NpVal, b: NpVal)
    ensures
        np_less(a, b) ==> !np_less(b, a),
        !np_less(a, a),
{
    match (a, b) {
        (NpVal::Str(x), NpVal::Str(y)) => {
            lemma_chars_less_asymmetric(x, y);
        },
        (NpVal::Str(x), _) => {
            lemma_chars_less_asymmetric(x, x);
        },
        _ => {},
    }
}

impl NpType {
    /// Reads a literal of the given type: a `STRING` holds its text, an
    /// `INT` holds the text of a decimal integer; any other type is a panic.
    pub fn build(var_type: &String, var_value: &Value) -> (r: Built<Self>)
        ensures
            built_matches(r, np_type_outcome(var_type@, var_value@), |t: NpType| t@),
    {
        if text_eq(var_type.as_str(), "STRING") {
            match var_value.as_str() {
                Some(value) => Built::Done(NpType::String(value.to_owned())),
                None => Built::Fail(NoPhpError::ValueParseError),
            }
        } else if text_eq(var_type.as_str(), "INT") {
            match var_value.as_str() {
                Some(value) => match parse_i64(value) {
                    Some(n) => Built::Done(NpType::Number(n)),
                    None => Built::Fail(NoPhpError::ValueParseError),
                },
                None => Built::Fail(NoPhpError::ValueParseError),
            }
        } else {
            Built::Panic
        }
    }

    /// Reads a literal of the given type, which must be `STRING` or `INT`.
    pub fn try_new(var_type: &String, var_value: &Value) -> (r: Result<Self, NoPhpError>)
        requires
            !(np_type_outcome(var_type@, var_value@) is Panic),
        ensures
            result_matches(r, np_type_outcome(var_type@, var_value@), |t: NpType| t@),
    {
        Self::build(var_type, var_value).into_result()
    }

    /// The text of this value as the program writes it out.
    pub fn to_string(&self) -> (r: String)
        ensures
            r@ == display(self@),
    {
        match self {
            NpType::String(s) => replace_newline_escapes(s.as_str()),
            NpType::Number(n) => i64_decimal(*n),
        }
    }

    /// A copy of this value.
    pub fn duplicate(&self) -> (r: NpType)
        ensures
            r@ == self@,
    {
        match self {
            NpType::String(s) => NpType::String(s.clone()),
            NpType::Number(n) => NpType::Number(*n),
        }
    }
}

impl PartialEq for NpType {
    fn eq(&self, other: &Self) -> (r: bool) {
        match (self, other) {
            (NpType::String(a), NpType::String(b)) => text_eq(a.as_str(), b.as_str()),
            (NpType::Number(a), NpType::Number(b)) => *a == *b,
            _ => false,
        }
    }
}

impl PartialEqSpecImpl for NpType {
    open spec fn obeys_eq_spec() -> bool {
        true
    }

    open spec fn eq_spec(&self, other: &NpType) -> bool {
        self@ == other@
    }
}

impl PartialOrd for NpType {
    fn partial_cmp(&self, other: &Self) -> (r: Option<Ordering>) {
        if np_type_less(self, other) {
            Some(Ordering::Less)
        } else if np_type_less(other, self) {
            Some(Ordering::Greater)
        } else {
            Some(Ordering::Equal)
        }
    }
}

impl PartialOrdSpecImpl for NpType {
    open spec fn obeys_partial_cmp_spec() -> bool {
        true
    }

    open spec fn partial_cmp_spec(&self, other: &NpType) -> Option<Ordering> {
        if np_less(self@, other@) {
            Some(Ordering::Less)
        } else if np_less(other@, self@) {
            Some(Ordering::Greater)
        } else {
            Some(Ordering::Equal)
        }
    }
}

/// Whether `a` comes before `b` in the order of values.
pub fn np_type_less(a: &NpType, b: &NpType) -> (r: bool)
    ensures
        r == np_less(a@, b@),
{
    match (a, b) {
        (NpType::String(x), NpType::String(y)) => text_less(x.as_str(), y.as_str()),
        (NpType::String(_), NpType::Number(_)) => true,
        (NpType::Number(_), NpType::String(_)) => false,
        (NpType::Number(x), NpType::Number(y)) => *x < *y,
    }
}


/// How a module runs and what it evaluates to.
pub trait ModuleImpl {
    /// The meaning of this module.
    spec fn node(&self) -> Node;

    /// Runs this module: it may write to `buffer` and change the variables.
    fn proc_tree(&self, buffer: &mut String, scope: &mut ScopeBuffer)
        requires
            proc_node(self.node(), state_of(old(buffer)@, old(scope).variables@)) is Some,
        ensures
            Some(state_of(final(buffer)@, final(scope).variables@)) == proc_node(
                self.node(),
                state_of(old(buffer)@, old(scope).variables@),
            ),
            *final(final(scope).variables) == *final(old(scope).variables),
    ;

    /// The value of this module, if it has one; nothing is changed.
    fn eval(&self, buffer: &mut String, scope: &mut ScopeBuffer) -> (r: Option<NpType>)
        requires
            eval_node(self.node(), scope_model(old(scope).variables@)) is Some,
        ensures
            Some(opt_view(r)) == eval_node(self.node(), scope_model(old(scope).variables@)),
            final(buffer)@ == old(buffer)@,
            final(scope).variables@ == old(scope).variables@,
            *final(final(scope).variables) == *final(old(scope).variables),
    ;
}

/// A module with a name: the name of its type.
pub trait Module: ModuleImpl {
    spec fn module_name(&self) -> Seq<char>;

    fn name(&self) -> (r: &'static str)
        ensures
            r@ == self.module_name(),
    ;
}

/// A page: runs the modules of its program.
pub struct Php {
    data: Vec<Value>,
}

impl View for Php {
    type V = ModuleModel;

    closed spec fn view(&self) -> ModuleModel {
        ModuleModel::Php { data: values_view(self.data@) }
    }
}

impl Php {
    /// Takes the program under `PROGRAM`, which must be an array.
    pub fn build(data: Vec<(String, Value)>) -> (r: Built<Self>)
        ensures
            built_matches(r, php_module(entries_view(data@)), |m: Php| m@),
    {
        match map_get(&data, "PROGRAM") {
            Some(program) => match program.as_array() {
                Some(program) => Built::Done(Self { data: duplicate_values(program) }),
                None => Built::Panic,
            },
            None => Built::Panic,
        }
    }

    /// Takes the program under `PROGRAM`, which must be an array.
    pub fn try_new(data: Vec<(String, Value)>) -> (r: Result<Self, NoPhpError>)
        requires
            !(php_module(entries_view(data@)) is Panic),
        ensures
            result_matches(r, php_module(entries_view(data@)), |m: Php| m@),
    {
        Self::build(data).into_result()
    }

    /// Builds the modules of the program and runs them; `false` where the
    /// original program panics.
    pub fn process(&self, buffer: &mut String, vars: &mut StringHashMap<NpType>) -> (ok: bool)
        ensures
            ok == proc_node(node_of(self@), state_of(old(buffer)@, old(vars)@)) is Some,
            ok ==> Some(state_of(final(buffer)@, final(vars)@)) == proc_node(
                node_of(self@),
                state_of(old(buffer)@, old(vars)@),
            ),
        decreases node_of(self@), 0nat,
    {
        let mut body: Vec<AnyModule> = Vec::new();
        if !execute_into(&mut body, &self.data) {
            return false;
        }
        assert(nodes_of(Seq::<AnyModule>::empty()) =~= Seq::<Node>::empty());
        assert(Seq::<Node>::empty() + nodes_of(body@) =~= nodes_of(body@));
        run_modules(&body, buffer, vars)
    }

    pub fn evaluate(&self, vars: &StringHashMap<NpType>) -> (r: Option<Option<NpType>>)
        ensures
            eval_node(node_of(self@), scope_model(vars@)) == opt_opt_view(r),
    {
        Some(None)
    }
}

impl ModuleImpl for Php {
    open spec fn node(&self) -> Node {
        node_of(self@)
    }

    fn proc_tree(&self, buffer: &mut String, scope: &mut ScopeBuffer) {
        let _ = self.process(buffer, scope.variables);
    }

    fn eval(&self, buffer: &mut String, scope: &mut ScopeBuffer) -> (r: Option<NpType>) {
        self.evaluate(scope.variables).unwrap()
    }
}

impl Module for Php {
    open spec fn module_name(&self) -> Seq<char> {
        "Php"@
    }

    fn name(&self) -> (r: &'static str) {
        "Php"
    }
}

/// A call of a function on its positional arguments; only `echo` exists.
pub struct FunctionCall {
    arguments: Vec<Value>,
    function: String,
}

impl View for FunctionCall {
    type V = ModuleModel;

    closed spec fn view(&self) -> ModuleModel {
        ModuleModel::FunctionCall {
            arguments: values_view(self.arguments@),
            function: self.function@,
        }
    }
}

impl FunctionCall {
    /// Takes the arguments under `FUNCTION_ARGUMENTS.POSITIONAL_ARGS` and the
    /// name of the function under `ID[1].VALUE`; both must be there.
    pub fn build(data: Vec<(String, Value)>) -> (r: Built<Self>)
        ensures
            built_matches(r, function_call_module(entries_view(data@)), |m: FunctionCall| m@),
    {
        let arguments = match map_get(&data, "FUNCTION_ARGUMENTS") {
            Some(fa) => match fa.get("POSITIONAL_ARGS") {
                Some(pa) => match pa.as_array() {
                    Some(a) => duplicate_values(a),
                    None => return Built::Panic,
                },
                None => return Built::Panic,
            },
            None => return Built::Panic,
        };
        let function = match map_get(&data, "ID") {
            Some(idv) => match idv.as_array() {
                Some(ida) => {
                    proof {
                        crate::ast::lemma_values_view(ida@);
                    }
                    if ida.len() > 1 {
                        match ida[1].as_object() {
                            Some(o) => match map_get(o, "VALUE") {
                                Some(v) => match v.as_str() {
                                    Some(f) => f.to_owned(),
                                    None => return Built::Panic,
                                },
                                None => return Built::Panic,
                            },
                            None => return Built::Panic,
                        }
                    } else {
                        return Built::Panic;
                    }
                },
                None => return Built::Panic,
            },
            None => return Built::Panic,
        };
        Built::Done(Self { arguments, function })
    }

    /// Takes the arguments and the name of the function, which must be there.
    pub fn try_new(data: Vec<(String, Value)>) -> (r: Result<Self, NoPhpError>)
        requires
            !(function_call_module(entries_view(data@)) is Panic),
        ensures
            result_matches(r, function_call_module(entries_view(data@)), |m: FunctionCall| m@),
    {
        Self::build(data).into_result()
    }

    /// Builds the argument modules, evaluates them and writes the first
    /// value; `false` where the original program panics: when the function
    /// is not `echo` or no argument has a value.
    pub fn process(&self, buffer: &mut String, vars: &mut StringHashMap<NpType>) -> (ok: bool)
        ensures
            ok == proc_node(node_of(self@), state_of(old(buffer)@, old(vars)@)) is Some,
            ok ==> Some(state_of(final(buffer)@, final(vars)@)) == proc_node(
                node_of(self@),
                state_of(old(buffer)@, old(vars)@),
            ),
        decreases node_of(self@), 0nat,
    {
        let mut args: Vec<AnyModule> = Vec::new();
        if !execute_into(&mut args, &self.arguments) {
            return false;
        }
        assert(nodes_of(Seq::<AnyModule>::empty()) =~= Seq::<Node>::empty());
        assert(Seq::<Node>::empty() + nodes_of(args@) =~= nodes_of(args@));
        if !text_eq(self.function.as_str(), "echo") {
            return false;
        }
        match eval_modules(&args, vars) {
            Some(values) => {
                if values.len() == 0 {
                    return false;
                }
                assert(np_views(values@)[0] == values@[0]@);
                let out = values[0].to_string();
                buffer.append(out.as_str());
                true
            },
            None => false,
        }
    }

    pub fn evaluate(&self, vars: &StringHashMap<NpType>) -> (r: Option<Option<NpType>>)
        ensures
            eval_node(node_of(self@), scope_model(vars@)) == opt_opt_view(r),
    {
        Some(None)
    }
}

impl ModuleImpl for FunctionCall {
    open spec fn node(&self) -> Node {
        node_of(self@)
    }

    fn proc_tree(&self, buffer: &mut String, scope: &mut ScopeBuffer) {
        let _ = self.process(buffer, scope.variables);
    }

    fn eval(&self, buffer: &mut String, scope: &mut ScopeBuffer) -> (r: Option<NpType>) {
        self.evaluate(scope.variables).unwrap()
    }
}

impl Module for FunctionCall {
    open spec fn module_name(&self) -> Seq<char> {
        "FunctionCall"@
    }

    fn name(&self) -> (r: &'static str) {
        "FunctionCall"
    }
}

} // verus!
