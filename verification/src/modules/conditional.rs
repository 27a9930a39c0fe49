//! Conditionals: run a body when a comparison holds.

use vstd::prelude::*;

use core::cmp::Ordering;
use vstd::std_specs::cmp::{PartialEqSpec, PartialOrdSpec};

use crate::ast::{duplicate_values, entries_view, map_get, values_view, Value};
use crate::compiler::{
    execute_into, nodes_of, opt_opt_view, opt_view, run_modules, scope_model, state_of, AnyModule,
    ScopeBuffer,
};
use crate::modules::{lemma_np_less_asymmetric, Module, ModuleImpl, NpType};
use crate::prelude::{result_matches, Built, NoPhpError};
use crate::semantics::{
    code_and_cond, compare_values, conditional_module, equality_op_outcome, eval_node, node_of,
    proc_node, qualify, ModuleModel, Node,
};
use crate::text::text_eq;
use crate::StringHashMap;

verus! {

/// A comparison between two values.
#[derive(Debug, Clone, Copy, PartialEq, Eq, Structural)]
pub enum EqualityOp {
    EqEq,
    NotEqEq,
    Gt,
    Lt,
}

impl EqualityOp {
    /// Reads an operator: `EQEQ`, `NOT_EQEQ`, `GREATER` or `LESSER`.
    pub fn try_new(value: &str) -> (r: Result<Self, NoPhpError>)
        ensures
            result_matches(r, equality_op_outcome(value@), |o: EqualityOp| o),
    {
        if text_eq(value, "EQEQ") {
            Ok(EqualityOp::EqEq)
        } else if text_eq(value, "NOT_EQEQ") {
            Ok(EqualityOp::NotEqEq)
        } else if text_eq(value, "GREATER") {
            Ok(EqualityOp::Gt)
        } else if text_eq(value, "LESSER") {
            Ok(EqualityOp::Lt)
        } else {
            Err(NoPhpError::InvalidEqOp(value.to_owned()))
        }
    }

    /// Whether `left` and `right` are related by this operator.
    pub fn compare<T: PartialEq + PartialOrd>(&self, left: T, right: T) -> (r: bool)
        ensures
            T::obeys_eq_spec() && T::obeys_partial_cmp_spec() ==> r == match *self {
                EqualityOp::EqEq => left.eq_spec(&right),
                EqualityOp::NotEqEq => !left.eq_spec(&right),
                EqualityOp::Gt => left.partial_cmp_spec(&right) == Some(Ordering::Greater),
                EqualityOp::Lt => left.partial_cmp_spec(&right) == Some(Ordering::Less),
            },
    {
        match self {
            EqualityOp::EqEq => left == right,
            EqualityOp::NotEqEq => left != right,
            EqualityOp::Gt => left > right,
            EqualityOp::Lt => left < right,
        }
    }
}

/// Runs its body when the comparison between its two sides holds.
pub struct Conditional {
    op: EqualityOp,
    a: Vec<Value>,
    b: Vec<Value>,
    code: Vec<Value>,
}

impl View for Conditional {
    type V = ModuleModel;

    closed spec fn view(&self) -> ModuleModel {
        ModuleModel::Conditional {
            op: self.op,
            a: values_view(self.a@),
            b: values_view(self.b@),
            code: values_view(self.code@),
        }
    }
}

impl Conditional {
    /// Reads `IF`, an array `[_, {CODE, CONDITION}]` whose condition is
    /// `[OPERATOR, LEFT, RIGHT]`.
    pub fn try_new(value: &Vec<(String, Value)>) -> (r: Result<Self, NoPhpError>)
        ensures
            result_matches(r, conditional_module(entries_view(value@)), |m: Conditional| m@),
    {
        let (code, condition) = match map_get(value, "IF") {
            Some(Value::Array(code)) => match Self::get_code_and_cond(code.as_slice()) {
                Some(found) => found,
                None => return Err(NoPhpError::MalformedAST),
            },
            _ => return Err(NoPhpError::MalformedAST),
        };
        proof {
            crate::ast::lemma_values_view(condition@);
        }
        if condition.len() < 3 {
            return Err(NoPhpError::MalformedAST);
        }
        match (&condition[0], &condition[1], &condition[2]) {
            (Value::String(operation), Value::Array(a), Value::Array(b)) => {
                match EqualityOp::try_new(operation.as_str()) {
                    Ok(op) => Ok(
                        Self {
                            op,
                            a: duplicate_values(a),
                            b: duplicate_values(b),
                            code: duplicate_values(code),
                        },
                    ),
                    Err(e) => Err(e),
                }
            },
            _ => Err(NoPhpError::MalformedAST),
        }
    }

    /// The body under `CODE` and the condition under `CONDITION` of the
    /// object at index 1.
    pub fn get_code_and_cond(code: &[Value]) -> (r: Option<(&Vec<Value>, &Vec<Value>)>)
        ensures
            match code_and_cond(values_view(code@)) {
                Some((body, cond)) => r matches Some((x, y)) && values_view(x@) == body
                    && values_view(y@) == cond,
                None => r is None,
            },
    {
        proof {
            crate::ast::lemma_values_view(code@);
        }
        if code.len() < 2 {
            return None;
        }
        let value = match code[1].as_object() {
            Some(v) => v,
            None => return None,
        };
        let body = match map_get(value, "CODE") {
            Some(c) => match c.as_array() {
                Some(c) => c,
                None => return None,
            },
            None => return None,
        };
        let condition = match map_get(value, "CONDITION") {
            Some(c) => match c.as_array() {
                Some(c) => c,
                None => return None,
            },
            None => return None,
        };
        Some((body, condition))
    }

    /// The value of one side of the condition: a variable for `ID`, a
    /// literal otherwise, nothing for a side of any other shape; `None` where
    /// the original program panics, on a literal of an unknown type.
    fn qualify_side(&self, value: &[Value], scope: &StringHashMap<NpType>) -> (r: Option<
        Option<NpType>,
    >)
        ensures
            qualify(values_view(value@), scope_model(scope@)) == opt_opt_view(r),
    {
        proof {
            crate::ast::lemma_values_view(value@);
        }
        if value.len() < 2 {
            return Some(None);
        }
        match (&value[0], &value[1]) {
            (Value::String(id), Value::Object(map)) => {
                let v = match map_get(map, "VALUE") {
                    Some(v) => v,
                    None => return Some(None),
                };
                if text_eq(id.as_str(), "ID") {
                    match v.as_str() {
                        Some(name) => match scope.get(name) {
                            Some(x) => Some(Some(x.duplicate())),
                            None => Some(None),
                        },
                        None => Some(None),
                    }
                } else {
                    match NpType::build(id, v) {
                        Built::Done(x) => Some(Some(x)),
                        Built::Fail(_) => Some(None),
                        Built::Panic => None,
                    }
                }
            },
            _ => Some(None),
        }
    }

    /// Compares both sides; when the comparison holds, builds and runs the
    /// body. `false` where the original program panics.
    pub fn process(&self, buffer: &mut String, vars: &mut StringHashMap<NpType>) -> (ok: bool)
        ensures
            ok == proc_node(node_of(self@), state_of(old(buffer)@, old(vars)@)) is Some,
            ok ==> Some(state_of(final(buffer)@, final(vars)@)) == proc_node(
                node_of(self@),
                state_of(old(buffer)@, old(vars)@),
            ),
        decreases node_of(self@), 0nat,
    {
        let lhs = self.qualify_side(self.a.as_slice(), vars);
        let rhs = self.qualify_side(self.b.as_slice(), vars);
        match (lhs, rhs) {
            (Some(lhs), Some(rhs)) => {
                if let (Some(lhs), Some(rhs)) = (lhs, rhs) {
                    proof {
                        lemma_np_less_asymmetric(lhs@, rhs@);
                    }
                    let eq = self.op.compare(lhs, rhs);
                    assert(eq == compare_values(self.op, lhs@, rhs@));
                    if eq {
                        let mut body: Vec<AnyModule> = Vec::new();
                        if !execute_into(&mut body, &self.code) {
                            return false;
                        }
                        assert(nodes_of(Seq::<AnyModule>::empty()) =~= Seq::<Node>::empty());
                        assert(Seq::<Node>::empty() + nodes_of(body@) =~= nodes_of(body@));
                        return run_modules(&body, buffer, vars);
                    }
                }
                true
            },
            _ => false,
        }
    }

    pub fn evaluate(&self, vars: &StringHashMap<NpType>) -> (r: Option<Option<NpType>>)
        ensures
            eval_node(node_of(self@), scope_model(vars@)) == opt_opt_view(r),
    {
        Some(None)
    }
}

impl ModuleImpl for Conditional {
    open spec fn node(&self) -> Node {
        node_of(self@)
    }

    fn proc_tree(&self, buffer: &mut String, scope: &mut ScopeBuffer) {
        let _ = self.process(buffer, scope.variables);
    }

    fn eval(&self, buffer: &mut String, scope: &mut ScopeBuffer) -> (r: Option<NpType>) {
        self.evaluate(scope.variables).unwrap()
    }
}

impl Module for Conditional {
    open spec fn module_name(&self) -> Seq<char> {
        "Conditional"@
    }

    fn name(&self) -> (r: &'static str) {
        "Conditional"
    }
}

} // verus!
