//! Assignments of a literal to a variable.

use vstd::prelude::*;

use crate::ast::{entries_view, map_get, Value};
use crate::compiler::{opt_opt_view, scope_model, state_of, ScopeBuffer};
use crate::modules::{Module, ModuleImpl, NpType};
use crate::prelude::{built_matches, result_matches, Built, NoPhpError};
use crate::semantics::{eval_node, node_of, proc_node, variable_module, ModuleModel, Node};
use crate::StringHashMap;

verus! {

/// Sets a variable to a value when it runs.
pub struct VariableAssignment {
    id: String,
    value: NpType,
}

impl View for VariableAssignment {
    type V = ModuleModel;

    closed spec fn view(&self) -> ModuleModel {
        ModuleModel::VariableAssignment { id: self.id@, value: self.value@ }
    }
}

impl VariableAssignment {
    /// Takes the name under `ID` and the literal under `EXPRESSION`, an array
    /// `[TYPE, {VALUE}]`.
    pub fn build(value: Vec<(String, Value)>) -> (r: Built<Self>)
        ensures
            built_matches(r, variable_module(entries_view(value@)), |m: VariableAssignment| m@),
    {
        let expr = match map_get(&value, "EXPRESSION") {
            Some(e) => e,
            None => return Built::Fail(NoPhpError::MalformedAST),
        };
        let id = match map_get(&value, "ID") {
            Some(id) => id,
            None => return Built::Fail(NoPhpError::MalformedAST),
        };
        let id = match id.as_str() {
            Some(id) => id.to_owned(),
            None => return Built::Fail(NoPhpError::MalformedAST),
        };
        let expr = match expr.as_array() {
            Some(e) => e,
            None => return Built::Fail(NoPhpError::MalformedAST),
        };
        proof {
            crate::ast::lemma_values_view(expr@);
        }
        if expr.len() < 2 {
            return Built::Fail(NoPhpError::MalformedAST);
        }
        match (&expr[0], &expr[1]) {
            (Value::String(var_type), Value::Object(var_value)) => {
                let var_value = match map_get(var_value, "VALUE") {
                    Some(v) => v,
                    None => return Built::Fail(NoPhpError::MalformedAST),
                };
                match NpType::build(var_type, var_value) {
                    Built::Done(v) => Built::Done(Self { id, value: v }),
                    Built::Fail(e) => Built::Fail(e),
                    Built::Panic => Built::Panic,
                }
            },
            _ => Built::Fail(NoPhpError::MalformedAST),
        }
    }

    /// Takes the name under `ID` and the literal under `EXPRESSION`, whose
    /// type must be `STRING` or `INT`.
    pub fn try_new(value: Vec<(String, Value)>) -> (r: Result<Self, NoPhpError>)
        requires
            !(variable_module(entries_view(value@)) is Panic),
        ensures
            result_matches(r, variable_module(entries_view(value@)), |m: VariableAssignment| m@),
    {
        Self::build(value).into_result()
    }

    /// Sets the variable.
    pub fn process(&self, buffer: &mut String, vars: &mut StringHashMap<NpType>) -> (ok: bool)
        ensures
            ok == proc_node(node_of(self@), state_of(old(buffer)@, old(vars)@)) is Some,
            ok ==> Some(state_of(final(buffer)@, final(vars)@)) == proc_node(
                node_of(self@),
                state_of(old(buffer)@, old(vars)@),
            ),
    {
        let ghost before = vars@;
        vars.insert(self.id.clone(), self.value.duplicate());
        assert(scope_model(vars@) =~= scope_model(before).insert(self.id@, self.value@));
        true
    }

    pub fn evaluate(&self, vars: &StringHashMap<NpType>) -> (r: Option<Option<NpType>>)
        ensures
            eval_node(node_of(self@), scope_model(vars@)) == opt_opt_view(r),
    {
        Some(None)
    }
}

impl ModuleImpl for VariableAssignment {
    open spec fn node(&self) -> Node {
        node_of(self@)
    }

    fn proc_tree(&self, buffer: &mut String, scope: &mut ScopeBuffer) {
        let _ = self.process(buffer, scope.variables);
    }

    fn eval(&self, buffer: &mut String, scope: &mut ScopeBuffer) -> (r: Option<NpType>) {
        self.evaluate(scope.variables).unwrap()
    }
}

impl Module for VariableAssignment {
    open spec fn module_name(&self) -> Seq<char> {
        "VariableAssignment"@
    }

    fn name(&self) -> (r: &'static str) {
        "VariableAssignment"
    }
}

} // verus!
