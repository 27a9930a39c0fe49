//! Identifiers: the value of a variable.

use vstd::prelude::*;

use crate::ast::{entries_view, map_get, Value};
use crate::compiler::{opt_opt_view, scope_model, state_of, ScopeBuffer};
use crate::modules::{Module, ModuleImpl, NpType};
use crate::prelude::{result_matches, NoPhpError};
use crate::semantics::{eval_node, identifier_module, node_of, proc_node, ModuleModel, Node};
use crate::StringHashMap;

verus! {

/// The name of a variable; it evaluates to the variable's value.
pub struct Identifier {
    id: String,
}

impl View for Identifier {
    type V = ModuleModel;

    closed spec fn view(&self) -> ModuleModel {
        ModuleModel::Identifier { id: self.id@ }
    }
}

impl Identifier {
    /// Takes the name under `VALUE`, which must be a string.
    pub fn try_new(data: Vec<(String, Value)>) -> (r: Result<Self, NoPhpError>)
        ensures
            result_matches(r, identifier_module(entries_view(data@)), |m: Identifier| m@),
    {
        let id = match map_get(&data, "VALUE") {
            Some(id) => id,
            None => return Err(NoPhpError::MalformedAST),
        };
        let id = match id.as_str() {
            Some(id) => id.to_owned(),
            None => return Err(NoPhpError::MalformedAST),
        };
        Ok(Self { id })
    }

    pub fn process(&self, buffer: &mut String, vars: &mut StringHashMap<NpType>) -> (ok: bool)
        ensures
            ok == proc_node(node_of(self@), state_of(old(buffer)@, old(vars)@)) is Some,
            ok ==> Some(state_of(final(buffer)@, final(vars)@)) == proc_node(
                node_of(self@),
                state_of(old(buffer)@, old(vars)@),
            ),
    {
        true
    }

    /// The value of the variable, or nothing when it is not set.
    pub fn evaluate(&self, vars: &StringHashMap<NpType>) -> (r: Option<Option<NpType>>)
        ensures
            eval_node(node_of(self@), scope_model(vars@)) == opt_opt_view(r),
    {
        match vars.get(self.id.as_str()) {
            Some(v) => Some(Some(v.duplicate())),
            None => Some(None),
        }
    }
}

impl ModuleImpl for Identifier {
    open spec fn node(&self) -> Node {
        node_of(self@)
    }

    fn proc_tree(&self, buffer: &mut String, scope: &mut ScopeBuffer) {
        let _ = self.process(buffer, scope.variables);
    }

    fn eval(&self, buffer: &mut String, scope: &mut ScopeBuffer) -> (r: Option<NpType>) {
        self.evaluate(scope.variables).unwrap()
    }
}

impl Module for Identifier {
    open spec fn module_name(&self) -> Seq<char> {
        "Identifier"@
    }

    fn name(&self) -> (r: &'static str) {
        "Identifier"
    }
}

} // verus!
