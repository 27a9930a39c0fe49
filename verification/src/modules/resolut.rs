//! Literals of a NoPHP type.

use vstd::prelude::*;

use crate::ast::{entries_view, map_get, Value};
use crate::compiler::{opt_opt_view, scope_model, state_of, ScopeBuffer};
use crate::modules::{Module, ModuleImpl, NpType};
use crate::prelude::{built_matches, result_matches, Built, NoPhpError};
use crate::semantics::{eval_node, node_of, proc_node, resolut_module, ModuleModel, Node};
use crate::text::text_eq;
use crate::StringHashMap;

verus! {

/// A literal; it evaluates to its value.
pub struct ResolutMod {
    np_type: NpType,
}

impl View for ResolutMod {
    type V = ModuleModel;

    closed spec fn view(&self) -> ModuleModel {
        ModuleModel::Resolut { np_type: self.np_type@ }
    }
}

impl ResolutMod {
    /// Takes the literal under `VALUE`, which must be there; only strings
    /// are literals here.
    pub fn build(id: &str, value: Vec<(String, Value)>) -> (r: Built<Self>)
        ensures
            built_matches(r, resolut_module(id@, entries_view(value@)), |m: ResolutMod| m@),
    {
        let value = match map_get(&value, "VALUE") {
            Some(v) => v,
            None => return Built::Panic,
        };
        match value {
            Value::String(s) => {
                if text_eq(id, "STRING") {
                    Built::Done(Self { np_type: NpType::String(s.clone()) })
                } else {
                    Built::Fail(NoPhpError::Other("Invalid type reached"))
                }
            },
            _ => Built::Fail(NoPhpError::Other("Invalid type reached")),
        }
    }

    /// Takes the literal under `VALUE`, which must be there.
    pub fn try_new(id: &str, value: Vec<(String, Value)>) -> (r: Result<Self, NoPhpError>)
        requires
            !(resolut_module(id@, entries_view(value@)) is Panic),
        ensures
            result_matches(r, resolut_module(id@, entries_view(value@)), |m: ResolutMod| m@),
    {
        Self::build(id, value).into_result()
    }

    pub fn process(&self, buffer: &mut String, vars: &mut StringHashMap<NpType>) -> (ok: bool)
        ensures
            ok == proc_node(node_of(self@), state_of(old(buffer)@, old(vars)@)) is Some,
            ok ==> Some(state_of(final(buffer)@, final(vars)@)) == proc_node(
                node_of(self@),
                state_of(old(buffer)@, old(vars)@),
            ),
    {
        true
    }

    pub fn evaluate(&self, vars: &StringHashMap<NpType>) -> (r: Option<Option<NpType>>)
        ensures
            eval_node(node_of(self@), scope_model(vars@)) == opt_opt_view(r),
    {
        Some(Some(self.np_type.duplicate()))
    }
}

impl ModuleImpl for ResolutMod {
    open spec fn node(&self) -> Node {
        node_of(self@)
    }

    fn proc_tree(&self, buffer: &mut String, scope: &mut ScopeBuffer) {
        let _ = self.process(buffer, scope.variables);
    }

    fn eval(&self, buffer: &mut String, scope: &mut ScopeBuffer) -> (r: Option<NpType>) {
        self.evaluate(scope.variables).unwrap()
    }
}

impl Module for ResolutMod {
    open spec fn module_name(&self) -> Seq<char> {
        "ResolutMod"@
    }

    fn name(&self) -> (r: &'static str) {
        "ResolutMod"
    }
}

} // verus!
