//! Concatenation of two values into a string.

use vstd::prelude::*;

use crate::ast::{entries_view, map_get, Value};
use crate::compiler::{
    eval_modules, execute_into, nodes_of, np_views, opt_opt_view, opt_view, scope_model, state_of,
    AnyModule,
    ScopeBuffer,
};
use crate::modules::{display, Module, ModuleImpl, NpType, NpVal};
use crate::prelude::{result_matches, NoPhpError};
use crate::semantics::{
    build_one, build_seq, concat_module, eval_node, eval_nodes, first_value, node_of, proc_node,
    ModuleModel, Node,
};
use crate::StringHashMap;

verus! {

/// Joins the texts of its operands `0` and `1`.
pub struct ConcatMod {
    data: Vec<(String, Value)>,
}

impl View for ConcatMod {
    type V = ModuleModel;

    closed spec fn view(&self) -> ModuleModel {
        ModuleModel::Concat { entries: entries_view(self.data@) }
    }
}

/// The value of the first module that one operand builds; `None` where the
/// original program panics: when the operand does not build or has no value.
fn first_value_of(v: &Value, vars: &StringHashMap<NpType>) -> (r: Option<NpType>)
    ensures
        first_value(build_one(v@), scope_model(vars@)) == opt_view(r),
    decreases build_one(v@), 0nat,
{
    let list = vec![v.duplicate()];
    proof {
        crate::ast::lemma_values_view(list@);
        let vs = crate::ast::values_view(list@);
        assert(vs[0] == v@);
        assert(vs.drop_first() =~= Seq::<crate::ast::Json>::empty());
        assert(build_seq(vs.drop_first()) == Some(Seq::<Node>::empty()));
        if let Some(x) = build_one(v@) {
            assert(x + Seq::<Node>::empty() =~= x);
        }
        assert(build_seq(vs) == build_one(v@));
    }
    let mut ms: Vec<AnyModule> = Vec::new();
    if !execute_into(&mut ms, &list) {
        return None;
    }
    assert(nodes_of(Seq::<AnyModule>::empty()) =~= Seq::<Node>::empty());
    assert(Seq::<Node>::empty() + nodes_of(ms@) =~= nodes_of(ms@));
    match eval_modules(&ms, vars) {
        Some(values) => {
            if values.len() == 0 {
                return None;
            }
            assert(np_views(values@)[0] == values@[0]@);
            Some(values[0].duplicate())
        },
        None => None,
    }
}

impl ConcatMod {
    /// Keeps the entries of the node; the operands are read when evaluated.
    pub fn try_new(data: Vec<(String, Value)>) -> (r: Result<Self, NoPhpError>)
        ensures
            result_matches(r, concat_module(entries_view(data@)), |m: ConcatMod| m@),
    {
        Ok(Self { data })
    }

    pub fn process(&self, buffer: &mut String, vars: &mut StringHashMap<NpType>) -> (ok: bool)
        ensures
            ok == proc_node(node_of(self@), state_of(old(buffer)@, old(vars)@)) is Some,
            ok ==> Some(state_of(final(buffer)@, final(vars)@)) == proc_node(
                node_of(self@),
                state_of(old(buffer)@, old(vars)@),
            ),
    {
        true
    }

    /// The text of operand `0` followed by the text of operand `1`.
    pub fn evaluate(&self, vars: &StringHashMap<NpType>) -> (r: Option<Option<NpType>>)
        ensures
            eval_node(node_of(self@), scope_model(vars@)) == opt_opt_view(r),
        decreases node_of(self@), 0nat,
    {
        match (map_get(&self.data, "0"), map_get(&self.data, "1")) {
            (Some(first), Some(second)) => {
                let x = match first_value_of(first, vars) {
                    Some(x) => x,
                    None => return None,
                };
                let y = match first_value_of(second, vars) {
                    Some(y) => y,
                    None => return None,
                };
                let mut text = x.to_string();
                let tail = y.to_string();
                text.append(tail.as_str());
                Some(Some(NpType::String(text)))
            },
            _ => None,
        }
    }
}

impl ModuleImpl for ConcatMod {
    open spec fn node(&self) -> Node {
        node_of(self@)
    }

    fn proc_tree(&self, buffer: &mut String, scope: &mut ScopeBuffer) {
        let _ = self.process(buffer, scope.variables);
    }

    fn eval(&self, buffer: &mut String, scope: &mut ScopeBuffer) -> (r: Option<NpType>) {
        self.evaluate(scope.variables).unwrap()
    }
}

impl Module for ConcatMod {
    open spec fn module_name(&self) -> Seq<char> {
        "ConcatMod"@
    }

    fn name(&self) -> (r: &'static str) {
        "ConcatMod"
    }
}

} // verus!
