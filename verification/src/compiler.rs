//! The interpreter: builds modules from the tree and runs them.

use vstd::prelude::*;

use crate::ast::{duplicate_entries, lemma_values_view, value_view, values_view, Json, Value};
use crate::modules::{
    ConcatMod, Conditional, FunctionCall, Identifier, NpType, NpVal, Php, ResolutMod,
    VariableAssignment,
};
use crate::prelude::{built_matches, result_matches, Built, NoPhpError, Outcome};
use crate::semantics::{
    build_node, build_one, build_seq, eval_node, eval_nodes, lemma_build_node, node_of, parse_outcome,
    proc_node, run_nodes, ModuleModel, Node, State,
};
use crate::text::text_eq;
use crate::StringHashMap;

verus! {

/// The variables of a program, by name.
pub open spec fn scope_model(vars: Map<Seq<char>, NpType>) -> Map<Seq<char>, NpVal> {
    vars.map_values(|v: NpType| v@)
}

/// The state made of an output buffer and variables.
pub open spec fn state_of(buffer: Seq<char>, vars: Map<Seq<char>, NpType>) -> State {
    State { buffer, scope: scope_model(vars) }
}

/// The models of a list of values.
pub open spec fn np_views(s: Seq<NpType>) -> Seq<NpVal> {
    s.map_values(|v: NpType| v@)
}

/// The model of a value that may be missing.
pub open spec fn opt_view(v: Option<NpType>) -> Option<NpVal> {
    match v {
        Some(x) => Some(x@),
        None => None,
    }
}

/// The model of an evaluation that may panic (`None`) or have no value.
pub open spec fn opt_opt_view(v: Option<Option<NpType>>) -> Option<Option<NpVal>> {
    match v {
        Some(x) => Some(opt_view(x)),
        None => None,
    }
}

/// The variables that the modules of one run share.
pub struct ScopeBuffer<'b> {
    pub variables: &'b mut StringHashMap<NpType>,
}

impl<'b> ScopeBuffer<'b> {
    pub fn new(variables: &'b mut StringHashMap<NpType>) -> (r: Self)
        ensures
            r.variables@ == old(variables)@,
            *final(variables) == *final(r.variables),
    {
        Self { variables }
    }
}

/// A module of any kind.
pub enum AnyModule {
    Php(Php),
    FunctionCall(FunctionCall),
    Concat(ConcatMod),
    VariableAssignment(VariableAssignment),
    Conditional(Conditional),
    Identifier(Identifier),
    Resolut(ResolutMod),
}

impl View for AnyModule {
    type V = ModuleModel;

    open spec fn view(&self) -> ModuleModel {
        match self {
            AnyModule::Php(m) => m@,
            AnyModule::FunctionCall(m) => m@,
            AnyModule::Concat(m) => m@,
            AnyModule::VariableAssignment(m) => m@,
            AnyModule::Conditional(m) => m@,
            AnyModule::Identifier(m) => m@,
            AnyModule::Resolut(m) => m@,
        }
    }
}

/// The nodes of a list of modules.
pub open spec fn nodes_of(ms: Seq<AnyModule>) -> Seq<Node> {
    ms.map_values(|m: AnyModule| node_of(m@))
}

/// The modules of a compiler, in the order they were built.
pub struct ModuleList(pub Vec<AnyModule>);

/// The interpreter, and also the scope.
pub struct Compiler<'a, 'b> {
    pub modules: ModuleList,
    pub buffer: &'a mut String,
    pub scope: ScopeBuffer<'b>,
}

/// Builds a module from a node `[KIND, {..}]` of the tree.
pub fn build_module(value: &Vec<Value>) -> (r: Built<AnyModule>)
    ensures
        built_matches(r, parse_outcome(values_view(value@)), |m: AnyModule| m@),
{
    proof {
        lemma_values_view(value@);
    }
    if value.len() < 2 {
        return Built::Fail(NoPhpError::MalformedAST);
    }
    match (&value[0], &value[1]) {
        (Value::String(id), Value::Object(map)) => {
            let id = id.as_str();
            if text_eq(id, "PHP") {
                match Php::build(duplicate_entries(map)) {
                    Built::Done(m) => Built::Done(AnyModule::Php(m)),
                    Built::Fail(e) => Built::Fail(e),
                    Built::Panic => Built::Panic,
                }
            } else if text_eq(id, "FUNCTION_CALL") {
                match FunctionCall::build(duplicate_entries(map)) {
                    Built::Done(m) => Built::Done(AnyModule::FunctionCall(m)),
                    Built::Fail(e) => Built::Fail(e),
                    Built::Panic => Built::Panic,
                }
            } else if text_eq(id, "CONCAT") {
                match ConcatMod::try_new(duplicate_entries(map)) {
                    Ok(m) => Built::Done(AnyModule::Concat(m)),
                    Err(e) => Built::Fail(e),
                }
            } else if text_eq(id, "VARIABLE_ASSIGNMENT") {
                match VariableAssignment::build(duplicate_entries(map)) {
                    Built::Done(m) => Built::Done(AnyModule::VariableAssignment(m)),
                    Built::Fail(e) => Built::Fail(e),
                    Built::Panic => Built::Panic,
                }
            } else if text_eq(id, "CONDITIONAL") {
                match Conditional::try_new(map) {
                    Ok(m) => Built::Done(AnyModule::Conditional(m)),
                    Err(e) => Built::Fail(e),
                }
            } else if text_eq(id, "ID") {
                match Identifier::try_new(duplicate_entries(map)) {
                    Ok(m) => Built::Done(AnyModule::Identifier(m)),
                    Err(e) => Built::Fail(e),
                }
            } else if text_eq(id, "STRING") {
                match ResolutMod::build(id, duplicate_entries(map)) {
                    Built::Done(m) => Built::Done(AnyModule::Resolut(m)),
                    Built::Fail(e) => Built::Fail(e),
                    Built::Panic => Built::Panic,
                }
            } else {
                Built::Panic
            }
        },
        _ => Built::Fail(NoPhpError::MalformedAST),
    }
}

/// Builds a module from a node `[KIND, {..}]` of the tree, whose kind must
/// be one that exists and whose content must be complete.
pub fn parse_module(value: &Vec<Value>) -> (r: Result<AnyModule, NoPhpError>)
    requires
        !(parse_outcome(values_view(value@)) is Panic),
    ensures
        result_matches(r, parse_outcome(values_view(value@)), |m: AnyModule| m@),
{
    build_module(value).into_result()
}

/// Builds a module for every array in `ast`, in order, and appends them to
/// `list`; `false` where building one fails.
pub fn execute_into(list: &mut Vec<AnyModule>, ast: &Vec<Value>) -> (ok: bool)
    ensures
        ok == build_seq(values_view(ast@)) is Some,
        ok ==> Some(nodes_of(final(list)@)) == (match build_seq(values_view(ast@)) {
            Some(ns) => Some(nodes_of(old(list)@) + ns),
            None => None,
        }),
{
    let ghost vs = values_view(ast@);
    let ghost start = list@;
    let ghost mut acc: Seq<Node> = Seq::empty();
    proof {
        lemma_values_view(ast@);
        assert(vs.skip(0) =~= vs);
        if let Some(rest) = build_seq(vs) {
            assert(acc + rest =~= rest);
        }
        assert(nodes_of(list@) =~= nodes_of(start) + acc);
    }
    let mut i: usize = 0;
    while i < ast.len()
        invariant
            i <= ast@.len(),
            vs == values_view(ast@),
            vs.len() == ast@.len(),
            forall|j: int| 0 <= j < ast@.len() ==> #[trigger] vs[j] == value_view(ast@[j]),
            list@.len() == start.len() + acc.len(),
            nodes_of(list@) == nodes_of(start) + acc,
            build_seq(vs) == (match build_seq(vs.skip(i as int)) {
                Some(rest) => Some(acc + rest),
                None => None,
            }),
        decreases ast@.len() - i,
    {
        let ghost rest = vs.skip(i as int);
        assert(rest[0] == vs[i as int]);
        assert(rest.drop_first() =~= vs.skip(i + 1));
        match ast[i].as_array() {
            Some(code) => {
                proof {
                    lemma_build_node(values_view(code@));
                }
                match build_module(code) {
                    Built::Done(module) => {
                        let ghost before = list@;
                        list.push(module);
                        proof {
                            let one = seq![node_of(module@)];
                            assert(build_one(rest[0]) == Some(one));
                            assert(nodes_of(list@) =~= nodes_of(before) + one);
                            if let Some(tail) = build_seq(vs.skip(i + 1)) {
                                assert(acc + (one + tail) =~= (acc + one) + tail);
                            }
                            acc = acc + one;
                            assert(nodes_of(list@) =~= nodes_of(start) + acc);
                        }
                    },
                    _ => {
                        return false;
                    },
                }
            },
            None => {
                proof {
                    assert(build_one(rest[0]) == Some(Seq::<Node>::empty()));
                    if let Some(tail) = build_seq(vs.skip(i + 1)) {
                        assert(Seq::<Node>::empty() + tail =~= tail);
                    }
                }
            },
        }
        i = i + 1;
    }
    proof {
        assert(vs.skip(i as int) =~= Seq::<Json>::empty());
        assert(acc + Seq::<Node>::empty() =~= acc);
    }
    true
}

/// Runs a list of modules in order; `false` where the original program
/// panics.
pub fn run_modules(ms: &Vec<AnyModule>, buffer: &mut String, vars: &mut StringHashMap<NpType>) -> (ok: bool)
    ensures
        ok == run_nodes(nodes_of(ms@), state_of(old(buffer)@, old(vars)@)) is Some,
        ok ==> Some(state_of(final(buffer)@, final(vars)@)) == run_nodes(
            nodes_of(ms@),
            state_of(old(buffer)@, old(vars)@),
        ),
    decreases nodes_of(ms@), 2nat,
{
    let ghost ns = nodes_of(ms@);
    let ghost target = run_nodes(ns, state_of(buffer@, vars@));
    assert(ns.skip(0) =~= ns);
    let mut i: usize = 0;
    while i < ms.len()
        invariant
            i <= ms@.len(),
            ns == nodes_of(ms@),
            ns.len() == ms@.len(),
            run_nodes(ns.skip(i as int), state_of(buffer@, vars@)) == target,
            target == run_nodes(ns, state_of(old(buffer)@, old(vars)@)),
        decreases ms@.len() - i,
    {
        let ghost rest = ns.skip(i as int);
        assert(rest[0] == ns[i as int]);
        assert(ns[i as int] == node_of(ms@[i as int]@));
        assert(rest.drop_first() =~= ns.skip(i + 1));
        let ghost cur = state_of(buffer@, vars@);
        if !ms[i].process(buffer, vars) {
            assert(run_nodes(rest, cur) is None);
            return false;
        }
        i = i + 1;
    }
    assert(ns.skip(i as int) =~= Seq::<Node>::empty());
    true
}

/// Evaluates a list of modules in order and collects their values; `None`
/// where the original program panics.
pub fn eval_modules(ms: &Vec<AnyModule>, vars: &StringHashMap<NpType>) -> (r: Option<Vec<NpType>>)
    ensures
        match eval_nodes(nodes_of(ms@), scope_model(vars@)) {
            Some(vs) => r matches Some(x) && np_views(x@) == vs,
            None => r is None,
        },
    decreases nodes_of(ms@), 2nat,
{
    let ghost ns = nodes_of(ms@);
    let ghost sc = scope_model(vars@);
    let ghost target = eval_nodes(ns, sc);
    let mut r: Vec<NpType> = Vec::new();
    assert(ns.skip(0) =~= ns);
    proof {
        if let Some(rest) = eval_nodes(ns, sc) {
            assert(np_views(r@) + rest =~= rest);
        }
    }
    let mut i: usize = 0;
    while i < ms.len()
        invariant
            i <= ms@.len(),
            ns == nodes_of(ms@),
            ns.len() == ms@.len(),
            sc == scope_model(vars@),
            target == eval_nodes(ns, sc),
            target == (match eval_nodes(ns.skip(i as int), sc) {
                Some(rest) => Some(np_views(r@) + rest),
                None => None,
            }),
        decreases ms@.len() - i,
    {
        let ghost rest = ns.skip(i as int);
        assert(rest[0] == ns[i as int]);
        assert(ns[i as int] == node_of(ms@[i as int]@));
        assert(rest.drop_first() =~= ns.skip(i + 1));
        let v = ms[i].evaluate(vars);
        let ghost before = r@;
        match v {
            Some(Some(x)) => {
                r.push(x);
                proof {
                    assert(np_views(r@) =~= np_views(before).push(x@));
                    if let Some(tail) = eval_nodes(ns.skip(i + 1), sc) {
                        assert(np_views(r@) + tail =~= np_views(before) + (seq![x@] + tail));
                    }
                }
            },
            Some(None) => {},
            None => {
                assert(eval_nodes(rest, sc) is None);
                return None;
            },
        }
        i = i + 1;
    }
    proof {
        assert(ns.skip(i as int) =~= Seq::<Node>::empty());
        assert(np_views(r@) + Seq::<NpVal>::empty() =~= np_views(r@));
    }
    Some(r)
}

impl AnyModule {
    /// Runs this module; `false` where the original program panics.
    pub fn process(&self, buffer: &mut String, vars: &mut StringHashMap<NpType>) -> (ok: bool)
        ensures
            ok == proc_node(node_of(self@), state_of(old(buffer)@, old(vars)@)) is Some,
            ok ==> Some(state_of(final(buffer)@, final(vars)@)) == proc_node(
                node_of(self@),
                state_of(old(buffer)@, old(vars)@),
            ),
        decreases node_of(self@), 1nat,
    {
        match self {
            AnyModule::Php(m) => m.process(buffer, vars),
            AnyModule::FunctionCall(m) => m.process(buffer, vars),
            AnyModule::Concat(m) => m.process(buffer, vars),
            AnyModule::VariableAssignment(m) => m.process(buffer, vars),
            AnyModule::Conditional(m) => m.process(buffer, vars),
            AnyModule::Identifier(m) => m.process(buffer, vars),
            AnyModule::Resolut(m) => m.process(buffer, vars),
        }
    }

    /// The value of this module, if it has one; `None` where the original
    /// program panics.
    pub fn evaluate(&self, vars: &StringHashMap<NpType>) -> (r: Option<Option<NpType>>)
        ensures
            eval_node(node_of(self@), scope_model(vars@)) == opt_opt_view(r),
        decreases node_of(self@), 1nat,
    {
        match self {
            AnyModule::Php(m) => m.evaluate(vars),
            AnyModule::FunctionCall(m) => m.evaluate(vars),
            AnyModule::Concat(m) => m.evaluate(vars),
            AnyModule::VariableAssignment(m) => m.evaluate(vars),
            AnyModule::Conditional(m) => m.evaluate(vars),
            AnyModule::Identifier(m) => m.evaluate(vars),
            AnyModule::Resolut(m) => m.evaluate(vars),
        }
    }
}

impl<'a, 'b> Compiler<'a, 'b> {
    /// A compiler with no modules that writes to `buffer` and keeps its
    /// variables in `variables`.
    pub fn new(buffer: &'a mut String, variables: &'b mut StringHashMap<NpType>) -> (r: Self)
        ensures
            r.modules.0@ == Seq::<AnyModule>::empty(),
            r.buffer@ == old(buffer)@,
            r.scope.variables@ == old(variables)@,
            *final(buffer) == *final(r.buffer),
            *final(variables) == *final(r.scope.variables),
    {
        let scope = ScopeBuffer::new(variables);
        Self { modules: ModuleList(Vec::new()), buffer, scope }
    }

    /// Builds a module for every array in `ast` and appends them to the
    /// modules of this compiler. A non-array element is skipped; every array
    /// must build into a module.
    pub fn execute(&mut self, ast: &Vec<Value>)
        requires
            build_seq(values_view(ast@)) is Some,
        ensures
            Some(nodes_of(final(self).modules.0@)) == (match build_seq(values_view(ast@)) {
                Some(ns) => Some(nodes_of(old(self).modules.0@) + ns),
                None => None,
            }),
            final(self).buffer@ == old(self).buffer@,
            final(self).scope.variables@ == old(self).scope.variables@,
            *final(final(self).buffer) == *final(old(self).buffer),
            *final(final(self).scope.variables) == *final(old(self).scope.variables),
    {
        let _ = self.try_execute(ast);
    }

    /// Like `execute`, but says whether every array built into a module
    /// instead of requiring it; where one does not, the original program
    /// panics, and the modules built before it have been appended.
    pub fn try_execute(&mut self, ast: &Vec<Value>) -> (ok: bool)
        ensures
            ok == build_seq(values_view(ast@)) is Some,
            ok ==> Some(nodes_of(final(self).modules.0@)) == (match build_seq(values_view(ast@)) {
                Some(ns) => Some(nodes_of(old(self).modules.0@) + ns),
                None => None,
            }),
            final(self).buffer@ == old(self).buffer@,
            final(self).scope.variables@ == old(self).scope.variables@,
            *final(final(self).buffer) == *final(old(self).buffer),
            *final(final(self).scope.variables) == *final(old(self).scope.variables),
    {
        let ghost vs = values_view(ast@);
        let ghost start = self.modules.0@;
        let ghost mut acc: Seq<Node> = Seq::empty();
        proof {
            lemma_values_view(ast@);
            assert(vs.skip(0) =~= vs);
            if let Some(rest) = build_seq(vs) {
                assert(acc + rest =~= rest);
            }
            assert(nodes_of(self.modules.0@) =~= nodes_of(start) + acc);
        }
        let mut i: usize = 0;
        while i < ast.len()
            invariant
                i <= ast@.len(),
                vs == values_view(ast@),
                vs.len() == ast@.len(),
                forall|j: int| 0 <= j < ast@.len() ==> #[trigger] vs[j] == value_view(ast@[j]),
                nodes_of(self.modules.0@) == nodes_of(start) + acc,
                start == old(self).modules.0@,
                self.buffer == old(self).buffer,
                self.scope == old(self).scope,
                build_seq(vs) == (match build_seq(vs.skip(i as int)) {
                    Some(rest) => Some(acc + rest),
                    None => None,
                }),
            decreases ast@.len() - i,
        {
            let ghost rest = vs.skip(i as int);
            assert(rest[0] == vs[i as int]);
            assert(rest.drop_first() =~= vs.skip(i + 1));
            if let Some(code) = ast[i].as_array() {
                proof {
                    lemma_build_node(values_view(code@));
                }
                match build_module(code) {
                    Built::Done(module) => {
                        let ghost before = self.modules.0@;
                        self.add_module(module);
                        proof {
                            let one = seq![node_of(module@)];
                            assert(build_one(rest[0]) == Some(one));
                            assert(nodes_of(self.modules.0@) =~= nodes_of(before) + one);
                            if let Some(tail) = build_seq(vs.skip(i + 1)) {
                                assert(acc + (one + tail) =~= (acc + one) + tail);
                            }
                            acc = acc + one;
                            assert(nodes_of(self.modules.0@) =~= nodes_of(start) + acc);
                        }
                    },
                    _ => {
                        return false;
                    },
                }
            } else {
                proof {
                    assert(build_one(rest[0]) == Some(Seq::<Node>::empty()));
                    if let Some(tail) = build_seq(vs.skip(i + 1)) {
                        assert(Seq::<Node>::empty() + tail =~= tail);
                    }
                }
            }
            i = i + 1;
        }
        proof {
            assert(vs.skip(i as int) =~= Seq::<Json>::empty());
            assert(acc + Seq::<Node>::empty() =~= acc);
        }
        true
    }

    /// Appends a module to the modules of this compiler.
    fn add_module(&mut self, module: AnyModule)
        ensures
            final(self).modules.0@ == old(self).modules.0@.push(module),
            final(self).buffer == old(self).buffer,
            final(self).scope == old(self).scope,
    {
        self.modules.0.push(module);
    }

    /// Runs the modules of this compiler in order, on inputs where the
    /// original program does not panic.
    pub fn run(&mut self)
        requires
            run_nodes(
                nodes_of(old(self).modules.0@),
                state_of(old(self).buffer@, old(self).scope.variables@),
            ) is Some,
        ensures
            Some(state_of(final(self).buffer@, final(self).scope.variables@)) == run_nodes(
                nodes_of(old(self).modules.0@),
                state_of(old(self).buffer@, old(self).scope.variables@),
            ),
            final(self).modules.0@ == old(self).modules.0@,
            *final(final(self).buffer) == *final(old(self).buffer),
            *final(final(self).scope.variables) == *final(old(self).scope.variables),
    {
        let _ = run_modules(&self.modules.0, self.buffer, self.scope.variables);
    }

    /// Like `run`, but says whether the run completes instead of requiring
    /// it; where it does not, the original program panics.
    pub fn try_run(&mut self) -> (ok: bool)
        ensures
            ok == run_nodes(
                nodes_of(old(self).modules.0@),
                state_of(old(self).buffer@, old(self).scope.variables@),
            ) is Some,
            ok ==> Some(state_of(final(self).buffer@, final(self).scope.variables@)) == run_nodes(
                nodes_of(old(self).modules.0@),
                state_of(old(self).buffer@, old(self).scope.variables@),
            ),
            final(self).modules.0@ == old(self).modules.0@,
            *final(final(self).buffer) == *final(old(self).buffer),
            *final(final(self).scope.variables) == *final(old(self).scope.variables),
    {
        run_modules(&self.modules.0, self.buffer, self.scope.variables)
    }

    /// The values of the modules of this compiler, in order; a module
    /// without a value is left out.
    pub fn eval(&mut self) -> (r: Vec<NpType>)
        requires
            eval_nodes(nodes_of(old(self).modules.0@), scope_model(old(self).scope.variables@)) is Some,
        ensures
            Some(np_views(r@)) == eval_nodes(
                nodes_of(old(self).modules.0@),
                scope_model(old(self).scope.variables@),
            ),
            final(self).modules.0@ == old(self).modules.0@,
            final(self).buffer@ == old(self).buffer@,
            final(self).scope.variables@ == old(self).scope.variables@,
            *final(final(self).buffer) == *final(old(self).buffer),
            *final(final(self).scope.variables) == *final(old(self).scope.variables),
    {
        eval_modules(&self.modules.0, self.scope.variables).unwrap()
    }

    /// What has been written so far.
    pub fn get_buffer(&self) -> (r: String)
        ensures
            r@ == old(self.buffer)@,
    {
        self.buffer.clone()
    }
}

} // verus!
