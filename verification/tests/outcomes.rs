use nophp::ast::Value;
use nophp::compiler::{build_module, AnyModule, Compiler, ScopeBuffer};
use nophp::modules::{
    EqualityOp, FunctionCall, Module, ModuleImpl, NpType, Php, ResolutMod, VariableAssignment,
};
use nophp::prelude::{Built, NoPhpError};
use nophp::StringHashMap;

fn st(x: &str) -> Value {
    Value::String(x.to_string())
}

fn arr(items: Vec<Value>) -> Value {
    Value::Array(items)
}

fn entries(pairs: Vec<(&str, Value)>) -> Vec<(String, Value)> {
    pairs.into_iter().map(|(k, v)| (k.to_string(), v)).collect()
}

fn obj(pairs: Vec<(&str, Value)>) -> Value {
    Value::Object(entries(pairs))
}

fn node(kind: &str, pairs: Vec<(&str, Value)>) -> Value {
    arr(vec![st(kind), obj(pairs)])
}

fn string_lit(x: &str) -> Value {
    node("STRING", vec![("VALUE", st(x))])
}

fn ident(x: &str) -> Value {
    node("ID", vec![("VALUE", st(x))])
}

fn call(function: &str, args: Vec<Value>) -> Value {
    node(
        "FUNCTION_CALL",
        vec![
            ("FUNCTION_ARGUMENTS", obj(vec![("POSITIONAL_ARGS", arr(args))])),
            ("ID", ident(function)),
        ],
    )
}

fn echo(arg: Value) -> Value {
    call("echo", vec![arg])
}

fn assign(name: &str, ty: &str, value: &str) -> Value {
    node(
        "VARIABLE_ASSIGNMENT",
        vec![
            ("ID", st(name)),
            ("EXPRESSION", arr(vec![st(ty), obj(vec![("VALUE", st(value))])])),
        ],
    )
}

fn side(kind: &str, value: &str) -> Value {
    arr(vec![st(kind), obj(vec![("VALUE", st(value))])])
}

fn conditional(op: &str, a: Value, b: Value, code: Vec<Value>) -> Value {
    node(
        "CONDITIONAL",
        vec![(
            "IF",
            arr(vec![
                st("IF"),
                obj(vec![("CODE", arr(code)), ("CONDITION", arr(vec![st(op), a, b]))]),
            ]),
        )],
    )
}

fn php(program: Vec<Value>) -> Value {
    node("PHP", vec![("PROGRAM", arr(program))])
}

fn code_of(tree: Value) -> Vec<Value> {
    match tree {
        Value::Array(code) => code,
        _ => unreachable!(),
    }
}

/// Builds and runs a program with `try_execute` and `try_run`; `None` where
/// either reports that the program panics.
fn try_program(prefix: &str, ast: Vec<Value>) -> Option<String> {
    let mut buffer = prefix.to_string();
    let mut vars = StringHashMap::new();
    let mut compiler = Compiler::new(&mut buffer, &mut vars);
    if !compiler.try_execute(&ast) {
        return None;
    }
    if !compiler.try_run() {
        return None;
    }
    Some(compiler.get_buffer())
}

#[test]
fn try_execute_refuses_an_unknown_kind() {
    let mut buffer = String::new();
    let mut vars = StringHashMap::new();
    let mut compiler = Compiler::new(&mut buffer, &mut vars);
    assert!(!compiler.try_execute(&vec![node("WHILE", vec![])]));
}

#[test]
fn try_execute_refuses_a_malformed_node() {
    let mut buffer = String::new();
    let mut vars = StringHashMap::new();
    let mut compiler = Compiler::new(&mut buffer, &mut vars);
    assert!(!compiler.try_execute(&vec![arr(vec![st("PHP")])]));
    assert!(!compiler.try_execute(&vec![assign("x", "INT", "nope")]));
}

#[test]
fn try_execute_accepts_well_formed_programs() {
    let mut buffer = String::new();
    let mut vars = StringHashMap::new();
    let mut compiler = Compiler::new(&mut buffer, &mut vars);
    assert!(compiler.try_execute(&vec![echo(string_lit("a")), Value::Bool(true)]));
    assert!(compiler.try_execute(&vec![echo(string_lit("b"))]));
    assert_eq!(compiler.modules.0.len(), 2);
    assert!(compiler.try_run());
    assert_eq!(compiler.get_buffer(), "ab");
}

#[test]
fn try_run_refuses_a_function_other_than_echo() {
    assert_eq!(try_program("", vec![call("print", vec![string_lit("x")])]), None);
}

#[test]
fn try_run_refuses_an_echo_without_a_value() {
    assert_eq!(try_program("", vec![echo(ident("unset"))]), None);
    assert_eq!(try_program("", vec![call("echo", vec![])]), None);
    assert_eq!(try_program("", vec![echo(assign("x", "INT", "1"))]), None);
}

#[test]
fn try_run_refuses_a_concat_with_a_missing_operand() {
    let missing = node("CONCAT", vec![("0", string_lit("a"))]);
    assert_eq!(try_program("", vec![echo(missing)]), None);
    let unset = node("CONCAT", vec![("0", string_lit("a")), ("1", ident("u"))]);
    assert_eq!(try_program("", vec![echo(unset)]), None);
    let plain = node("CONCAT", vec![("0", string_lit("a")), ("1", st("not a node"))]);
    assert_eq!(try_program("", vec![echo(plain)]), None);
}

#[test]
fn nested_pages_build_their_modules_when_they_run() {
    // The inner program is only built when the page runs.
    let bad_page = php(vec![node("WHILE", vec![])]);
    let mut buffer = String::new();
    let mut vars = StringHashMap::new();
    let mut compiler = Compiler::new(&mut buffer, &mut vars);
    assert!(compiler.try_execute(&vec![bad_page]));
    assert!(!compiler.try_run());
}

#[test]
fn conditional_body_is_built_only_when_it_runs() {
    let bad = node("WHILE", vec![]);
    let skipped = conditional("EQEQ", side("INT", "1"), side("INT", "2"), vec![bad.duplicate()]);
    assert_eq!(try_program("", vec![skipped, echo(string_lit("ok"))]), Some("ok".to_string()));
    let taken = conditional("EQEQ", side("INT", "1"), side("INT", "1"), vec![bad]);
    assert_eq!(try_program("", vec![taken]), None);
}

#[test]
fn conditional_with_a_literal_of_unknown_type_panics() {
    let c = conditional("EQEQ", side("FLOAT", "1.0"), side("INT", "1"), vec![]);
    assert_eq!(try_program("", vec![c]), None);
}

#[test]
fn conditional_with_an_unreadable_literal_does_nothing() {
    let c = conditional("EQEQ", side("INT", "x"), side("INT", "1"), vec![echo(string_lit("no"))]);
    assert_eq!(try_program("", vec![c]), Some(String::new()));
    let c = conditional("EQEQ", arr(vec![]), side("INT", "1"), vec![echo(string_lit("no"))]);
    assert_eq!(try_program("", vec![c]), Some(String::new()));
}

#[test]
fn conditional_compares_strings_and_numbers() {
    let program = vec![
        assign("s", "STRING", "abc"),
        conditional("LESSER", side("ID", "s"), side("INT", "0"), vec![echo(string_lit("1"))]),
        conditional("GREATER", side("ID", "s"), side("STRING", "abd"), vec![echo(string_lit("2"))]),
        conditional("LESSER", side("ID", "s"), side("STRING", "abd"), vec![echo(string_lit("3"))]),
        conditional("EQEQ", side("ID", "s"), side("STRING", "abc"), vec![echo(string_lit("4"))]),
    ];
    assert_eq!(try_program("", program), Some("134".to_string()));
}

#[test]
fn variables_set_inside_a_body_stay_set() {
    let program = vec![
        conditional(
            "EQEQ",
            side("INT", "1"),
            side("INT", "1"),
            vec![assign("x", "STRING", "inner")],
        ),
        php(vec![assign("y", "INT", "2")]),
        echo(ident("x")),
        echo(ident("y")),
    ];
    assert_eq!(try_program("", program), Some("inner2".to_string()));
}

#[test]
fn running_only_appends_to_the_buffer() {
    let out = try_program("before:", vec![echo(string_lit("x")), echo(string_lit("y"))]).unwrap();
    assert!(out.starts_with("before:"));
    assert_eq!(out, "before:xy");
}

#[test]
fn running_two_lists_in_turn_is_running_them_joined() {
    let first = vec![assign("a", "INT", "1"), echo(ident("a"))];
    let second = vec![assign("a", "INT", "2"), echo(ident("a"))];

    let mut buffer = String::new();
    let mut vars = StringHashMap::new();
    {
        let mut c = Compiler::new(&mut buffer, &mut vars);
        c.execute(&first);
        c.run();
    }
    {
        let mut c = Compiler::new(&mut buffer, &mut vars);
        c.execute(&second);
        c.run();
    }

    let mut joined = first;
    joined.extend(second);
    assert_eq!(try_program("", joined), Some(buffer));
    assert_eq!(vars.get("a"), Some(&NpType::Number(2)));
}

#[test]
fn reassignment_replaces_the_value() {
    let program = vec![
        assign("v", "STRING", "old"),
        assign("v", "STRING", "new"),
        echo(ident("v")),
    ];
    assert_eq!(try_program("", program), Some("new".to_string()));
}

#[test]
fn echo_writes_only_the_first_value() {
    let program = vec![call("echo", vec![string_lit("first"), string_lit("second")])];
    assert_eq!(try_program("", program), Some("first".to_string()));
}

#[test]
fn echo_of_a_number_writes_its_decimal_text() {
    let program = vec![assign("n", "INT", "+0012"), echo(ident("n"))];
    assert_eq!(try_program("", program), Some("12".to_string()));
}

#[test]
fn concat_of_concats() {
    let inner = node("CONCAT", vec![("0", string_lit("a")), ("1", string_lit("b"))]);
    let outer = node("CONCAT", vec![("0", inner), ("1", string_lit("c\\n"))]);
    assert_eq!(try_program("", vec![echo(outer)]), Some("abc\n".to_string()));
}

#[test]
fn build_module_tells_panics_from_errors() {
    assert!(matches!(build_module(&code_of(node("WHILE", vec![]))), Built::Panic));
    assert!(matches!(build_module(&vec![st("PHP")]), Built::Fail(NoPhpError::MalformedAST)));
    assert!(matches!(build_module(&code_of(node("PHP", vec![]))), Built::Panic));
    assert!(matches!(
        build_module(&code_of(node("STRING", vec![]))),
        Built::Panic
    ));
    assert!(matches!(
        build_module(&code_of(assign("x", "FLOAT", "1"))),
        Built::Panic
    ));
    assert!(matches!(
        build_module(&code_of(assign("x", "INT", "1.5"))),
        Built::Fail(NoPhpError::ValueParseError)
    ));
    assert!(matches!(build_module(&code_of(ident("x"))), Built::Done(AnyModule::Identifier(_))));
}

#[test]
fn builders_report_the_panicking_inputs() {
    assert!(matches!(NpType::build(&"FLOAT".to_string(), &st("1")), Built::Panic));
    assert!(matches!(NpType::build(&"INT".to_string(), &st("12")), Built::Done(NpType::Number(12))));
    assert!(matches!(Php::build(entries(vec![])), Built::Panic));
    assert!(matches!(Php::build(entries(vec![("PROGRAM", st("x"))])), Built::Panic));
    assert!(matches!(FunctionCall::build(entries(vec![])), Built::Panic));
    let no_name = entries(vec![(
        "FUNCTION_ARGUMENTS",
        obj(vec![("POSITIONAL_ARGS", arr(vec![]))]),
    )]);
    assert!(matches!(FunctionCall::build(no_name), Built::Panic));
    assert!(matches!(ResolutMod::build("STRING", entries(vec![])), Built::Panic));
    assert!(matches!(
        ResolutMod::build("INT", entries(vec![("VALUE", st("1"))])),
        Built::Fail(NoPhpError::Other(_))
    ));
    assert!(matches!(
        VariableAssignment::build(entries(vec![
            ("ID", st("x")),
            ("EXPRESSION", arr(vec![st("BOOL"), obj(vec![("VALUE", st("true"))])])),
        ])),
        Built::Panic
    ));
}

#[test]
fn into_result_keeps_the_value_or_the_error() {
    let done: Built<u8> = Built::Done(3);
    assert!(matches!(done.into_result(), Ok(3)));
    let failed: Built<u8> = Built::Fail(NoPhpError::ValueParseError);
    assert!(matches!(failed.into_result(), Err(NoPhpError::ValueParseError)));
}

#[test]
fn trait_methods_run_and_evaluate_modules() {
    let mut buffer = String::from(">");
    let mut vars = StringHashMap::new();
    let assignment = match build_module(&code_of(assign("k", "STRING", "v"))) {
        Built::Done(AnyModule::VariableAssignment(m)) => m,
        _ => unreachable!(),
    };
    let printer = match build_module(&code_of(echo(ident("k")))) {
        Built::Done(AnyModule::FunctionCall(m)) => m,
        _ => unreachable!(),
    };
    let reader = match build_module(&code_of(ident("k"))) {
        Built::Done(AnyModule::Identifier(m)) => m,
        _ => unreachable!(),
    };
    {
        let mut scope = ScopeBuffer::new(&mut vars);
        assignment.proc_tree(&mut buffer, &mut scope);
        printer.proc_tree(&mut buffer, &mut scope);
        assert_eq!(reader.eval(&mut buffer, &mut scope), Some(NpType::String("v".to_string())));
        assert_eq!(printer.eval(&mut buffer, &mut scope), None);
        assert_eq!(assignment.eval(&mut buffer, &mut scope), None);
    }
    assert_eq!(buffer, ">v");
    assert_eq!(assignment.name(), "VariableAssignment");
    assert_eq!(reader.name(), "Identifier");
}

#[test]
fn any_module_process_and_evaluate() {
    let mut buffer = String::new();
    let mut vars = StringHashMap::new();
    let page = match build_module(&code_of(php(vec![echo(string_lit("p"))]))) {
        Built::Done(m) => m,
        _ => unreachable!(),
    };
    assert!(page.process(&mut buffer, &mut vars));
    assert_eq!(buffer, "p");
    assert!(matches!(page.evaluate(&vars), Some(None)));
    let lit = match build_module(&code_of(string_lit("s"))) {
        Built::Done(m) => m,
        _ => unreachable!(),
    };
    assert!(matches!(lit.evaluate(&vars), Some(Some(NpType::String(s))) if s == "s"));
}

#[test]
fn comparison_laws_on_values() {
    let values = vec![
        NpType::String(String::new()),
        NpType::String("a".to_string()),
        NpType::String("ab".to_string()),
        NpType::String("b".to_string()),
        NpType::Number(i64::MIN),
        NpType::Number(0),
        NpType::Number(7),
    ];
    for l in &values {
        for r in &values {
            let eq = EqualityOp::EqEq.compare(l.clone(), r.clone());
            let ne = EqualityOp::NotEqEq.compare(l.clone(), r.clone());
            let lt = EqualityOp::Lt.compare(l.clone(), r.clone());
            let gt = EqualityOp::Gt.compare(l.clone(), r.clone());
            assert_eq!(ne, !eq);
            assert_eq!(gt, EqualityOp::Lt.compare(r.clone(), l.clone()));
            assert_eq!([eq, lt, gt].iter().filter(|b| **b).count(), 1);
        }
    }
}

#[test]
fn plain_text_is_written_as_it_is() {
    for s in ["", "hello", "tab\there", "multi\nline", "n"] {
        assert_eq!(NpType::String(s.to_string()).to_string(), s);
    }
}

#[test]
fn get_buffer_returns_what_was_written() {
    let mut buffer = String::from("start");
    let mut vars = StringHashMap::new();
    let compiler = Compiler::new(&mut buffer, &mut vars);
    assert_eq!(compiler.get_buffer(), "start");
}
