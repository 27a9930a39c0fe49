use nophp::ast::Value;
use nophp::compiler::{parse_module, AnyModule, Compiler};
use nophp::modules::{
    ConcatMod, Conditional, EqualityOp, FunctionCall, Identifier, Module, NpType, Php, ResolutMod,
    VariableAssignment,
};
use nophp::prelude::NoPhpError;
use nophp::StringHashMap;

fn st(x: &str) -> Value {
    Value::String(x.to_string())
}

fn arr(items: Vec<Value>) -> Value {
    Value::Array(items)
}

fn entries(pairs: Vec<(&str, Value)>) -> Vec<(String, Value)> {
    pairs.into_iter().map(|(k, v)| (k.to_string(), v)).collect()
}

fn obj(pairs: Vec<(&str, Value)>) -> Value {
    Value::Object(entries(pairs))
}

fn node(kind: &str, pairs: Vec<(&str, Value)>) -> Value {
    arr(vec![st(kind), obj(pairs)])
}

fn string_lit(x: &str) -> Value {
    node("STRING", vec![("VALUE", st(x))])
}

fn ident(x: &str) -> Value {
    node("ID", vec![("VALUE", st(x))])
}

fn echo(arg: Value) -> Value {
    node(
        "FUNCTION_CALL",
        vec![
            ("FUNCTION_ARGUMENTS", obj(vec![("POSITIONAL_ARGS", arr(vec![arg]))])),
            ("ID", ident("echo")),
        ],
    )
}

fn assign(name: &str, ty: &str, value: &str) -> Value {
    node(
        "VARIABLE_ASSIGNMENT",
        vec![
            ("ID", st(name)),
            ("EXPRESSION", arr(vec![st(ty), obj(vec![("VALUE", st(value))])])),
        ],
    )
}

fn side(kind: &str, value: &str) -> Value {
    arr(vec![st(kind), obj(vec![("VALUE", st(value))])])
}

fn conditional(op: &str, a: Value, b: Value, code: Vec<Value>) -> Value {
    node(
        "CONDITIONAL",
        vec![(
            "IF",
            arr(vec![
                st("IF"),
                obj(vec![("CODE", arr(code)), ("CONDITION", arr(vec![st(op), a, b]))]),
            ]),
        )],
    )
}

fn php(program: Vec<Value>) -> Value {
    node("PHP", vec![("PROGRAM", arr(program))])
}

fn run_program(ast: Vec<Value>) -> (String, StringHashMap<NpType>) {
    let mut buffer = String::new();
    let mut vars = StringHashMap::new();
    {
        let mut compiler = Compiler::new(&mut buffer, &mut vars);
        compiler.execute(&ast);
        compiler.run();
    }
    (buffer, vars)
}

#[test]
fn echo_writes_a_string() {
    let (out, _) = run_program(vec![php(vec![echo(string_lit("hello"))])]);
    assert_eq!(out, "hello");
}

#[test]
fn echo_turns_escaped_newlines_into_newlines() {
    let (out, _) = run_program(vec![echo(string_lit("a\\nb"))]);
    assert_eq!(out, "a\nb");
}

#[test]
fn assignment_then_identifier_reads_the_value() {
    let (out, vars) = run_program(vec![
        assign("x", "STRING", "world"),
        echo(ident("x")),
        assign("n", "INT", "-42"),
        echo(ident("n")),
    ]);
    assert_eq!(out, "world-42");
    assert_eq!(vars.get("n"), Some(&NpType::Number(-42)));
}

#[test]
fn concat_joins_two_operands() {
    let concat = node("CONCAT", vec![("0", string_lit("foo")), ("1", ident("x"))]);
    let (out, _) = run_program(vec![assign("x", "INT", "7"), echo(concat)]);
    assert_eq!(out, "foo7");
}

#[test]
fn conditional_runs_its_body_only_when_the_comparison_holds() {
    let program = vec![
        assign("a", "INT", "5"),
        conditional("GREATER", side("ID", "a"), side("INT", "3"), vec![echo(string_lit("gt"))]),
        conditional("LESSER", side("ID", "a"), side("INT", "3"), vec![echo(string_lit("lt"))]),
        conditional("EQEQ", side("ID", "a"), side("INT", "5"), vec![echo(string_lit("eq"))]),
        conditional("NOT_EQEQ", side("ID", "a"), side("INT", "5"), vec![echo(string_lit("ne"))]),
    ];
    let (out, _) = run_program(program);
    assert_eq!(out, "gteq");
}

#[test]
fn conditional_with_an_unset_variable_does_nothing() {
    let program = vec![conditional(
        "EQEQ",
        side("ID", "missing"),
        side("STRING", "x"),
        vec![echo(string_lit("never"))],
    )];
    let (out, _) = run_program(program);
    assert_eq!(out, "");
}

#[test]
fn non_array_elements_are_skipped() {
    let (out, _) = run_program(vec![st("ignored"), echo(string_lit("ok")), Value::Null]);
    assert_eq!(out, "ok");
}

#[test]
fn eval_collects_values_and_changes_nothing() {
    let mut buffer = String::from("keep");
    let mut vars = StringHashMap::new();
    vars.insert("v".to_string(), NpType::Number(3));
    let mut compiler = Compiler::new(&mut buffer, &mut vars);
    compiler.execute(&vec![
        string_lit("s"),
        assign("z", "INT", "1"),
        ident("v"),
        ident("unset"),
    ]);
    let values = compiler.eval();
    assert_eq!(values, vec![NpType::String("s".to_string()), NpType::Number(3)]);
    assert_eq!(compiler.get_buffer(), "keep");
}

#[test]
fn parse_module_reports_malformed_nodes() {
    let r = parse_module(&vec![st("PHP")]);
    assert!(matches!(r, Err(NoPhpError::MalformedAST)));
    let r = parse_module(&vec![Value::Null, obj(vec![])]);
    assert!(matches!(r, Err(NoPhpError::MalformedAST)));
}

#[test]
fn parse_module_builds_each_kind() {
    let kinds = vec![
        (php(vec![]), "Php"),
        (echo(string_lit("x")), "FunctionCall"),
        (node("CONCAT", vec![]), "ConcatMod"),
        (assign("x", "INT", "1"), "VariableAssignment"),
        (conditional("EQEQ", side("INT", "1"), side("INT", "1"), vec![]), "Conditional"),
        (ident("x"), "Identifier"),
        (string_lit("x"), "ResolutMod"),
    ];
    for (tree, name) in kinds {
        let code = match tree {
            Value::Array(code) => code,
            _ => unreachable!(),
        };
        let module = parse_module(&code).unwrap();
        let got = match &module {
            AnyModule::Php(m) => m.name(),
            AnyModule::FunctionCall(m) => m.name(),
            AnyModule::Concat(m) => m.name(),
            AnyModule::VariableAssignment(m) => m.name(),
            AnyModule::Conditional(m) => m.name(),
            AnyModule::Identifier(m) => m.name(),
            AnyModule::Resolut(m) => m.name(),
        };
        assert_eq!(got, name);
    }
}

#[test]
fn variable_assignment_errors() {
    let r = VariableAssignment::try_new(entries(vec![("ID", st("x"))]));
    assert!(matches!(r, Err(NoPhpError::MalformedAST)));
    let r = VariableAssignment::try_new(entries(vec![
        ("ID", Value::Null),
        ("EXPRESSION", arr(vec![])),
    ]));
    assert!(matches!(r, Err(NoPhpError::MalformedAST)));
    let r = VariableAssignment::try_new(entries(vec![
        ("ID", st("x")),
        ("EXPRESSION", arr(vec![st("INT"), obj(vec![("VALUE", st("12a"))])])),
    ]));
    assert!(matches!(r, Err(NoPhpError::ValueParseError)));
    let r = VariableAssignment::try_new(entries(vec![
        ("ID", st("x")),
        ("EXPRESSION", arr(vec![st("INT"), obj(vec![])])),
    ]));
    assert!(matches!(r, Err(NoPhpError::MalformedAST)));
}

#[test]
fn np_type_try_new_reads_literals() {
    assert_eq!(
        NpType::try_new(&"STRING".to_string(), &st("abc")).unwrap(),
        NpType::String("abc".to_string())
    );
    assert_eq!(NpType::try_new(&"INT".to_string(), &st("+15")).unwrap(), NpType::Number(15));
    assert_eq!(
        NpType::try_new(&"INT".to_string(), &st("-9223372036854775808")).unwrap(),
        NpType::Number(i64::MIN)
    );
    assert!(matches!(
        NpType::try_new(&"INT".to_string(), &st("9223372036854775808")),
        Err(NoPhpError::ValueParseError)
    ));
    assert!(matches!(
        NpType::try_new(&"INT".to_string(), &Value::Number("3".to_string())),
        Err(NoPhpError::ValueParseError)
    ));
    assert!(matches!(
        NpType::try_new(&"STRING".to_string(), &Value::Bool(true)),
        Err(NoPhpError::ValueParseError)
    ));
}

#[test]
fn equality_op_reads_operators() {
    assert!(matches!(EqualityOp::try_new("EQEQ"), Ok(EqualityOp::EqEq)));
    assert!(matches!(EqualityOp::try_new("NOT_EQEQ"), Ok(EqualityOp::NotEqEq)));
    assert!(matches!(EqualityOp::try_new("GREATER"), Ok(EqualityOp::Gt)));
    assert!(matches!(EqualityOp::try_new("LESSER"), Ok(EqualityOp::Lt)));
    match EqualityOp::try_new("GE") {
        Err(NoPhpError::InvalidEqOp(s)) => assert_eq!(s, "GE"),
        _ => panic!("expected an error"),
    }
}

#[test]
fn equality_op_compares_values() {
    let a = NpType::String("apple".to_string());
    let b = NpType::String("banana".to_string());
    let n = NpType::Number(-1);
    assert!(EqualityOp::Lt.compare(a.clone(), b.clone()));
    assert!(EqualityOp::Gt.compare(b.clone(), a.clone()));
    assert!(EqualityOp::Lt.compare(b.clone(), n.clone()));
    assert!(!EqualityOp::EqEq.compare(a.clone(), b.clone()));
    assert!(EqualityOp::NotEqEq.compare(a.clone(), b.clone()));
    assert!(EqualityOp::EqEq.compare(n.clone(), NpType::Number(-1)));
    assert!(EqualityOp::Gt.compare(3, 2));
}

#[test]
fn conditional_errors() {
    let r = Conditional::try_new(&entries(vec![]));
    assert!(matches!(r, Err(NoPhpError::MalformedAST)));
    let r = Conditional::try_new(&entries(vec![("IF", arr(vec![st("IF")]))]));
    assert!(matches!(r, Err(NoPhpError::MalformedAST)));
    let tree = conditional("SAME", side("INT", "1"), side("INT", "1"), vec![]);
    let map = match tree {
        Value::Array(mut code) => match code.pop() {
            Some(Value::Object(m)) => m,
            _ => unreachable!(),
        },
        _ => unreachable!(),
    };
    match Conditional::try_new(&map) {
        Err(NoPhpError::InvalidEqOp(s)) => assert_eq!(s, "SAME"),
        _ => panic!("expected an error"),
    }
}

#[test]
fn get_code_and_cond_finds_both_parts() {
    let code = vec![
        st("IF"),
        obj(vec![("CODE", arr(vec![Value::Null])), ("CONDITION", arr(vec![]))]),
    ];
    let (body, cond) = Conditional::get_code_and_cond(&code).unwrap();
    assert_eq!(body.len(), 1);
    assert_eq!(cond.len(), 0);
    assert!(Conditional::get_code_and_cond(&code[..1]).is_none());
}

#[test]
fn identifier_and_resolut_errors() {
    assert!(matches!(Identifier::try_new(entries(vec![])), Err(NoPhpError::MalformedAST)));
    assert!(matches!(
        Identifier::try_new(entries(vec![("VALUE", Value::Bool(false))])),
        Err(NoPhpError::MalformedAST)
    ));
    match ResolutMod::try_new("STRING", entries(vec![("VALUE", Value::Null)])) {
        Err(NoPhpError::Other(m)) => assert_eq!(m, "Invalid type reached"),
        _ => panic!("expected an error"),
    }
    assert!(ResolutMod::try_new("STRING", entries(vec![("VALUE", st("v"))])).is_ok());
}

#[test]
fn php_function_call_and_concat_build() {
    assert!(Php::try_new(entries(vec![("PROGRAM", arr(vec![]))])).is_ok());
    assert!(ConcatMod::try_new(entries(vec![])).is_ok());
    let call = match echo(string_lit("x")) {
        Value::Array(mut code) => match code.pop() {
            Some(Value::Object(m)) => m,
            _ => unreachable!(),
        },
        _ => unreachable!(),
    };
    assert_eq!(FunctionCall::try_new(call).unwrap().name(), "FunctionCall");
}
