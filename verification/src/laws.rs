//! Properties of the interpreter as a whole.

use vstd::prelude::*;

use crate::modules::{display, np_less, np_type_outcome, EqualityOp, NpVal};
use crate::prelude::{ErrorKind, Outcome};
use crate::semantics::{
    build_node, build_one, build_seq, compare_values, equality_op_outcome, eval_node, eval_nodes, first_value,
    lemma_build_node, proc_node, run_nodes, Node, State,
};
use crate::text::{
    all_digits, chars_less, digit_char, digit_value, digits_value, int_decimal, is_digit, lemma_chars_less_asymmetric,
    nat_decimal, text_i64, text_integer, unescape_newlines,
};
use crate::ast::{json_as_array, json_as_object, lookup, Json};

verus! {

/// After an assignment runs, the identifier of the same name evaluates to
/// the assigned value.
pub proof fn law_assignment_then_read(id: Seq<char>, v: NpVal, st: State)
    ensures
        proc_node(Node::VariableAssignment(id, v), st) matches Some(st2) && eval_node(
            Node::Identifier(id),
            st2.scope,
        ) == Some(Some(v)),
{
}

/// Running a module never takes back output: what was written before is a
/// prefix of what is written after.
pub proof fn law_proc_appends(n: Node, st: State)
    ensures
        proc_node(n, st) matches Some(st2) ==> st.buffer.is_prefix_of(st2.buffer),
    decreases n,
{
    match n {
        Node::Php(Some(ms)) => law_run_appends(ms, st),
        Node::Conditional(_, _, _, Some(ms)) => law_run_appends(ms, st),
        Node::FunctionCall(_, _) => {
            if let Some(st2) = proc_node(n, st) {
                assert(st2.buffer.subrange(0, st.buffer.len() as int) =~= st.buffer);
            }
        },
        _ => {},
    }
}

/// Running a list of modules never takes back output.
pub proof fn law_run_appends(ms: Seq<Node>, st: State)
    ensures
        run_nodes(ms, st) matches Some(st2) ==> st.buffer.is_prefix_of(st2.buffer),
    decreases ms,
{
    if ms.len() > 0 {
        law_proc_appends(ms[0], st);
        if let Some(st1) = proc_node(ms[0], st) {
            law_run_appends(ms.drop_first(), st1);
            if let Some(st2) = run_nodes(ms.drop_first(), st1) {
                assert(st2.buffer.subrange(0, st.buffer.len() as int) =~= st1.buffer.subrange(
                    0,
                    st.buffer.len() as int,
                ));
            }
        }
    }
}

/// Running two lists of modules one after the other is running the list
/// that joins them.
pub proof fn law_run_sequence(a: Seq<Node>, b: Seq<Node>, st: State)
    ensures
        run_nodes(a + b, st) == (match run_nodes(a, st) {
            Some(mid) => run_nodes(b, mid),
            None => None,
        }),
    decreases a.len(),
{
    if a.len() == 0 {
        assert(a + b =~= b);
    } else {
        assert((a + b)[0] == a[0]);
        assert((a + b).drop_first() =~= a.drop_first() + b);
        if let Some(st1) = proc_node(a[0], st) {
            law_run_sequence(a.drop_first(), b, st1);
        }
    }
}

/// Building the modules of two lists one after the other builds the
/// modules of the list that joins them.
pub proof fn law_build_sequence(x: Seq<Json>, y: Seq<Json>)
    ensures
        build_seq(x + y) == (match (build_seq(x), build_seq(y)) {
            (Some(p), Some(q)) => Some(p + q),
            _ => None,
        }),
    decreases x.len(),
{
    if x.len() == 0 {
        assert(x + y =~= y);
        if let Some(q) = build_seq(y) {
            assert(Seq::<Node>::empty() + q =~= q);
        }
    } else {
        assert((x + y)[0] == x[0]);
        assert((x + y).drop_first() =~= x.drop_first() + y);
        law_build_sequence(x.drop_first(), y);
        if let (Some(o), Some(p), Some(q)) = (build_one(x[0]), build_seq(x.drop_first()), build_seq(y)) {
            assert(o + (p + q) =~= (o + p) + q);
        }
    }
}

/// Two texts are equal, or one comes before the other.
pub proof fn lemma_chars_less_total(a: Seq<char>, b: Seq<char>)
    ensures
        a != b ==> chars_less(a, b) || chars_less(b, a),
    decreases a.len(),
{
    if a.len() > 0 && b.len() > 0 && a[0] == b[0] {
        lemma_chars_less_total(a.skip(1), b.skip(1));
        if a != b {
            assert(a =~= seq![a[0]] + a.skip(1));
            assert(b =~= seq![b[0]] + b.skip(1));
        }
    } else if a.len() == 0 && b.len() == 0 {
        assert(a =~= b);
    }
}

/// Of two values, exactly one of "less", "equal" and "greater" holds;
/// `NOT_EQEQ` is the negation of `EQEQ`, and `GREATER` is `LESSER` with the
/// sides swapped.
pub proof fn law_comparisons(l: NpVal, r: NpVal)
    ensures
        compare_values(EqualityOp::NotEqEq, l, r) == !compare_values(EqualityOp::EqEq, l, r),
        compare_values(EqualityOp::Gt, l, r) == compare_values(EqualityOp::Lt, r, l),
        compare_values(EqualityOp::EqEq, l, r) ==> !compare_values(EqualityOp::Lt, l, r)
            && !compare_values(EqualityOp::Gt, l, r),
        !(compare_values(EqualityOp::Lt, l, r) && compare_values(EqualityOp::Gt, l, r)),
        compare_values(EqualityOp::Lt, l, r) || compare_values(EqualityOp::EqEq, l, r)
            || compare_values(EqualityOp::Gt, l, r),
{
    match (l, r) {
        (NpVal::Str(x), NpVal::Str(y)) => {
            lemma_chars_less_asymmetric(x, y);
            lemma_chars_less_asymmetric(x, x);
            lemma_chars_less_total(x, y);
        },
        _ => {},
    }
}

proof fn lemma_nat_decimal_digits(n: nat)
    ensures
        nat_decimal(n).len() > 0,
        all_digits(nat_decimal(n)),
        digits_value(nat_decimal(n)) == n,
    decreases n,
{
    if n >= 10 {
        lemma_nat_decimal_digits(n / 10);
        let s = nat_decimal(n);
        assert(s.drop_last() =~= nat_decimal(n / 10));
        assert(forall|i: int| 0 <= i < s.len() - 1 ==> s[i] == nat_decimal(n / 10)[i]);
        assert(all_digits(s));
        let d = (n % 10) as nat;
        assert(digit_value(digit_char(d)) == d);
        assert(s.last() == digit_char(d));
        assert(n == (n / 10) * 10 + d);
        assert(digits_value(s) == digits_value(s.drop_last()) * 10 + digit_value(s.last()));
    } else {
        let s = nat_decimal(n);
        assert(s.drop_last() =~= Seq::<char>::empty());
        assert(digit_value(digit_char(n)) == n);
        assert(digits_value(Seq::<char>::empty()) == 0);
        assert(digits_value(s) == digits_value(s.drop_last()) * 10 + digit_value(s.last()));
    }
}

/// Reading back the decimal text of a number gives the number: what
/// `NpType::to_string` writes for `Number(n)`, `NpType::try_new("INT", ..)`
/// reads as `n`.
pub proof fn law_decimal_roundtrip(n: i64)
    ensures
        text_i64(int_decimal(n as int)) == Some(n),
{
    if n < 0 {
        let m = (-n) as nat;
        lemma_nat_decimal_digits(m);
        let s = int_decimal(n as int);
        assert(s.skip(1) =~= nat_decimal(m));
        assert(text_integer(s) == Some(-(m as int)));
    } else {
        let m = n as nat;
        lemma_nat_decimal_digits(m);
        let s = int_decimal(n as int);
        assert(is_digit(s[0]));
        assert(text_integer(s) == Some(m as int));
    }
}

/// A text without a backslash is written out as it is.
pub proof fn law_display_plain_text(s: Seq<char>)
    requires
        !s.contains('\\'),
    ensures
        display(NpVal::Str(s)) == s,
    decreases s.len(),
{
    if s.len() > 0 {
        assert(s.skip(1).len() < s.len());
        assert forall|c: char| s.skip(1).contains(c) implies s.contains(c) by {
            let i = choose|i: int| 0 <= i < s.skip(1).len() && s.skip(1)[i] == c;
            assert(s[i + 1] == c);
        }
        law_display_plain_text(s.skip(1));
        assert(s[0] != '\\') by {
            assert(s.contains(s[0]));
        }
        assert(seq![s[0]] + s.skip(1) =~= s);
    }
}


/// Two numbers compare as signed integers: `LESSER`, `GREATER`, `EQEQ` and
/// `NOT_EQEQ` are `<`, `>`, `==` and `!=` on their values.
pub proof fn law_numbers_compare_as_integers(x: i64, y: i64)
    ensures
        compare_values(EqualityOp::Lt, NpVal::Num(x), NpVal::Num(y)) == (x < y),
        compare_values(EqualityOp::Gt, NpVal::Num(x), NpVal::Num(y)) == (x > y),
        compare_values(EqualityOp::EqEq, NpVal::Num(x), NpVal::Num(y)) == (x == y),
        compare_values(EqualityOp::NotEqEq, NpVal::Num(x), NpVal::Num(y)) == (x != y),
{
}

/// Every string comes before every number, and no number before a string;
/// a string equals no number.
pub proof fn law_strings_before_numbers(s: Seq<char>, n: i64)
    ensures
        compare_values(EqualityOp::Lt, NpVal::Str(s), NpVal::Num(n)),
        compare_values(EqualityOp::Gt, NpVal::Num(n), NpVal::Str(s)),
        !compare_values(EqualityOp::Lt, NpVal::Num(n), NpVal::Str(s)),
        !compare_values(EqualityOp::EqEq, NpVal::Str(s), NpVal::Num(n)),
{
}

/// Strings compare character by character: where two strings agree on
/// their first `i` characters, the first character in which they differ
/// decides, and a proper prefix comes first. Equal strings are `EQEQ`.
pub proof fn law_strings_compare_lexicographically(a: Seq<char>, b: Seq<char>, i: int)
    requires
        0 <= i <= a.len(),
        i <= b.len(),
        a.take(i) == b.take(i),
    ensures
        i < a.len() && i < b.len() && a[i] < b[i] ==> compare_values(
            EqualityOp::Lt,
            NpVal::Str(a),
            NpVal::Str(b),
        ),
        i == a.len() && i < b.len() ==> compare_values(EqualityOp::Lt, NpVal::Str(a), NpVal::Str(b)),
        compare_values(EqualityOp::EqEq, NpVal::Str(a), NpVal::Str(b)) == (a == b),
    decreases i,
{
    if i > 0 {
        assert(a[0] == a.take(i)[0]);
        assert(b[0] == b.take(i)[0]);
        assert(a.skip(1).take(i - 1) =~= a.take(i).skip(1));
        assert(b.skip(1).take(i - 1) =~= b.take(i).skip(1));
        law_strings_compare_lexicographically(a.skip(1), b.skip(1), i - 1);
        if i < a.len() {
            assert(a.skip(1)[i - 1] == a[i]);
        }
        if i < b.len() {
            assert(b.skip(1)[i - 1] == b[i]);
        }
    }
}

/// A `STRING` literal reads as its own text, whatever that text is.
pub proof fn law_string_literal_is_its_text(s: Seq<char>)
    ensures
        np_type_outcome("STRING"@, Json::Str(s)) == Outcome::Done(NpVal::Str(s)),
{
}

/// An `INT` literal written as the decimal text of a number reads as that
/// number; an `INT` literal that is not a string is an error.
pub proof fn law_int_literal_reads_its_number(n: i64, v: Json)
    ensures
        np_type_outcome("INT"@, Json::Str(int_decimal(n as int))) == Outcome::Done(NpVal::Num(n)),
        !(v is Str) ==> np_type_outcome("INT"@, v) == Outcome::<NpVal>::Fail(
            ErrorKind::ValueParseError,
        ),
{
    reveal_strlit("INT");
    reveal_strlit("STRING");
    assert("INT"@.len() != "STRING"@.len());
    law_decimal_roundtrip(n);
}

/// A number is written as its decimal text: a sign for negative numbers,
/// then one digit or more, which reads back as the number.
pub proof fn law_number_text_reads_back(n: i64)
    ensures
        display(NpVal::Num(n)) == int_decimal(n as int),
        text_i64(display(NpVal::Num(n))) == Some(n),
        display(NpVal::Num(n)).len() > 0,
        n >= 0 ==> all_digits(display(NpVal::Num(n))),
        n < 0 ==> display(NpVal::Num(n))[0] == '-' && all_digits(display(NpVal::Num(n)).skip(1)),
{
    law_decimal_roundtrip(n);
    if n >= 0 {
        lemma_nat_decimal_digits(n as nat);
    } else {
        lemma_nat_decimal_digits((-n) as nat);
        assert(display(NpVal::Num(n)).skip(1) =~= nat_decimal((-n) as nat));
    }
}


/// The tree of a page: `["PHP", {"PROGRAM": program}]`.
pub open spec fn page_tree(program: Seq<Json>) -> Seq<Json> {
    seq![Json::Str("PHP"@), Json::Object(seq![("PROGRAM"@, Json::Array(program))])]
}

/// The tree of a string literal: `["STRING", {"VALUE": text}]`.
pub open spec fn string_tree(text: Seq<char>) -> Seq<Json> {
    seq![Json::Str("STRING"@), Json::Object(seq![("VALUE"@, Json::Str(text))])]
}

/// The tree of a variable: `["ID", {"VALUE": name}]`.
pub open spec fn ident_tree(name: Seq<char>) -> Seq<Json> {
    seq![Json::Str("ID"@), Json::Object(seq![("VALUE"@, Json::Str(name))])]
}

/// The tree of a concatenation: `["CONCAT", {"0": first, "1": second}]`.
pub open spec fn concat_tree(first: Json, second: Json) -> Seq<Json> {
    seq![Json::Str("CONCAT"@), Json::Object(seq![("0"@, first), ("1"@, second)])]
}

/// Running a page runs every statement of its program, in order: it is
/// running the modules that the program builds into, and it panics where
/// building them does.
pub proof fn law_page_runs_its_program(program: Seq<Json>, st: State)
    ensures
        build_node(page_tree(program)) matches Some(page) && proc_node(page, st) == match build_seq(
            program,
        ) {
            Some(ns) => run_nodes(ns, st),
            None => None,
        },
{
    reveal_strlit("PHP");
    reveal_strlit("PROGRAM");
    lemma_build_node(page_tree(program));
}

/// A page whose program is `first` followed by `second` runs the statements
/// of `first` and then those of `second`.
pub proof fn law_page_runs_statements_in_turn(first: Seq<Json>, second: Seq<Json>, st: State)
    ensures
        build_node(page_tree(first + second)) matches Some(page) && proc_node(page, st) == match (
            build_seq(first),
            build_seq(second),
        ) {
            (Some(a), Some(b)) => match run_nodes(a, st) {
                Some(mid) => run_nodes(b, mid),
                None => None,
            },
            _ => None,
        },
{
    law_page_runs_its_program(first + second, st);
    law_build_sequence(first, second);
    if let (Some(a), Some(b)) = (build_seq(first), build_seq(second)) {
        law_run_sequence(a, b, st);
    }
}

/// A string literal, as an operand, has its text as its value.
pub proof fn law_string_literal_value(text: Seq<char>, scope: Map<Seq<char>, NpVal>)
    ensures
        first_value(build_one(Json::Array(string_tree(text))), scope) == Some(NpVal::Str(text)),
{
    reveal_strlit("STRING");
    reveal_strlit("VALUE");
    let code = string_tree(text);
    lemma_kind_names();
    lemma_build_node(code);
    let n = build_node(code).unwrap();
    assert(build_one(Json::Array(code)) == Some(seq![n]));
    assert(seq![n].drop_first() =~= Seq::<Node>::empty());
    assert(eval_nodes(seq![n], scope) == Some(seq![NpVal::Str(text)] + Seq::<NpVal>::empty()));
    assert(seq![NpVal::Str(text)] + Seq::<NpVal>::empty() =~= seq![NpVal::Str(text)]);
}

/// A variable, as an operand, has the value the variable holds; an operand
/// naming a variable that is not set has no value.
pub proof fn law_identifier_value(name: Seq<char>, scope: Map<Seq<char>, NpVal>)
    ensures
        first_value(build_one(Json::Array(ident_tree(name))), scope) == if scope.contains_key(
            name,
        ) {
            Some(scope[name])
        } else {
            None::<NpVal>
        },
{
    reveal_strlit("ID");
    reveal_strlit("VALUE");
    let code = ident_tree(name);
    lemma_kind_names();
    lemma_build_node(code);
    let n = build_node(code).unwrap();
    assert(build_one(Json::Array(code)) == Some(seq![n]));
    assert(seq![n].drop_first() =~= Seq::<Node>::empty());
    if scope.contains_key(name) {
        assert(eval_nodes(seq![n], scope) == Some(seq![scope[name]] + Seq::<NpVal>::empty()));
        assert(seq![scope[name]] + Seq::<NpVal>::empty() =~= seq![scope[name]]);
    } else {
        assert(eval_nodes(seq![n], scope) == Some(Seq::<NpVal>::empty()));
    }
}

/// The value of a concatenation is the text of operand `0` followed by the
/// text of operand `1`, whatever their types; it panics where an operand
/// has no value.
pub proof fn law_concat_joins_its_operands(first: Json, second: Json, scope: Map<Seq<char>, NpVal>)
    ensures
        build_node(concat_tree(first, second)) matches Some(n) && eval_node(n, scope) == match (
            first_value(build_one(first), scope),
            first_value(build_one(second), scope),
        ) {
            (Some(x), Some(y)) => Some(Some(NpVal::Str(display(x) + display(y)))),
            _ => None,
        },
{
    reveal_strlit("CONCAT");
    reveal_strlit("0");
    reveal_strlit("1");
    assert("0"@[0] != "1"@[0]);
    let m = seq![("0"@, first), ("1"@, second)];
    assert(lookup(m, "0"@) == Some(first));
    assert(m.drop_first() =~= seq![("1"@, second)]);
    assert(lookup(m.drop_first(), "1"@) == Some(second));
    assert(lookup(m, "1"@) == Some(second));
    lemma_kind_names();
    lemma_build_node(concat_tree(first, second));
}

/// Concatenating a variable that holds a number with a string literal
/// writes the number's decimal text, then the literal's text.
pub proof fn law_concat_number_then_text(
    name: Seq<char>,
    n: i64,
    text: Seq<char>,
    scope: Map<Seq<char>, NpVal>,
)
    requires
        scope.contains_key(name),
        scope[name] == NpVal::Num(n),
    ensures
        build_node(
            concat_tree(Json::Array(ident_tree(name)), Json::Array(string_tree(text))),
        ) matches Some(c) && eval_node(c, scope) == Some(
            Some(NpVal::Str(int_decimal(n as int) + unescape_newlines(text))),
        ),
{
    law_concat_joins_its_operands(Json::Array(ident_tree(name)), Json::Array(string_tree(text)), scope);
    law_identifier_value(name, scope);
    law_string_literal_value(text, scope);
}

/// The tree of a call of `function` on `args`:
/// `["FUNCTION_CALL", {"FUNCTION_ARGUMENTS": {"POSITIONAL_ARGS": args}, "ID": ["ID", {"VALUE": function}]}]`.
pub open spec fn call_tree(function: Seq<char>, args: Seq<Json>) -> Seq<Json> {
    seq![
        Json::Str("FUNCTION_CALL"@),
        Json::Object(
            seq![
                ("FUNCTION_ARGUMENTS"@, Json::Object(seq![("POSITIONAL_ARGS"@, Json::Array(args))])),
                ("ID"@, Json::Array(ident_tree(function))),
            ],
        ),
    ]
}

/// The tree of a call of `echo` on `args`.
pub open spec fn echo_tree(args: Seq<Json>) -> Seq<Json> {
    call_tree("echo"@, args)
}

/// `echo` writes the text of the first value among its arguments after
/// what was written before, and changes no variable; it panics where no
/// argument has a value or an argument does not build.
pub proof fn law_echo_writes_first_value(args: Seq<Json>, st: State)
    ensures
        build_node(echo_tree(args)) matches Some(n) && proc_node(n, st) == match build_seq(args) {
            Some(ms) => match eval_nodes(ms, st.scope) {
                Some(vs) => if vs.len() > 0 {
                    Some(State { buffer: st.buffer + display(vs[0]), scope: st.scope })
                } else {
                    None
                },
                None => None,
            },
            None => None,
        },
{
    reveal_strlit("FUNCTION_CALL");
    reveal_strlit("FUNCTION_ARGUMENTS");
    reveal_strlit("POSITIONAL_ARGS");
    reveal_strlit("ID");
    reveal_strlit("VALUE");
    reveal_strlit("echo");
    assert("FUNCTION_ARGUMENTS"@.len() != "ID"@.len());
    lemma_kind_names();
    let m = seq![
        ("FUNCTION_ARGUMENTS"@, Json::Object(seq![("POSITIONAL_ARGS"@, Json::Array(args))])),
        ("ID"@, Json::Array(ident_tree("echo"@))),
    ];
    assert(m.drop_first() =~= seq![("ID"@, Json::Array(ident_tree("echo"@)))]);
    assert(lookup(m.drop_first(), "ID"@) == Some(Json::Array(ident_tree("echo"@))));
    assert(lookup(m, "ID"@) == Some(Json::Array(ident_tree("echo"@))));
    lemma_build_node(echo_tree(args));
}

/// `echo` of a string literal writes the literal's text, with its `\n`
/// escapes turned into newlines.
pub proof fn law_echo_writes_text(text: Seq<char>, st: State)
    ensures
        build_node(echo_tree(seq![Json::Array(string_tree(text))])) matches Some(n) && proc_node(
            n,
            st,
        ) == Some(State { buffer: st.buffer + unescape_newlines(text), scope: st.scope }),
{
    let arg = Json::Array(string_tree(text));
    law_echo_writes_first_value(seq![arg], st);
    law_string_literal_value(text, st.scope);
    assert(seq![arg].drop_first() =~= Seq::<Json>::empty());
    let one = build_one(arg).unwrap();
    assert(seq![arg][0] == arg);
    assert(build_seq(Seq::<Json>::empty()) == Some(Seq::<Node>::empty()));
    assert(build_seq(seq![arg]) == Some(one + Seq::<Node>::empty()));
    assert(one + Seq::<Node>::empty() =~= one);
}

/// A page of two `echo` statements writes both texts, in order.
pub proof fn law_page_echoes_both_texts(first: Seq<char>, second: Seq<char>, st: State)
    ensures
        build_node(
            page_tree(
                seq![
                    Json::Array(echo_tree(seq![Json::Array(string_tree(first))])),
                    Json::Array(echo_tree(seq![Json::Array(string_tree(second))])),
                ],
            ),
        ) matches Some(page) && proc_node(page, st) == Some(
            State {
                buffer: st.buffer + unescape_newlines(first) + unescape_newlines(second),
                scope: st.scope,
            },
        ),
{
    let e1 = Json::Array(echo_tree(seq![Json::Array(string_tree(first))]));
    let e2 = Json::Array(echo_tree(seq![Json::Array(string_tree(second))]));
    law_echo_writes_text(first, st);
    let n1 = build_node(echo_tree(seq![Json::Array(string_tree(first))])).unwrap();
    let st1 = State { buffer: st.buffer + unescape_newlines(first), scope: st.scope };
    law_echo_writes_text(second, st1);
    let n2 = build_node(echo_tree(seq![Json::Array(string_tree(second))])).unwrap();
    law_page_runs_statements_in_turn(seq![e1], seq![e2], st);
    assert(seq![e1] + seq![e2] =~= seq![e1, e2]);
    assert(seq![e1].drop_first() =~= Seq::<Json>::empty());
    assert(seq![e2].drop_first() =~= Seq::<Json>::empty());
    assert(seq![e1][0] == e1);
    assert(seq![e2][0] == e2);
    assert(build_one(e1) == Some(seq![n1]));
    assert(build_one(e2) == Some(seq![n2]));
    assert(build_seq(Seq::<Json>::empty()) == Some(Seq::<Node>::empty()));
    assert(build_seq(seq![e1]) == Some(seq![n1] + Seq::<Node>::empty()));
    assert(build_seq(seq![e2]) == Some(seq![n2] + Seq::<Node>::empty()));
    assert(seq![n1] + Seq::<Node>::empty() =~= seq![n1]);
    assert(seq![n2] + Seq::<Node>::empty() =~= seq![n2]);
    assert(seq![n1].drop_first() =~= Seq::<Node>::empty());
    assert(seq![n2].drop_first() =~= Seq::<Node>::empty());
    assert(seq![n1][0] == n1);
    assert(seq![n2][0] == n2);
    assert(run_nodes(Seq::<Node>::empty(), st1) == Some(st1));
    assert(run_nodes(seq![n1], st) == Some(st1));
    let st2 = State { buffer: st1.buffer + unescape_newlines(second), scope: st.scope };
    assert(run_nodes(Seq::<Node>::empty(), st2) == Some(st2));
    assert(run_nodes(seq![n2], st1) == Some(st2));
    assert(st.buffer + unescape_newlines(first) + unescape_newlines(second) =~= st1.buffer
        + unescape_newlines(second));
}

/// The tree of an assignment: `["VARIABLE_ASSIGNMENT", {"ID": name,
/// "EXPRESSION": [kind, {"VALUE": text}]}]`.
pub open spec fn assign_tree(name: Seq<char>, kind: Seq<char>, text: Seq<char>) -> Seq<Json> {
    seq![
        Json::Str("VARIABLE_ASSIGNMENT"@),
        Json::Object(
            seq![
                ("ID"@, Json::Str(name)),
                (
                    "EXPRESSION"@,
                    Json::Array(
                        seq![Json::Str(kind), Json::Object(seq![("VALUE"@, Json::Str(text))])],
                    ),
                ),
            ],
        ),
    ]
}

/// Running an assignment of a string literal sets the variable to the
/// literal's text, and an assignment of an integer literal sets it to the
/// number; nothing is written.
pub proof fn law_assignment_sets_the_variable(name: Seq<char>, text: Seq<char>, n: i64, st: State)
    ensures
        build_node(assign_tree(name, "STRING"@, text)) matches Some(a) && proc_node(a, st) == Some(
            State { buffer: st.buffer, scope: st.scope.insert(name, NpVal::Str(text)) },
        ),
        build_node(assign_tree(name, "INT"@, int_decimal(n as int))) matches Some(b) && proc_node(
            b,
            st,
        ) == Some(State { buffer: st.buffer, scope: st.scope.insert(name, NpVal::Num(n)) }),
{
    reveal_strlit("VARIABLE_ASSIGNMENT");
    reveal_strlit("ID");
    reveal_strlit("EXPRESSION");
    reveal_strlit("VALUE");
    assert("ID"@.len() != "EXPRESSION"@.len());
    lemma_kind_names();
    law_string_literal_is_its_text(text);
    law_int_literal_reads_its_number(n, Json::Null);
    let t1 = assign_tree(name, "STRING"@, text);
    let t2 = assign_tree(name, "INT"@, int_decimal(n as int));
    let m1 = json_as_object(t1[1]).unwrap();
    let m2 = json_as_object(t2[1]).unwrap();
    assert(lookup(m1.drop_first(), "EXPRESSION"@) == Some(m1[1].1));
    assert(lookup(m2.drop_first(), "EXPRESSION"@) == Some(m2[1].1));
    assert(lookup(m1, "EXPRESSION"@) == Some(m1[1].1));
    assert(lookup(m2, "EXPRESSION"@) == Some(m2[1].1));
    lemma_build_node(t1);
    lemma_build_node(t2);
}

/// The name of a comparison in the tree.
pub open spec fn op_name(op: EqualityOp) -> Seq<char> {
    match op {
        EqualityOp::EqEq => "EQEQ"@,
        EqualityOp::NotEqEq => "NOT_EQEQ"@,
        EqualityOp::Gt => "GREATER"@,
        EqualityOp::Lt => "LESSER"@,
    }
}

/// A side of a condition that is an integer literal: `["INT", {"VALUE": text}]`.
pub open spec fn int_side(x: i64) -> Seq<Json> {
    seq![Json::Str("INT"@), Json::Object(seq![("VALUE"@, Json::Str(int_decimal(x as int)))])]
}

/// The tree of a conditional: `["CONDITIONAL", {"IF": ["IF", {"CODE": body,
/// "CONDITION": [op, a, b]}]}]`.
pub open spec fn conditional_tree(op: EqualityOp, a: Seq<Json>, b: Seq<Json>, body: Seq<Json>) -> Seq<Json> {
    seq![
        Json::Str("CONDITIONAL"@),
        Json::Object(
            seq![
                (
                    "IF"@,
                    Json::Array(
                        seq![
                            Json::Str("IF"@),
                            Json::Object(
                                seq![
                                    ("CODE"@, Json::Array(body)),
                                    (
                                        "CONDITION"@,
                                        Json::Array(
                                            seq![
                                                Json::Str(op_name(op)),
                                                Json::Array(a),
                                                Json::Array(b),
                                            ],
                                        ),
                                    ),
                                ],
                            ),
                        ],
                    ),
                ),
            ],
        ),
    ]
}

/// Each comparison is read back from its name.
proof fn lemma_op_names(op: EqualityOp)
    ensures
        equality_op_outcome(op_name(op)) == Outcome::Done(op),
{
    reveal_strlit("EQEQ");
    reveal_strlit("NOT_EQEQ");
    reveal_strlit("GREATER");
    reveal_strlit("LESSER");
    assert("EQEQ"@.len() == 4);
    assert("NOT_EQEQ"@.len() == 8);
    assert("GREATER"@.len() == 7);
    assert("LESSER"@.len() == 6);
}

/// A conditional between two integer literals runs its body exactly when
/// the comparison holds between the two numbers (as signed integers), and
/// otherwise leaves the output and the variables as they were.
pub proof fn law_conditional_on_numbers(op: EqualityOp, x: i64, y: i64, body: Seq<Json>, st: State)
    ensures
        build_node(conditional_tree(op, int_side(x), int_side(y), body)) matches Some(c) && proc_node(
            c,
            st,
        ) == if compare_values(op, NpVal::Num(x), NpVal::Num(y)) {
            match build_seq(body) {
                Some(ns) => run_nodes(ns, st),
                None => None,
            }
        } else {
            Some(st)
        },
{
    reveal_strlit("CONDITIONAL");
    reveal_strlit("IF");
    reveal_strlit("CODE");
    reveal_strlit("CONDITION");
    reveal_strlit("INT");
    reveal_strlit("ID");
    reveal_strlit("VALUE");
    assert("CODE"@.len() != "CONDITION"@.len());
    assert("INT"@.len() != "ID"@.len());
    assert("CONDITIONAL"@.len() == 11);
    lemma_kind_names();
    lemma_op_names(op);
    law_int_literal_reads_its_number(x, Json::Null);
    law_int_literal_reads_its_number(y, Json::Null);
    let t = conditional_tree(op, int_side(x), int_side(y), body);
    let inner = json_as_object(json_as_array(json_as_object(t[1]).unwrap()[0].1).unwrap()[1]).unwrap();
    assert(lookup(inner.drop_first(), "CONDITION"@) == Some(inner[1].1));
    assert(lookup(inner, "CONDITION"@) == Some(inner[1].1));
    lemma_build_node(t);
}

/// A call of any function but `echo` panics when it runs.
pub proof fn law_only_echo_exists(function: Seq<char>, args: Seq<Json>, st: State)
    requires
        function != "echo"@,
    ensures
        build_node(call_tree(function, args)) matches Some(n) && proc_node(n, st) is None,
{
    reveal_strlit("FUNCTION_CALL");
    reveal_strlit("FUNCTION_ARGUMENTS");
    reveal_strlit("POSITIONAL_ARGS");
    reveal_strlit("ID");
    reveal_strlit("VALUE");
    assert("FUNCTION_ARGUMENTS"@.len() != "ID"@.len());
    lemma_kind_names();
    let m = json_as_object(call_tree(function, args)[1]).unwrap();
    assert(lookup(m.drop_first(), "ID"@) == Some(m[1].1));
    lemma_build_node(call_tree(function, args));
}

/// The names of the kinds of node are distinct.
proof fn lemma_kind_names()
    ensures
        "STRING"@ != "PHP"@,
        "STRING"@ != "FUNCTION_CALL"@,
        "STRING"@ != "CONCAT"@,
        "STRING"@ != "VARIABLE_ASSIGNMENT"@,
        "STRING"@ != "CONDITIONAL"@,
        "STRING"@ != "ID"@,
        "ID"@ != "PHP"@,
        "ID"@ != "FUNCTION_CALL"@,
        "ID"@ != "CONCAT"@,
        "ID"@ != "VARIABLE_ASSIGNMENT"@,
        "ID"@ != "CONDITIONAL"@,
        "CONCAT"@ != "PHP"@,
        "CONCAT"@ != "FUNCTION_CALL"@,
        "FUNCTION_CALL"@ != "PHP"@,
        "VARIABLE_ASSIGNMENT"@ != "PHP"@,
        "VARIABLE_ASSIGNMENT"@ != "FUNCTION_CALL"@,
        "VARIABLE_ASSIGNMENT"@ != "CONCAT"@,
        "CONDITIONAL"@ != "PHP"@,
        "CONDITIONAL"@ != "FUNCTION_CALL"@,
        "CONDITIONAL"@ != "CONCAT"@,
        "CONDITIONAL"@ != "VARIABLE_ASSIGNMENT"@,
{
    reveal_strlit("STRING");
    reveal_strlit("PHP");
    reveal_strlit("FUNCTION_CALL");
    reveal_strlit("CONCAT");
    reveal_strlit("VARIABLE_ASSIGNMENT");
    reveal_strlit("CONDITIONAL");
    reveal_strlit("ID");
    assert("STRING"@[0] != "CONCAT"@[0]);
    assert("ID"@.len() == 2);
    assert("PHP"@.len() == 3);
    assert("FUNCTION_CALL"@.len() == 13);
    assert("CONCAT"@.len() == 6);
    assert("VARIABLE_ASSIGNMENT"@.len() == 19);
    assert("CONDITIONAL"@.len() == 11);
}

} // verus!
