use starlang::ast::{BinaryOpCode, Expr, ExprKind, Function, Statement, UnaryOpCode};
use starlang::exec_tree::resolution::programme_names_resolve;
use starlang::exec_tree::error::{ExecError, RuntimeFailureKind, StaticAnalysisError};
use starlang::exec_tree::main::{exec, has_main_function};
use starlang::lexer::Location;

fn at() -> Location {
    Location::new(1, 0, 0)
}

fn num(n: i32) -> Expr {
    Expr::new_number(at(), n, at())
}

fn chr(c: char) -> Expr {
    Expr::new_char(at(), c, at())
}

fn string(s: &str) -> Expr {
    Expr::new_string(at(), s, at())
}

fn var(name: &str) -> Expr {
    Expr::new_identifier(at(), name, at())
}

fn call(name: &str, args: Vec<Expr>) -> Expr {
    Expr::new_call(at(), name, args, at())
}

fn bin(l: Expr, op: BinaryOpCode, r: Expr) -> Expr {
    Expr::new_binary_op(at(), l, op, r, at())
}

fn un(op: UnaryOpCode, e: Expr) -> Expr {
    Expr::new_unary_op(at(), op, e, at())
}

fn sub(a: Expr, i: Expr) -> Expr {
    Expr::new_subscription(at(), a, i, at())
}

fn array(es: Vec<Expr>) -> Expr {
    Expr::new_array(at(), es, at())
}

fn declare(name: &str, e: Expr) -> Statement {
    Statement::Declare(name.to_string(), e)
}

fn func(name: &str, args: &[&str], stmts: Vec<Statement>) -> Function {
    Function::new(name, args.iter().map(|a| a.to_string()).collect(), stmts)
}

fn main_func(stmts: Vec<Statement>) -> Function {
    func("main", &["args"], stmts)
}

struct ProgResult {
    status_code: i32,
    output: Vec<u8>,
}

fn run_with_args_and_input(prog: Vec<Function>, args: Vec<String>, input: &[u8]) -> ProgResult {
    let mut output = Vec::new();
    let status_code = exec(&prog, args, input.to_vec(), &mut output).unwrap();
    ProgResult { status_code, output }
}

fn run(prog: Vec<Function>) -> ProgResult {
    run_with_args_and_input(prog, Vec::new(), &[])
}

fn run_return(e: Expr) -> i32 {
    run(vec![main_func(vec![Statement::Return(e)])]).status_code
}

fn putc(e: Expr) -> Statement {
    Statement::Expr(call("putc", vec![e]))
}

#[test]
fn tests_noop_programme() {
    let result = run(vec![main_func(vec![])]);
    assert_eq!(result.status_code, 0);
}

#[test]
fn declare_and_return() {
    let result = run(vec![main_func(vec![declare("a", num(42)), Statement::Return(var("a"))])]);
    assert_eq!(result.status_code, 42);
}

#[test]
fn declare_update_and_return() {
    let result = run(vec![main_func(vec![
        declare("a", num(42)),
        Statement::Assign(var("a"), bin(var("a"), BinaryOpCode::Add, num(1))),
        Statement::Return(var("a")),
    ])]);
    assert_eq!(result.status_code, 43);
}

#[test]
fn function_call() {
    let result = run(vec![
        func("f1", &[], vec![Statement::Return(num(43))]),
        main_func(vec![Statement::Return(call("f1", vec![]))]),
    ]);
    assert_eq!(result.status_code, 43);
}

#[test]
fn function_with_arguments_call() {
    let result = run(vec![
        func("f1", &["a"], vec![Statement::Return(bin(var("a"), BinaryOpCode::Add, num(1)))]),
        main_func(vec![Statement::Return(bin(
            call("f1", vec![num(40)]),
            BinaryOpCode::Add,
            num(1),
        ))]),
    ]);
    assert_eq!(result.status_code, 42);
}

#[test]
fn array_literal_and_subscription() {
    let result = run(vec![main_func(vec![
        declare("a", array(vec![num(42)])),
        Statement::Return(sub(var("a"), num(0))),
    ])]);
    assert_eq!(result.status_code, 42);
}

#[test]
fn assigning_to_a_subscript() {
    let result = run(vec![main_func(vec![
        declare("a", array(vec![num(42)])),
        Statement::Assign(
            sub(var("a"), num(0)),
            bin(sub(var("a"), num(0)), BinaryOpCode::Mul, num(2)),
        ),
        Statement::Return(sub(var("a"), num(0))),
    ])]);
    assert_eq!(result.status_code, 84);
}

#[test]
fn access_cmd_line_args() {
    let result = run_with_args_and_input(
        vec![main_func(vec![Statement::Return(sub(sub(var("args"), num(0)), num(0)))])],
        vec!["a".to_string()],
        &[],
    );
    assert_eq!(result.status_code, b'a' as i32)
}

#[test]
fn call_new_platform_func() {
    let result = run(vec![main_func(vec![
        declare("a", call("new", vec![num(3)])),
        Statement::Assign(sub(var("a"), num(2)), num(24)),
        Statement::Return(bin(sub(var("a"), num(2)), BinaryOpCode::Mul, num(2))),
    ])]);
    assert_eq!(result.status_code, 48);
}

#[test]
fn call_getc_function_to_get_input() {
    let result = run_with_args_and_input(
        vec![main_func(vec![Statement::Return(call("getc", vec![]))])],
        Vec::new(),
        b"a",
    );
    assert_eq!(result.status_code, b'a' as i32);
}

#[test]
fn call_putc_to_produce_output() {
    let result = run(vec![main_func(vec![putc(chr('a'))])]);
    assert_eq!(result.output, b"a");
}

#[test]
fn comparisions() {
    let cases = [
        (1, BinaryOpCode::LessThan, 3),
        (4, BinaryOpCode::LessThan, 3),
        (4, BinaryOpCode::MoreThan, 3),
        (4, BinaryOpCode::MoreThan, 6),
        (4, BinaryOpCode::LessThanOrEqual, 6),
        (6, BinaryOpCode::LessThanOrEqual, 6),
        (8, BinaryOpCode::LessThanOrEqual, 6),
        (1, BinaryOpCode::MoreThanOrEqual, 0),
        (1, BinaryOpCode::MoreThanOrEqual, 1),
        (1, BinaryOpCode::MoreThanOrEqual, 2),
        (10, BinaryOpCode::Equal, 10),
        (10, BinaryOpCode::Equal, 11),
        (10, BinaryOpCode::NotEqual, 10),
        (10, BinaryOpCode::NotEqual, 11),
    ];
    let stmts = cases.iter().map(|&(l, op, r)| putc(bin(num(l), op, num(r)))).collect();
    let result = run(vec![main_func(stmts)]);
    assert_eq!(result.output, &[1, 0, 1, 0, 1, 1, 0, 1, 1, 0, 1, 0, 0, 1]);
}

#[test]
fn if_statement() {
    let result = run(vec![main_func(vec![
        Statement::If(bin(num(1), BinaryOpCode::LessThan, num(4)), vec![putc(chr('a'))]),
        Statement::If(bin(num(1), BinaryOpCode::MoreThan, num(4)), vec![putc(chr('b'))]),
    ])]);
    assert_eq!(result.output, b"a");
}

#[test]
fn if_statement_early_return() {
    let result = run(vec![main_func(vec![
        Statement::If(
            bin(num(10), BinaryOpCode::MoreThan, num(4)),
            vec![Statement::Return(num(10))],
        ),
        Statement::Return(num(0)),
    ])]);
    assert_eq!(result.status_code, 10);
}

fn increment(name: &str) -> Statement {
    Statement::Assign(var(name), bin(var(name), BinaryOpCode::Add, num(1)))
}

#[test]
fn while_statement() {
    let result = run(vec![main_func(vec![
        declare("i", num(0)),
        Statement::While(
            bin(var("i"), BinaryOpCode::LessThan, num(5)),
            vec![putc(bin(chr('a'), BinaryOpCode::Add, var("i"))), increment("i")],
        ),
        Statement::Return(num(0)),
    ])]);
    assert_eq!(result.output, b"abcde");
    assert_eq!(result.status_code, 0);
}

#[test]
fn while_statement_early_return() {
    let result = run(vec![main_func(vec![
        declare("i", num(0)),
        Statement::While(
            bin(var("i"), BinaryOpCode::LessThan, num(10)),
            vec![
                putc(bin(chr('a'), BinaryOpCode::Add, var("i"))),
                increment("i"),
                Statement::If(
                    bin(var("i"), BinaryOpCode::MoreThan, num(5)),
                    vec![Statement::Return(var("i"))],
                ),
            ],
        ),
        Statement::Return(num(0)),
    ])]);
    assert_eq!(result.output, b"abcdef");
    assert_eq!(result.status_code, 6);
}

#[test]
fn string_literal_definition() {
    let result = run(vec![main_func(vec![
        declare("i", num(0)),
        declare("s", string("hello")),
        Statement::While(
            bin(var("i"), BinaryOpCode::LessThan, call("len", vec![var("s")])),
            vec![putc(sub(var("s"), var("i"))), increment("i")],
        ),
        Statement::Return(num(0)),
    ])]);
    assert_eq!(result.output, b"hello");
}

#[test]
fn string_literal_mutability_and_independance() {
    let result = run(vec![main_func(vec![
        declare("i", num(0)),
        Statement::While(
            bin(var("i"), BinaryOpCode::LessThan, num(3)),
            vec![
                declare("s", string("abc")),
                declare("j", num(0)),
                Statement::Assign(sub(var("s"), var("i")), chr('x')),
                Statement::While(
                    bin(var("j"), BinaryOpCode::LessThan, call("len", vec![var("s")])),
                    vec![putc(sub(var("s"), var("j"))), increment("j")],
                ),
                increment("i"),
            ],
        ),
        Statement::Return(num(0)),
    ])]);
    assert_eq!(result.output, b"xbcaxcabx");
}

#[test]
fn reports_static_analysis_failure_for_call_to_unknown_function() {
    let start = Location::new(3, 4, 23);
    let end = Location::new(3, 13, 32);
    let prog = vec![func(
        "main",
        &[],
        vec![Statement::Expr(Expr::new_call(start, "unk", vec![num(1), num(2)], end))],
    )];
    let mut output = Vec::new();
    let err = exec(&prog, Vec::new(), Vec::new(), &mut output).unwrap_err();
    assert_eq!(
        err,
        ExecError::StaticAnalysisFailed(vec![StaticAnalysisError::CallUnknownFunction(
            "unk".to_string(),
            start,
            end,
        )])
    );
}

#[test]
fn pure_exec_tree_noop_programme() {
    let result = run(vec![main_func(vec![])]);
    assert_eq!(result.status_code, 0);
}

#[test]
fn main_return_status_code() {
    assert_eq!(run_return(num(3)), 3);
}

#[test]
fn return_expression() {
    assert_eq!(run_return(bin(num(2), BinaryOpCode::Add, num(3))), 5);
}

#[test]
fn return_more_maths() {
    let e = bin(
        bin(bin(num(2), BinaryOpCode::Mul, num(5)), BinaryOpCode::Sub, num(1)),
        BinaryOpCode::Mod,
        num(5),
    );
    assert_eq!(run_return(e), 4);
}

#[test]
fn return_division() {
    assert_eq!(run_return(bin(num(5), BinaryOpCode::Div, num(2))), 2);
}

#[test]
fn return_bit_manipulation() {
    // 1 << 2 | 64 >> 3 | 255 & 64 | 255 - 32 ^ 255
    let e = bin(
        bin(
            bin(
                bin(num(1), BinaryOpCode::LeftShift, num(2)),
                BinaryOpCode::BitOr,
                bin(num(64), BinaryOpCode::RightShift, num(3)),
            ),
            BinaryOpCode::BitOr,
            bin(num(255), BinaryOpCode::BitAnd, num(64)),
        ),
        BinaryOpCode::BitOr,
        bin(bin(num(255), BinaryOpCode::Sub, num(32)), BinaryOpCode::BitXor, num(255)),
    );
    assert_eq!(run_return(e), 0x6c);
}

#[test]
fn declare_and_reurn() {
    let result = run(vec![main_func(vec![declare("a", num(42)), Statement::Return(var("a"))])]);
    assert_eq!(result.status_code, 42);
}

fn bool_op_programme(e: Expr) -> ProgResult {
    run(vec![
        func("f1", &["rv"], vec![putc(chr('x')), Statement::Return(var("rv"))]),
        main_func(vec![Statement::Return(e)]),
    ])
}

fn f1(n: i32) -> Expr {
    call("f1", vec![num(n)])
}

#[test]
fn bool_or_evaluates_both_sides_if_false() {
    let r = bool_op_programme(bin(f1(0), BinaryOpCode::BoolOr, f1(0)));
    assert_eq!((r.status_code, r.output), (0, b"xx".to_vec()));
}

#[test]
fn bool_or_evaluates_both_sides_if_first_false() {
    let r = bool_op_programme(bin(f1(0), BinaryOpCode::BoolOr, f1(8)));
    assert_eq!((r.status_code, r.output), (1, b"xx".to_vec()));
}

#[test]
fn bool_or_short_circuits_if_left_true() {
    let r = bool_op_programme(bin(f1(3), BinaryOpCode::BoolOr, f1(0)));
    assert_eq!((r.status_code, r.output), (1, b"x".to_vec()));
}

#[test]
fn bool_or_is_not_xor() {
    let r = bool_op_programme(bin(f1(3), BinaryOpCode::BoolOr, f1(5)));
    assert_eq!((r.status_code, r.output), (1, b"x".to_vec()));
}

#[test]
fn bool_and_evaluates_both_sides_if_true() {
    let r = bool_op_programme(bin(f1(1), BinaryOpCode::BoolAnd, f1(1)));
    assert_eq!((r.status_code, r.output), (1, b"xx".to_vec()));
}

#[test]
fn bool_and_evaluates_both_sides_if_first_true() {
    let r = bool_op_programme(bin(f1(1), BinaryOpCode::BoolAnd, f1(0)));
    assert_eq!((r.status_code, r.output), (0, b"xx".to_vec()));
}

#[test]
fn bool_and_short_circuits_if_left_false() {
    let r = bool_op_programme(bin(f1(0), BinaryOpCode::BoolAnd, f1(3)));
    assert_eq!((r.status_code, r.output), (0, b"x".to_vec()));
}

#[test]
fn bool_and_is_not_nand() {
    let r = bool_op_programme(bin(f1(0), BinaryOpCode::BoolAnd, f1(0)));
    assert_eq!((r.status_code, r.output), (0, b"x".to_vec()));
}

#[test]
fn len_for_array_returns_array_length() {
    assert_eq!(run_return(call("len", vec![call("new", vec![num(6)])])), 6);
}

#[test]
fn len_for_int_returns_minus_1() {
    assert_eq!(run_return(call("len", vec![num(6)])), -1);
}

#[test]
fn bool_not_converts_positive_to_0() {
    assert_eq!(run_return(un(UnaryOpCode::BoolNot, num(5))), 0);
}

#[test]
fn bool_not_converts_0_to_1() {
    assert_eq!(run_return(un(UnaryOpCode::BoolNot, num(0))), 1);
}

#[test]
fn bit_not() {
    assert_eq!(run_return(un(UnaryOpCode::BitNot, num(345))), -346);
}

#[test]
fn unary_neg() {
    let e = un(UnaryOpCode::Neg, bin(num(2), BinaryOpCode::Add, num(3)));
    assert_eq!(run_return(e), -5);
}

#[test]
fn new_array_elements_are_zero() {
    let result = run(vec![main_func(vec![
        declare("a", call("new", vec![num(4)])),
        declare("i", num(0)),
        Statement::While(
            bin(var("i"), BinaryOpCode::LessThan, num(4)),
            vec![putc(sub(var("a"), var("i"))), increment("i")],
        ),
    ])]);
    assert_eq!(result.output, &[0, 0, 0, 0]);
}

#[test]
fn arrays_alias_through_assignment() {
    let result = run(vec![main_func(vec![
        declare("a", call("new", vec![num(1)])),
        declare("b", var("a")),
        Statement::Assign(sub(var("b"), num(0)), num(9)),
        Statement::Return(sub(var("a"), num(0))),
    ])]);
    assert_eq!(result.status_code, 9);
}

#[test]
fn arrays_alias_through_arguments() {
    let result = run(vec![
        func("set", &["arr"], vec![Statement::Assign(sub(var("arr"), num(1)), num(7))]),
        main_func(vec![
            declare("a", array(vec![num(1), num(2)])),
            Statement::Expr(call("set", vec![var("a")])),
            Statement::Return(sub(var("a"), num(1))),
        ]),
    ]);
    assert_eq!(result.status_code, 7);
}

#[test]
fn exit_ends_the_run_from_a_nested_call() {
    let result = run(vec![
        func("deep", &[], vec![Statement::Expr(call("exit", vec![num(3)])), putc(chr('n'))]),
        func("middle", &[], vec![Statement::Expr(call("deep", vec![])), putc(chr('m'))]),
        main_func(vec![
            putc(chr('s')),
            Statement::Expr(call("middle", vec![])),
            Statement::Return(num(9)),
        ]),
    ]);
    assert_eq!(result.status_code, 3);
    assert_eq!(result.output, b"s");
}

#[test]
fn recursion_and_forward_references() {
    // main calls even, defined after it; even and odd call each other.
    let result = run(vec![
        main_func(vec![Statement::Return(call("even", vec![num(10)]))]),
        func(
            "even",
            &["n"],
            vec![
                Statement::If(
                    bin(var("n"), BinaryOpCode::Equal, num(0)),
                    vec![Statement::Return(num(1))],
                ),
                Statement::Return(call("odd", vec![bin(var("n"), BinaryOpCode::Sub, num(1))])),
            ],
        ),
        func(
            "odd",
            &["n"],
            vec![
                Statement::If(
                    bin(var("n"), BinaryOpCode::Equal, num(0)),
                    vec![Statement::Return(num(0))],
                ),
                Statement::Return(call("even", vec![bin(var("n"), BinaryOpCode::Sub, num(1))])),
            ],
        ),
    ]);
    assert_eq!(result.status_code, 1);
}

#[test]
fn all_unknown_calls_are_reported_together() {
    let s1 = Location::new(2, 4, 10);
    let e1 = Location::new(2, 9, 15);
    let s2 = Location::new(3, 4, 20);
    let e2 = Location::new(3, 9, 25);
    let prog = vec![
        func("f", &[], vec![Statement::Expr(Expr::new_call(s1, "foo", vec![], e1))]),
        main_func(vec![Statement::Return(Expr::new_call(s2, "bar", vec![], e2))]),
    ];
    let mut output = Vec::new();
    let err = exec(&prog, Vec::new(), Vec::new(), &mut output).unwrap_err();
    assert_eq!(
        err,
        ExecError::StaticAnalysisFailed(vec![
            StaticAnalysisError::CallUnknownFunction("foo".to_string(), s1, e1),
            StaticAnalysisError::CallUnknownFunction("bar".to_string(), s2, e2),
        ])
    );
}

#[test]
fn program_without_main_is_detected() {
    let without = vec![func("f", &[], vec![putc(chr('a'))])];
    let with = vec![func("f", &[], vec![]), main_func(vec![])];
    assert!(!has_main_function(&without));
    assert!(has_main_function(&with));
}

#[test]
fn inner_declaration_shadows_until_block_ends() {
    let result = run(vec![main_func(vec![
        declare("x", num(1)),
        Statement::If(num(1), vec![declare("x", num(2)), putc(var("x"))]),
        Statement::Return(var("x")),
    ])]);
    assert_eq!(result.output, &[2]);
    assert_eq!(result.status_code, 1);
}

#[test]
fn unknown_call_inside_unknown_call_arguments_reported_per_site() {
    let s1 = Location::new(2, 8, 20);
    let e1 = Location::new(2, 13, 25);
    let s2 = Location::new(2, 4, 16);
    let e2 = Location::new(2, 14, 26);
    let inner = Expr::new_call(s1, "g", vec![var("args")], e1);
    let prog = vec![main_func(vec![Statement::Expr(Expr::new_call(s2, "h", vec![inner], e2))])];
    let mut output = Vec::new();
    let err = exec(&prog, Vec::new(), Vec::new(), &mut output).unwrap_err();
    assert_eq!(
        err,
        ExecError::StaticAnalysisFailed(vec![
            StaticAnalysisError::CallUnknownFunction("g".to_string(), s1, e1),
            StaticAnalysisError::CallUnknownFunction("h".to_string(), s2, e2),
        ])
    );
    assert!(output.is_empty());
}

#[test]
fn array_used_as_integer_fails_with_trace() {
    let inner_s = Location::new(2, 11, 20);
    let inner_e = Location::new(2, 16, 25);
    let call_s = Location::new(5, 11, 50);
    let call_e = Location::new(5, 14, 53);
    let prog = vec![
        func(
            "f",
            &[],
            vec![Statement::Return(bin(
                Expr::new_array(inner_s, vec![], inner_e),
                BinaryOpCode::Add,
                num(1),
            ))],
        ),
        main_func(vec![Statement::Return(Expr::new_call(call_s, "f", vec![], call_e))]),
    ];
    let mut output = Vec::new();
    let err = exec(&prog, Vec::new(), Vec::new(), &mut output).unwrap_err();
    let inner = starlang::exec_tree::base::CodeSite { start: inner_s, end: inner_e };
    let outer = starlang::exec_tree::base::CodeSite { start: call_s, end: call_e };
    assert_eq!(
        err,
        ExecError::RuntimeFailure(RuntimeFailureKind::ExpectedIntGotArray, vec![inner, outer])
    );
}

#[test]
fn integer_used_as_array_fails() {
    let result = exec(
        &vec![main_func(vec![Statement::Return(sub(num(1), num(0)))])],
        Vec::new(),
        Vec::new(),
        &mut Vec::new(),
    );
    assert!(matches!(
        result,
        Err(ExecError::RuntimeFailure(RuntimeFailureKind::ExpectedArrayGotInt, _))
    ));
}

#[test]
fn index_out_of_bounds_fails() {
    let result = exec(
        &vec![main_func(vec![Statement::Return(sub(array(vec![num(1)]), num(1)))])],
        Vec::new(),
        Vec::new(),
        &mut Vec::new(),
    );
    assert!(matches!(
        result,
        Err(ExecError::RuntimeFailure(RuntimeFailureKind::IndexOutOfBounds, _))
    ));
}

#[test]
fn division_by_zero_fails() {
    let result = exec(
        &vec![main_func(vec![Statement::Return(bin(num(1), BinaryOpCode::Div, num(0)))])],
        Vec::new(),
        Vec::new(),
        &mut Vec::new(),
    );
    assert!(matches!(
        result,
        Err(ExecError::RuntimeFailure(RuntimeFailureKind::InvalidDivision, _))
    ));
}

#[test]
fn missing_and_negative_new_arguments_fail() {
    let missing = exec(
        &vec![main_func(vec![Statement::Return(call("new", vec![]))])],
        Vec::new(),
        Vec::new(),
        &mut Vec::new(),
    );
    assert!(matches!(
        missing,
        Err(ExecError::RuntimeFailure(RuntimeFailureKind::MissingArgument, _))
    ));
    let negative = exec(
        &vec![main_func(vec![Statement::Return(call("new", vec![num(-1)]))])],
        Vec::new(),
        Vec::new(),
        &mut Vec::new(),
    );
    assert!(matches!(
        negative,
        Err(ExecError::RuntimeFailure(RuntimeFailureKind::NegativeArrayLength, _))
    ));
}

#[test]
fn main_returning_array_fails() {
    let result = exec(
        &vec![main_func(vec![Statement::Return(array(vec![]))])],
        Vec::new(),
        Vec::new(),
        &mut Vec::new(),
    );
    assert_eq!(
        result,
        Err(ExecError::RuntimeFailure(RuntimeFailureKind::ExpectedIntGotArray, vec![]))
    );
}

#[test]
fn getc_returns_minus_1_at_end_of_input() {
    let result = run_with_args_and_input(
        vec![main_func(vec![
            declare("a", call("getc", vec![])),
            Statement::Return(bin(var("a"), BinaryOpCode::Add, call("getc", vec![]))),
        ])],
        Vec::new(),
        b"z",
    );
    assert_eq!(result.status_code, b'z' as i32 - 1);
}

#[test]
fn arithmetic_wraps() {
    let e = bin(num(i32::MAX), BinaryOpCode::Add, num(1));
    assert_eq!(run_return(e), i32::MIN);
}

#[test]
fn resolution_check_accepts_well_scoped_programme() {
    let prog = vec![
        func("f", &["a"], vec![Statement::Return(var("a"))]),
        main_func(vec![
            declare("x", num(1)),
            Statement::While(var("x"), vec![declare("y", var("x")), Statement::Assign(var("x"), num(0))]),
            Statement::Assign(sub(var("args"), num(0)), var("x")),
            Statement::Return(call("f", vec![var("x")])),
        ]),
    ];
    assert!(programme_names_resolve(&prog));
}

#[test]
fn resolution_check_rejects_undeclared_variable() {
    let prog = vec![main_func(vec![Statement::Return(var("nope"))])];
    assert!(!programme_names_resolve(&prog));
}

#[test]
fn resolution_check_rejects_name_used_after_its_block() {
    let prog = vec![main_func(vec![
        Statement::If(num(1), vec![declare("x", num(1))]),
        Statement::Return(var("x")),
    ])];
    assert!(!programme_names_resolve(&prog));
}

#[test]
fn resolution_check_rejects_bad_target_and_error_node() {
    let bad_target = vec![main_func(vec![Statement::Assign(num(1), num(2))])];
    assert!(!programme_names_resolve(&bad_target));
    let error_node = vec![main_func(vec![Statement::Return(Expr {
        kind: ExprKind::Error,
        start: at(),
        end: at(),
    })])];
    assert!(!programme_names_resolve(&error_node));
}
