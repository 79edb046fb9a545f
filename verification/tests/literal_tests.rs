use hvmgen::error::CompileError;
use hvmgen::expr::{BinOp, Expr, Ident};
use hvmgen::folding::{fold_binary, signed_decimal_text};
use hvmgen::literal::{emit_bool, emit_int, emit_str, encode_int};
use hvmgen::naming::{to_ascii_upper, ToPascalCase};
use hvmgen::symbols::SymbolTable;
use hvmgen::text::decimal_text;

fn s(text: &str) -> Expr {
    Expr::Str(text.to_string())
}

fn kept(lhs: Expr, op: BinOp, rhs: Expr) -> Expr {
    Expr::Binary { lhs: Box::new(lhs), op, rhs: Box::new(rhs) }
}

#[test]
fn encode_int_keeps_non_negative_numbers() {
    assert_eq!(encode_int(0), 0);
    assert_eq!(encode_int(5), 5);
    assert_eq!(encode_int(i32::MAX), 2147483647);
}

#[test]
fn encode_int_moves_negative_numbers_above() {
    assert_eq!(encode_int(-1), 2147483648);
    assert_eq!(encode_int(-5), 2147483652);
    assert_eq!(encode_int(-2147483647), 4294967294);
    assert_eq!(encode_int(i32::MIN), 4294967295);
}

#[test]
fn encoding_round_trips_through_the_literal() {
    for v in [0, 1, 9, 10, 99, 100, 12345, i32::MAX] {
        let literal = emit_int(v);
        let payload = &literal["(STD.int ".len()..literal.len() - 1];
        assert_eq!(payload.parse::<u32>().unwrap(), v as u32);
    }
    for v in [-1, -10, -12345, i32::MIN] {
        let literal = emit_int(v);
        let payload = &literal["(STD.int ".len()..literal.len() - 1];
        assert_eq!(payload.parse::<u64>().unwrap(), (2147483647u64 + (-(v as i64)) as u64) % (1u64 << 32));
    }
}

#[test]
fn emit_writes_the_constructor_calls() {
    assert_eq!(emit_int(42), "(STD.int 42)");
    assert_eq!(emit_int(-42), "(STD.int 2147483689)");
    assert_eq!(emit_bool(true), "(STD.bool 1)");
    assert_eq!(emit_bool(false), "(STD.bool 0)");
}

#[test]
fn emit_str_quotes_and_escapes() {
    assert_eq!(emit_str("plain"), "\"plain\"");
    assert_eq!(emit_str(""), "\"\"");
    assert_eq!(emit_str("a\"b\\c\n\t"), "\"a\\\"b\\\\c\\n\\t\"");
}

#[test]
fn decimal_text_writes_numerals() {
    assert_eq!(decimal_text(0), "0");
    assert_eq!(decimal_text(7), "7");
    assert_eq!(decimal_text(10), "10");
    assert_eq!(decimal_text(4294967295), "4294967295");
    assert_eq!(signed_decimal_text(0), "0");
    assert_eq!(signed_decimal_text(-15), "-15");
    assert_eq!(signed_decimal_text(i32::MIN), "-2147483648");
    assert_eq!(signed_decimal_text(i32::MAX), "2147483647");
}

#[test]
fn pascal_case_of_identifiers() {
    assert_eq!(ToPascalCase("fib".to_string()), "Fib");
    assert_eq!(ToPascalCase("is_even".to_string()), "IsEven");
    assert_eq!(ToPascalCase("a_b_c".to_string()), "ABC");
    assert_eq!(ToPascalCase("".to_string()), "");
    assert_eq!(ToPascalCase("_x".to_string()), "_x");
    assert_eq!(ToPascalCase("a__b".to_string()), "A_b");
    assert_eq!(ToPascalCase("tail_".to_string()), "Tail");
    assert_eq!(ToPascalCase("Already".to_string()), "Already");
    assert_eq!(ToPascalCase("x1_2y".to_string()), "X12y");
    assert_eq!(ToPascalCase("\u{e9}t\u{e9}_\u{e9}".to_string()), "\u{e9}t\u{e9}\u{e9}");
    assert_eq!(to_ascii_upper('q'), 'Q');
    assert_eq!(to_ascii_upper('Q'), 'Q');
    assert_eq!(to_ascii_upper('_'), '_');
}

#[test]
fn symbol_table_resolves_callees_builtins_first() {
    let mut table = SymbolTable::new();
    assert_eq!(table.resolve_callee("print"), Ok("STD.print".to_string()));
    assert_eq!(table.resolve_callee("first"), Ok("STD.first".to_string()));
    assert_eq!(table.resolve_callee("second"), Ok("STD.second".to_string()));
    assert_eq!(table.resolve_callee("f"), Err(CompileError::UnboundIdentifier("f".to_string())));
    table.define("f", "F");
    table.define("print", "Mine");
    assert_eq!(table.resolve_callee("f"), Ok("F".to_string()));
    assert_eq!(table.resolve_callee("print"), Ok("STD.print".to_string()));
}

#[test]
fn symbol_table_resolves_variables_from_user_bindings_only() {
    let mut table = SymbolTable::new();
    assert_eq!(table.resolve_variable("print"), Err(CompileError::UnboundIdentifier("print".to_string())));
    assert_eq!(table.resolve_variable("x"), Err(CompileError::UnboundIdentifier("x".to_string())));
    table.define("x", "x");
    table.define("print", "Mine");
    assert_eq!(table.resolve_variable("x"), Ok("x".to_string()));
    assert_eq!(table.resolve_variable("print"), Ok("Mine".to_string()));
}

#[test]
fn symbol_table_last_write_wins() {
    let mut table = SymbolTable::new();
    table.define("x", "one");
    table.define("x", "two");
    assert_eq!(table.resolve_variable("x"), Ok("two".to_string()));
}

#[test]
fn error_messages_name_the_stage() {
    assert_eq!(CompileError::ReadError.message(), "read: the source file could not be read");
    assert_eq!(CompileError::SyntaxError.message(), "parse: the syntax tree is malformed");
    assert_eq!(
        CompileError::UnboundIdentifier("x".to_string()).message(),
        "lower: unbound identifier x"
    );
    assert_eq!(
        CompileError::UnsupportedTerminal.message(),
        "lower: the program ends in an unsupported expression"
    );
}

#[test]
fn operators_have_names_and_symbols() {
    let all = [
        ("Add", BinOp::Add, "STD.add"),
        ("Sub", BinOp::Sub, "STD.sub"),
        ("Mul", BinOp::Mul, "STD.mul"),
        ("Div", BinOp::Div, "STD.div"),
        ("Rem", BinOp::Rem, "STD.rem"),
        ("Eq", BinOp::Eq, "STD.eq"),
        ("Neq", BinOp::Neq, "STD.neq"),
        ("Lt", BinOp::Lt, "STD.lt"),
        ("Gt", BinOp::Gt, "STD.gt"),
        ("Lte", BinOp::Lte, "STD.lte"),
        ("Gte", BinOp::Gte, "STD.gte"),
        ("And", BinOp::And, "STD.and"),
        ("Or", BinOp::Or, "STD.or"),
    ];
    for (name, op, symbol) in all {
        assert_eq!(BinOp::from_name(name), Some(op));
        assert_eq!(op.symbol(), symbol);
    }
    assert_eq!(BinOp::from_name("add"), None);
    assert_eq!(BinOp::from_name(""), None);
}

#[test]
fn ident_holds_its_text() {
    assert_eq!(Ident::from("name".to_string()).val(), "name");
}

#[test]
fn fold_integer_arithmetic() {
    assert_eq!(fold_binary(Expr::Int(1), BinOp::Add, Expr::Int(2)), Expr::Int(3));
    assert_eq!(fold_binary(Expr::Int(1), BinOp::Sub, Expr::Int(2)), Expr::Int(-1));
    assert_eq!(fold_binary(Expr::Int(-4), BinOp::Mul, Expr::Int(5)), Expr::Int(-20));
    assert_eq!(fold_binary(Expr::Int(7), BinOp::Div, Expr::Int(2)), Expr::Int(3));
    assert_eq!(fold_binary(Expr::Int(-7), BinOp::Div, Expr::Int(2)), Expr::Int(-3));
    assert_eq!(fold_binary(Expr::Int(7), BinOp::Div, Expr::Int(-2)), Expr::Int(-3));
    assert_eq!(fold_binary(Expr::Int(-7), BinOp::Div, Expr::Int(-2)), Expr::Int(3));
    assert_eq!(fold_binary(Expr::Int(7), BinOp::Rem, Expr::Int(2)), Expr::Int(1));
    assert_eq!(fold_binary(Expr::Int(-7), BinOp::Rem, Expr::Int(2)), Expr::Int(-1));
    assert_eq!(fold_binary(Expr::Int(7), BinOp::Rem, Expr::Int(-2)), Expr::Int(1));
    assert_eq!(fold_binary(Expr::Int(-7), BinOp::Rem, Expr::Int(-2)), Expr::Int(-1));
    assert_eq!(fold_binary(Expr::Int(0), BinOp::Div, Expr::Int(-2)), Expr::Int(0));
    assert_eq!(fold_binary(Expr::Int(6), BinOp::And, Expr::Int(3)), Expr::Int(2));
    assert_eq!(fold_binary(Expr::Int(6), BinOp::Or, Expr::Int(3)), Expr::Int(7));
    assert_eq!(fold_binary(Expr::Int(-1), BinOp::And, Expr::Int(5)), Expr::Int(5));
}

#[test]
fn fold_leaves_undefined_arithmetic_for_the_runtime() {
    assert_eq!(
        fold_binary(Expr::Int(i32::MAX), BinOp::Add, Expr::Int(1)),
        kept(Expr::Int(i32::MAX), BinOp::Add, Expr::Int(1))
    );
    assert_eq!(
        fold_binary(Expr::Int(i32::MIN), BinOp::Sub, Expr::Int(1)),
        kept(Expr::Int(i32::MIN), BinOp::Sub, Expr::Int(1))
    );
    assert_eq!(
        fold_binary(Expr::Int(65536), BinOp::Mul, Expr::Int(65536)),
        kept(Expr::Int(65536), BinOp::Mul, Expr::Int(65536))
    );
    assert_eq!(
        fold_binary(Expr::Int(1), BinOp::Div, Expr::Int(0)),
        kept(Expr::Int(1), BinOp::Div, Expr::Int(0))
    );
    assert_eq!(
        fold_binary(Expr::Int(1), BinOp::Rem, Expr::Int(0)),
        kept(Expr::Int(1), BinOp::Rem, Expr::Int(0))
    );
    assert_eq!(
        fold_binary(Expr::Int(i32::MIN), BinOp::Div, Expr::Int(-1)),
        kept(Expr::Int(i32::MIN), BinOp::Div, Expr::Int(-1))
    );
    assert_eq!(
        fold_binary(Expr::Int(i32::MIN), BinOp::Rem, Expr::Int(-1)),
        kept(Expr::Int(i32::MIN), BinOp::Rem, Expr::Int(-1))
    );
}

#[test]
fn fold_integer_comparison() {
    assert_eq!(fold_binary(Expr::Int(1), BinOp::Eq, Expr::Int(1)), Expr::Bool(true));
    assert_eq!(fold_binary(Expr::Int(1), BinOp::Neq, Expr::Int(1)), Expr::Bool(false));
    assert_eq!(fold_binary(Expr::Int(1), BinOp::Lt, Expr::Int(2)), Expr::Bool(true));
    assert_eq!(fold_binary(Expr::Int(2), BinOp::Lte, Expr::Int(2)), Expr::Bool(true));
    assert_eq!(fold_binary(Expr::Int(1), BinOp::Gt, Expr::Int(2)), Expr::Bool(false));
    assert_eq!(fold_binary(Expr::Int(1), BinOp::Gte, Expr::Int(2)), Expr::Bool(false));
}

#[test]
fn fold_boolean_logic_and_comparison() {
    let t = || Expr::Bool(true);
    let f = || Expr::Bool(false);
    assert_eq!(fold_binary(t(), BinOp::And, f()), f());
    assert_eq!(fold_binary(t(), BinOp::Or, f()), t());
    assert_eq!(fold_binary(t(), BinOp::Eq, t()), t());
    assert_eq!(fold_binary(t(), BinOp::Neq, t()), f());
    assert_eq!(fold_binary(f(), BinOp::Lt, t()), t());
    assert_eq!(fold_binary(t(), BinOp::Lt, t()), f());
    assert_eq!(fold_binary(t(), BinOp::Lte, t()), t());
    assert_eq!(fold_binary(t(), BinOp::Lte, f()), f());
    assert_eq!(fold_binary(t(), BinOp::Gt, f()), t());
    assert_eq!(fold_binary(f(), BinOp::Gt, f()), f());
    assert_eq!(fold_binary(f(), BinOp::Gte, f()), t());
    assert_eq!(fold_binary(f(), BinOp::Gte, t()), f());
    assert_eq!(fold_binary(t(), BinOp::Add, f()), kept(t(), BinOp::Add, f()));
    assert_eq!(fold_binary(t(), BinOp::Mul, f()), kept(t(), BinOp::Mul, f()));
}

#[test]
fn fold_concatenation() {
    assert_eq!(fold_binary(s("a"), BinOp::Add, s("b")), s("ab"));
    assert_eq!(fold_binary(Expr::Int(-12), BinOp::Add, s("b")), s("-12b"));
    assert_eq!(fold_binary(s("a"), BinOp::Add, Expr::Int(7)), s("a7"));
    assert_eq!(fold_binary(Expr::Bool(true), BinOp::Add, s("b")), s("trueb"));
    assert_eq!(fold_binary(s("a"), BinOp::Add, Expr::Bool(false)), s("afalse"));
}

#[test]
fn fold_leaves_other_pairs_unchanged() {
    assert_eq!(fold_binary(s("a"), BinOp::Sub, s("b")), kept(s("a"), BinOp::Sub, s("b")));
    assert_eq!(fold_binary(s("a"), BinOp::Eq, s("a")), kept(s("a"), BinOp::Eq, s("a")));
    assert_eq!(
        fold_binary(Expr::Int(1), BinOp::Add, Expr::Bool(true)),
        kept(Expr::Int(1), BinOp::Add, Expr::Bool(true))
    );
    let x = || Expr::Variable(Ident::from("x".to_string()));
    assert_eq!(fold_binary(x(), BinOp::Add, s("a")), kept(x(), BinOp::Add, s("a")));
    assert_eq!(fold_binary(x(), BinOp::Add, Expr::Int(1)), kept(x(), BinOp::Add, Expr::Int(1)));
}
