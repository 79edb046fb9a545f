use hvmgen::error::CompileError;
use hvmgen::expr::{BinOp, Expr, Ident};
use hvmgen::json::{run, JsonValue};
use hvmgen::parser::{
    parse, parse_abstraction, parse_application, parse_binary, parse_expr, parse_if, parse_let,
    parse_native, parse_param, parse_tuple, parse_variable,
};

const FIB: &str = r#"{"name":"files/fib.rinha","expression":{"kind":"Let","name":{"text":"fib","location":{"start":4,"end":7,"filename":"files/fib.rinha"}},"value":{"kind":"Function","parameters":[{"text":"n","location":{"start":14,"end":15,"filename":"files/fib.rinha"}}],"value":{"kind":"If","condition":{"kind":"Binary","lhs":{"kind":"Var","text":"n","location":{"start":26,"end":27,"filename":"files/fib.rinha"}},"op":"Lt","rhs":{"kind":"Int","value":2,"location":{"start":30,"end":31,"filename":"files/fib.rinha"}},"location":{"start":26,"end":31,"filename":"files/fib.rinha"}},"then":{"kind":"Var","text":"n","location":{"start":39,"end":40,"filename":"files/fib.rinha"}},"otherwise":{"kind":"Binary","lhs":{"kind":"Call","callee":{"kind":"Var","text":"fib","location":{"start":56,"end":59,"filename":"files/fib.rinha"}},"arguments":[{"kind":"Binary","lhs":{"kind":"Var","text":"n","location":{"start":60,"end":61,"filename":"files/fib.rinha"}},"op":"Sub","rhs":{"kind":"Int","value":1,"location":{"start":64,"end":65,"filename":"files/fib.rinha"}},"location":{"start":60,"end":65,"filename":"files/fib.rinha"}}],"location":{"start":56,"end":66,"filename":"files/fib.rinha"}},"op":"Add","rhs":{"kind":"Call","callee":{"kind":"Var","text":"fib","location":{"start":69,"end":72,"filename":"files/fib.rinha"}},"arguments":[{"kind":"Binary","lhs":{"kind":"Var","text":"n","location":{"start":73,"end":74,"filename":"files/fib.rinha"}},"op":"Sub","rhs":{"kind":"Int","value":2,"location":{"start":77,"end":78,"filename":"files/fib.rinha"}},"location":{"start":73,"end":78,"filename":"files/fib.rinha"}}],"location":{"start":69,"end":79,"filename":"files/fib.rinha"}},"location":{"start":56,"end":79,"filename":"files/fib.rinha"}},"location":{"start":22,"end":83,"filename":"files/fib.rinha"}},"location":{"start":10,"end":85,"filename":"files/fib.rinha"}},"next":{"kind":"Print","value":{"kind":"Call","callee":{"kind":"Var","text":"fib","location":{"start":95,"end":98,"filename":"files/fib.rinha"}},"arguments":[{"kind":"Int","value":10,"location":{"start":99,"end":101,"filename":"files/fib.rinha"}}],"location":{"start":95,"end":102,"filename":"files/fib.rinha"}},"location":{"start":88,"end":103,"filename":"files/fib.rinha"}},"location":{"start":0,"end":103,"filename":"files/fib.rinha"}},"location":{"start":0,"end":103,"filename":"files/fib.rinha"}}"#;

fn var(name: &str) -> Expr {
    Expr::Variable(Ident::from(name.to_string()))
}

fn call(name: &str, args: Vec<Expr>) -> Expr {
    Expr::Application { callee: Box::new(var(name)), args }
}

fn fields(text: &str) -> Vec<JsonValue> {
    match run(text) {
        Ok((JsonValue::Object(values), _)) => values,
        other => panic!("no object: {:?}", other),
    }
}

#[test]
fn parse_fib() {
    let file = parse(FIB).unwrap();
    assert_eq!(
        file.expr,
        Expr::Let {
            name: Ident::from("fib".to_string()),
            value: Expr::Abstraction {
                args: vec![Ident::from("n".to_string())],
                body: Expr::If {
                    condition: Expr::Binary {
                        lhs: Expr::Variable(Ident::from("n".to_string())).into(),
                        op: BinOp::Lt,
                        rhs: Expr::Int(2).into()
                    }
                    .into(),
                    then: Expr::Variable(Ident::from("n".to_string())).into(),
                    otherwise: Expr::Binary {
                        lhs: call(
                            "fib",
                            vec![Expr::Binary {
                                lhs: Expr::Variable(Ident::from("n".to_string())).into(),
                                op: BinOp::Sub,
                                rhs: Expr::Int(1).into()
                            }]
                        )
                        .into(),
                        op: BinOp::Add,
                        rhs: call(
                            "fib",
                            vec![Expr::Binary {
                                lhs: Expr::Variable(Ident::from("n".to_string())).into(),
                                op: BinOp::Sub,
                                rhs: Expr::Int(2).into()
                            }]
                        )
                        .into(),
                    }
                    .into()
                }
                .into()
            }
            .into(),
            next: call("print", vec![call("fib", vec![Expr::Int(10)])]).into()
        }
    )
}

#[test]
fn parse_fib_keeps_the_file_name() {
    let file = parse(FIB).unwrap();
    assert_eq!(file.name, "files/fib.rinha");
}

#[test]
fn parse_rejects_text_that_is_no_document() {
    assert_eq!(parse("").err(), Some(CompileError::SyntaxError));
    assert_eq!(parse("{\"name\":\"a\",").err(), Some(CompileError::SyntaxError));
}

#[test]
fn parse_rejects_a_document_that_is_no_source_file() {
    assert_eq!(parse("[1, 2]").err(), Some(CompileError::SyntaxError));
    assert_eq!(parse("{\"name\": \"a\"}").err(), Some(CompileError::SyntaxError));
    assert_eq!(parse("{\"name\": 1, \"expression\": {\"kind\": \"Int\", \"value\": 1}}").err(), Some(CompileError::SyntaxError));
}

#[test]
fn parse_expr_reads_literals() {
    assert_eq!(parse_expr(&fields(r#"{"kind":"Int","value":-7}"#)), Ok(Expr::Int(-7)));
    assert_eq!(parse_expr(&fields(r#"{"kind":"Str","value":"hi"}"#)), Ok(Expr::Str("hi".to_string())));
    assert_eq!(parse_expr(&fields(r#"{"kind":"Bool","value":true}"#)), Ok(Expr::Bool(true)));
}

#[test]
fn parse_expr_rejects_a_literal_of_the_wrong_kind() {
    assert_eq!(parse_expr(&fields(r#"{"kind":"Int","value":"7"}"#)), Err(CompileError::SyntaxError));
    assert_eq!(parse_expr(&fields(r#"{"kind":"Str","value":7}"#)), Err(CompileError::SyntaxError));
    assert_eq!(parse_expr(&fields(r#"{"kind":"Bool","value":0}"#)), Err(CompileError::SyntaxError));
}

#[test]
fn parse_expr_rejects_an_unknown_kind() {
    assert_eq!(parse_expr(&fields(r#"{"kind":"Loop","value":1}"#)), Err(CompileError::SyntaxError));
}

#[test]
fn parse_expr_rejects_a_truncated_node() {
    assert_eq!(parse_expr(&fields(r#"{}"#)), Err(CompileError::SyntaxError));
    assert_eq!(parse_expr(&fields(r#"{"kind":"Int"}"#)), Err(CompileError::SyntaxError));
    assert_eq!(parse_expr(&fields(r#"{"kind":"If","condition":{"kind":"Bool","value":true}}"#)), Err(CompileError::SyntaxError));
    assert_eq!(parse_expr(&fields(r#"{"kind":7}"#)), Err(CompileError::SyntaxError));
}

#[test]
fn parse_variable_reads_the_name() {
    assert_eq!(parse_variable(&fields(r#"{"kind":"Var","text":"x"}"#)), Ok(var("x")));
    assert_eq!(parse_variable(&fields(r#"{"kind":"Var"}"#)), Err(CompileError::SyntaxError));
}

#[test]
fn parse_param_reads_the_first_value() {
    let param = run(r#"{"text":"n","location":{}}"#).unwrap().0;
    assert_eq!(parse_param(&param), Ok(Ident::from("n".to_string())));
    assert_eq!(parse_param(&JsonValue::Num(1)), Err(CompileError::SyntaxError));
    assert_eq!(parse_param(&JsonValue::Object(vec![])), Err(CompileError::SyntaxError));
}

#[test]
fn parse_binary_keeps_an_operation_on_a_variable() {
    let node = fields(r#"{"kind":"Binary","lhs":{"kind":"Var","text":"n"},"op":"Mul","rhs":{"kind":"Int","value":2}}"#);
    assert_eq!(
        parse_binary(&node),
        Ok(Expr::Binary { lhs: Box::new(var("n")), op: BinOp::Mul, rhs: Box::new(Expr::Int(2)) })
    );
}

#[test]
fn parse_binary_folds_literals() {
    let node = fields(r#"{"kind":"Binary","lhs":{"kind":"Int","value":1},"op":"Add","rhs":{"kind":"Int","value":2}}"#);
    assert_eq!(parse_binary(&node), Ok(Expr::Int(3)));
    let nested = fields(r#"{"kind":"Binary","lhs":{"kind":"Binary","lhs":{"kind":"Int","value":2},"op":"Mul","rhs":{"kind":"Int","value":3}},"op":"Lt","rhs":{"kind":"Int","value":7}}"#);
    assert_eq!(parse_expr(&nested), Ok(Expr::Bool(true)));
}

#[test]
fn parse_binary_rejects_an_unknown_operator() {
    let node = fields(r#"{"kind":"Binary","lhs":{"kind":"Int","value":1},"op":"Pow","rhs":{"kind":"Int","value":2}}"#);
    assert_eq!(parse_binary(&node), Err(CompileError::SyntaxError));
}

#[test]
fn parse_let_takes_the_value_it_is_given() {
    let node = fields(r#"{"kind":"Let","name":{"text":"a"},"value":{"kind":"Int","value":1},"next":{"kind":"Var","text":"a"}}"#);
    assert_eq!(
        parse_let(&node, Box::new(Expr::Bool(false))),
        Ok(Expr::Let {
            name: Ident::from("a".to_string()),
            value: Box::new(Expr::Bool(false)),
            next: Box::new(var("a")),
        })
    );
    assert_eq!(
        parse_expr(&node),
        Ok(Expr::Let {
            name: Ident::from("a".to_string()),
            value: Box::new(Expr::Int(1)),
            next: Box::new(var("a")),
        })
    );
}

#[test]
fn parse_let_needs_a_continuation() {
    let node = fields(r#"{"kind":"Let","name":{"text":"a"},"value":{"kind":"Int","value":1}}"#);
    assert_eq!(parse_expr(&node), Err(CompileError::SyntaxError));
}

#[test]
fn parse_if_reads_three_parts() {
    let node = fields(r#"{"kind":"If","condition":{"kind":"Var","text":"c"},"then":{"kind":"Int","value":1},"otherwise":{"kind":"Int","value":2}}"#);
    assert_eq!(
        parse_if(&node),
        Ok(Expr::If {
            condition: Box::new(var("c")),
            then: Box::new(Expr::Int(1)),
            otherwise: Box::new(Expr::Int(2)),
        })
    );
}

#[test]
fn parse_tuple_reads_two_parts() {
    let node = fields(r#"{"kind":"Tuple","first":{"kind":"Int","value":1},"second":{"kind":"Str","value":"b"}}"#);
    assert_eq!(
        parse_tuple(&node),
        Ok(Expr::Tuple(Box::new(Expr::Int(1)), Box::new(Expr::Str("b".to_string()))))
    );
}

#[test]
fn parse_application_reads_callee_and_arguments() {
    let node = fields(r#"{"kind":"Call","callee":{"kind":"Var","text":"f"},"arguments":[{"kind":"Int","value":1},{"kind":"Var","text":"x"}]}"#);
    assert_eq!(parse_application(&node), Ok(call("f", vec![Expr::Int(1), var("x")])));
    let none = fields(r#"{"kind":"Call","callee":{"kind":"Var","text":"f"},"arguments":[]}"#);
    assert_eq!(parse_application(&none), Ok(call("f", vec![])));
}

#[test]
fn parse_application_rejects_a_malformed_argument() {
    let node = fields(r#"{"kind":"Call","callee":{"kind":"Var","text":"f"},"arguments":[{"kind":"Int","value":1},{"kind":"Nope"}]}"#);
    assert_eq!(parse_application(&node), Err(CompileError::SyntaxError));
    let no_list = fields(r#"{"kind":"Call","callee":{"kind":"Var","text":"f"},"arguments":1}"#);
    assert_eq!(parse_application(&no_list), Err(CompileError::SyntaxError));
}

#[test]
fn parse_application_rejects_a_callee_that_is_no_variable() {
    let text = fields(r#"{"kind":"Call","callee":{"kind":"Str","value":"f"},"arguments":[]}"#);
    assert_eq!(parse_application(&text), Err(CompileError::SyntaxError));
    let call = fields(r#"{"kind":"Call","callee":{"kind":"Call","callee":{"kind":"Var","text":"f"},"arguments":[]},"arguments":[]}"#);
    assert_eq!(parse_application(&call), Err(CompileError::SyntaxError));
    let bare = fields(r#"{"kind":"Call","callee":"f","arguments":[]}"#);
    assert_eq!(parse_application(&bare), Err(CompileError::SyntaxError));
}

#[test]
fn parse_abstraction_reads_parameters_and_body() {
    let node = fields(r#"{"kind":"Function","parameters":[{"text":"a"},{"text":"b"}],"value":{"kind":"Var","text":"a"}}"#);
    assert_eq!(
        parse_abstraction(&node),
        Ok(Expr::Abstraction {
            args: vec![Ident::from("a".to_string()), Ident::from("b".to_string())],
            body: Box::new(var("a")),
        })
    );
    let bad = fields(r#"{"kind":"Function","parameters":[{"text":"a"},7],"value":{"kind":"Var","text":"a"}}"#);
    assert_eq!(parse_abstraction(&bad), Err(CompileError::SyntaxError));
}

#[test]
fn parse_native_calls_the_builtin() {
    let node = fields(r#"{"kind":"Print","value":{"kind":"Int","value":1}}"#);
    assert_eq!(parse_native(&node, "print"), Ok(call("print", vec![Expr::Int(1)])));
    assert_eq!(parse_expr(&node), Ok(call("print", vec![Expr::Int(1)])));
    let first = fields(r#"{"kind":"First","value":{"kind":"Var","text":"t"}}"#);
    assert_eq!(parse_expr(&first), Ok(call("first", vec![var("t")])));
    let second = fields(r#"{"kind":"Second","value":{"kind":"Var","text":"t"}}"#);
    assert_eq!(parse_expr(&second), Ok(call("second", vec![var("t")])));
}
