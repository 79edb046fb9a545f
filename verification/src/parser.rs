//! From the decoded wire format to the syntax tree.
//!
//! Every node of the wire format is an object whose values stand in a fixed
//! order: the kind first, then the node's parts. Binary nodes are folded as
//! they are built.

use vstd::prelude::*;
use crate::error::{CompileError, Failure};
use crate::expr::{operator_named, BinOp, Expr, Ident, Term};
use crate::folding::{fold_binary, folded};
use crate::json::{document, models, run, Json, JsonValue};
use crate::text::str_eq;

verus! {

/// A source file: its name and the expression it holds.
pub struct File {
    pub name: String,
    pub expr: Expr,
}

/// The text at a position of a node, where a string stands there.
pub open spec fn text_at(fields: Seq<Json>, i: int) -> Option<Seq<char>> {
    if 0 <= i < fields.len() {
        match fields[i] {
            Json::Str(text) => Some(text),
            _ => None,
        }
    } else {
        None
    }
}

/// The name that a parameter object holds: its first value, a string.
pub open spec fn param_name(param: Json) -> Option<Seq<char>> {
    match param {
        Json::Object(values) => text_at(values, 0),
        _ => None,
    }
}

/// The name that the parameter at a position of a node holds.
pub open spec fn param_at(fields: Seq<Json>, i: int) -> Option<Seq<char>> {
    if 0 <= i < fields.len() {
        param_name(fields[i])
    } else {
        None
    }
}

/// The names of the first `count` parameters of a list.
pub open spec fn param_names(params: Seq<Json>, count: nat) -> Option<Seq<Seq<char>>>
    decreases count,
{
    if count == 0 {
        Some(Seq::<Seq<char>>::empty())
    } else {
        match (param_names(params, (count - 1) as nat), param_at(params, count - 1)) {
            (Some(names), Some(name)) => Some(names.push(name)),
            _ => None,
        }
    }
}

/// The expression of the object at a position of a node.
pub open spec fn child(fields: Seq<Json>, i: int) -> Option<Term>
    decreases fields, 0nat,
{
    if 0 <= i < fields.len() {
        match fields[i] {
            Json::Object(inner) => expr_of(inner),
            _ => None,
        }
    } else {
        None
    }
}

/// The expressions of the first `count` objects of a list.
pub open spec fn children(items: Seq<Json>, count: nat) -> Option<Seq<Term>>
    decreases items, count + 1,
{
    if count == 0 {
        Some(Seq::<Term>::empty())
    } else {
        match (children(items, (count - 1) as nat), child(items, count - 1)) {
            (Some(terms), Some(term)) => Some(terms.push(term)),
            _ => None,
        }
    }
}

/// A call of the builtin `name` on the expression at position 1.
pub open spec fn native_of(fields: Seq<Json>, name: Seq<char>) -> Option<Term>
    decreases fields, 1nat,
{
    match child(fields, 1) {
        Some(value) => Some(
            Term::Application { callee: Box::new(Term::Variable(name)), args: seq![value] },
        ),
        None => None,
    }
}

/// The name that a `Var` node holds at position 1, where the node is of
/// that kind.
pub open spec fn variable_name(fields: Seq<Json>) -> Option<Seq<char>> {
    if text_at(fields, 0) == Some("Var"@) {
        text_at(fields, 1)
    } else {
        None
    }
}

/// The application that a `Call` node holds: the callee at position 1, a
/// `Var` node, and the arguments in the array at position 2.
pub open spec fn application_of(fields: Seq<Json>) -> Option<Term>
    decreases fields, 1nat,
{
    if fields.len() > 2 {
        match (fields[1], fields[2]) {
            (Json::Object(callee), Json::Array(items)) => match (
                variable_name(callee),
                children(items, items.len()),
            ) {
                (Some(name), Some(args)) => Some(
                    Term::Application { callee: Box::new(Term::Variable(name)), args },
                ),
                _ => None,
            },
            _ => None,
        }
    } else {
        None
    }
}

/// The abstraction that a `Function` node holds: the parameters in the
/// array at position 1, the body at position 2.
pub open spec fn abstraction_of(fields: Seq<Json>) -> Option<Term>
    decreases fields, 1nat,
{
    if fields.len() > 1 {
        match fields[1] {
            Json::Array(params) => match (param_names(params, params.len()), child(fields, 2)) {
                (Some(args), Some(body)) => Some(
                    Term::Abstraction { args, body: Box::new(body) },
                ),
                _ => None,
            },
            _ => None,
        }
    } else {
        None
    }
}

/// The binary expression that a `Binary` node holds, folded.
pub open spec fn binary_of(fields: Seq<Json>) -> Option<Term>
    decreases fields, 1nat,
{
    match (child(fields, 1), text_at(fields, 2), child(fields, 3)) {
        (Some(lhs), Some(name), Some(rhs)) => match operator_named(name) {
            Some(op) => Some(folded(lhs, op, rhs)),
            None => None,
        },
        _ => None,
    }
}

/// The binding that a `Let` node holds around a value already built: the
/// parameter at position 1, the continuation at position 3.
pub open spec fn let_of(fields: Seq<Json>, value: Term) -> Option<Term>
    decreases fields, 1nat,
{
    match (param_at(fields, 1), child(fields, 3)) {
        (Some(name), Some(next)) => Some(
            Term::Let { name, value: Box::new(value), next: Box::new(next) },
        ),
        _ => None,
    }
}

/// The conditional that an `If` node holds.
pub open spec fn if_of(fields: Seq<Json>) -> Option<Term>
    decreases fields, 1nat,
{
    match (child(fields, 1), child(fields, 2), child(fields, 3)) {
        (Some(condition), Some(then), Some(otherwise)) => Some(
            Term::If {
                condition: Box::new(condition),
                then: Box::new(then),
                otherwise: Box::new(otherwise),
            },
        ),
        _ => None,
    }
}

/// The pair that a `Tuple` node holds.
pub open spec fn tuple_of(fields: Seq<Json>) -> Option<Term>
    decreases fields, 1nat,
{
    match (child(fields, 1), child(fields, 2)) {
        (Some(first), Some(second)) => Some(Term::Tuple(Box::new(first), Box::new(second))),
        _ => None,
    }
}

/// The variable that a `Var` node holds: the name at position 1.
pub open spec fn variable_of(fields: Seq<Json>) -> Option<Term> {
    match text_at(fields, 1) {
        Some(name) => Some(Term::Variable(name)),
        None => None,
    }
}

/// The literal that an `Int`, `Str` or `Bool` node holds at position 1.
pub open spec fn literal_of(fields: Seq<Json>) -> Option<Term> {
    if fields.len() > 1 {
        match fields[1] {
            Json::Num(n) => Some(Term::Int(n)),
            Json::Str(s) => Some(Term::Str(s)),
            Json::Boolean(b) => Some(Term::Bool(b)),
            _ => None,
        }
    } else {
        None
    }
}

/// The expression that a node holds, chosen by the kind at position 0, or
/// nothing where the node is malformed or of no known kind.
pub open spec fn expr_of(fields: Seq<Json>) -> Option<Term>
    decreases fields, 2nat,
{
    match text_at(fields, 0) {
        None => None,
        Some(kind) => if kind == "Int"@ {
            if literal_of(fields) matches Some(Term::Int(_)) {
                literal_of(fields)
            } else {
                None
            }
        } else if kind == "Str"@ {
            if literal_of(fields) matches Some(Term::Str(_)) {
                literal_of(fields)
            } else {
                None
            }
        } else if kind == "Bool"@ {
            if literal_of(fields) matches Some(Term::Bool(_)) {
                literal_of(fields)
            } else {
                None
            }
        } else if kind == "Var"@ {
            variable_of(fields)
        } else if kind == "Binary"@ {
            binary_of(fields)
        } else if kind == "Let"@ {
            match child(fields, 2) {
                Some(value) => let_of(fields, value),
                None => None,
            }
        } else if kind == "If"@ {
            if_of(fields)
        } else if kind == "Tuple"@ {
            tuple_of(fields)
        } else if kind == "Call"@ {
            application_of(fields)
        } else if kind == "Function"@ {
            abstraction_of(fields)
        } else if kind == "Print"@ {
            native_of(fields, "print"@)
        } else if kind == "First"@ {
            native_of(fields, "first"@)
        } else if kind == "Second"@ {
            native_of(fields, "second"@)
        } else {
            None
        },
    }
}

/// The source file that a document holds: an object with the name at
/// position 0 and the root expression at position 1.
pub open spec fn file_of(root: Json) -> Option<(Seq<char>, Term)> {
    match root {
        Json::Object(values) => match (text_at(values, 0), child(values, 1)) {
            (Some(name), Some(term)) => Some((name, term)),
            _ => None,
        },
        _ => None,
    }
}

/// The source file that a text holds.
pub open spec fn parsed(text: Seq<char>) -> Option<(Seq<char>, Term)> {
    match document(text) {
        Some((root, _)) => file_of(root),
        None => None,
    }
}

/// Whether a built expression is the one the wire format names, and a
/// syntax error stands where it names none.
pub open spec fn expr_agrees(got: Result<Expr, CompileError>, want: Option<Term>) -> bool {
    match want {
        Some(term) => got matches Ok(e) && e@ == term,
        None => got matches Err(failure) && failure@ == Failure::SyntaxError,
    }
}

/// The string at a position of a node.
fn text_field<'a>(fields: &'a [JsonValue], i: usize) -> (text: Option<&'a str>)
    ensures
        match text_at(models(fields@), i as int) {
            Some(want) => text matches Some(found) && found@ == want,
            None => text is None,
        },
{
    if i < fields.len() {
        match &fields[i] {
            JsonValue::Str(_) => Some(fields[i].extract_str()),
            _ => None,
        }
    } else {
        None
    }
}

/// The values of the object at a position of a node.
fn object_field<'a>(fields: &'a [JsonValue], i: usize) -> (values: Option<&'a Vec<JsonValue>>)
    ensures
        match values {
            Some(inner) => i < fields@.len() && fields@[i as int] == JsonValue::Object(*inner)
                && models(fields@)[i as int] == Json::Object(models(inner@)),
            None => !(i < fields@.len() && models(fields@)[i as int] is Object),
        },
{
    if i < fields.len() {
        match &fields[i] {
            JsonValue::Object(_) => Some(fields[i].extract_object()),
            _ => None,
        }
    } else {
        None
    }
}

/// The items of the array at a position of a node.
fn array_field<'a>(fields: &'a [JsonValue], i: usize) -> (items: Option<&'a Vec<JsonValue>>)
    ensures
        match items {
            Some(inner) => i < fields@.len() && fields@[i as int] == JsonValue::Array(*inner)
                && models(fields@)[i as int] == Json::Array(models(inner@)),
            None => !(i < fields@.len() && models(fields@)[i as int] is Array),
        },
{
    if i < fields.len() {
        match &fields[i] {
            JsonValue::Array(_) => Some(fields[i].extract_array()),
            _ => None,
        }
    } else {
        None
    }
}

/// Reads the name of a parameter.
pub fn parse_param(value: &JsonValue) -> (out: Result<Ident, CompileError>)
    ensures
        match param_name(value@) {
            Some(name) => out matches Ok(ident) && ident@ == name,
            None => out matches Err(failure) && failure@ == Failure::SyntaxError,
        },
{
    match value {
        JsonValue::Object(_) => {
            let values = value.extract_object();
            match text_field(values.as_slice(), 0) {
                Some(name) => Ok(Ident(name.to_owned())),
                None => Err(CompileError::SyntaxError),
            }
        },
        _ => Err(CompileError::SyntaxError),
    }
}

/// Reads a variable reference.
pub fn parse_variable(parent: &[JsonValue]) -> (out: Result<Expr, CompileError>)
    ensures
        expr_agrees(out, variable_of(models(parent@))),
{
    match text_field(parent, 1) {
        Some(name) => Ok(Expr::Variable(Ident(name.to_owned()))),
        None => Err(CompileError::SyntaxError),
    }
}

/// Reads the expression of the object at a position of a node.
fn parse_child(parent: &[JsonValue], i: usize) -> (out: Result<Expr, CompileError>)
    ensures
        expr_agrees(out, child(models(parent@), i as int)),
    decreases parent@, 0nat,
{
    match object_field(parent, i) {
        Some(inner) => parse_expr(inner.as_slice()),
        None => Err(CompileError::SyntaxError),
    }
}

/// Reads a binary expression and folds it.
pub fn parse_binary(parent: &[JsonValue]) -> (out: Result<Expr, CompileError>)
    ensures
        expr_agrees(out, binary_of(models(parent@))),
    decreases parent@, 1nat,
{
    let lhs = match parse_child(parent, 1) {
        Ok(expr) => expr,
        Err(failure) => { return Err(failure); },
    };
    let op = match text_field(parent, 2) {
        Some(name) => match BinOp::from_name(name) {
            Some(op) => op,
            None => { return Err(CompileError::SyntaxError); },
        },
        None => { return Err(CompileError::SyntaxError); },
    };
    let rhs = match parse_child(parent, 3) {
        Ok(expr) => expr,
        Err(failure) => { return Err(failure); },
    };
    Ok(fold_binary(lhs, op, rhs))
}

/// Reads a binding around a value that is built already.
pub fn parse_let(parent: &[JsonValue], value: Box<Expr>) -> (out: Result<Expr, CompileError>)
    ensures
        expr_agrees(out, let_of(models(parent@), value@)),
    decreases parent@, 1nat,
{
    if parent.len() <= 1 {
        return Err(CompileError::SyntaxError);
    }
    let name = match parse_param(&parent[1]) {
        Ok(ident) => ident,
        Err(failure) => { return Err(failure); },
    };
    let next = match parse_child(parent, 3) {
        Ok(expr) => expr,
        Err(failure) => { return Err(failure); },
    };
    Ok(Expr::Let { name, value, next: Box::new(next) })
}

/// Reads a conditional.
pub fn parse_if(parent: &[JsonValue]) -> (out: Result<Expr, CompileError>)
    ensures
        expr_agrees(out, if_of(models(parent@))),
    decreases parent@, 1nat,
{
    let condition = match parse_child(parent, 1) {
        Ok(expr) => expr,
        Err(failure) => { return Err(failure); },
    };
    let then = match parse_child(parent, 2) {
        Ok(expr) => expr,
        Err(failure) => { return Err(failure); },
    };
    let otherwise = match parse_child(parent, 3) {
        Ok(expr) => expr,
        Err(failure) => { return Err(failure); },
    };
    Ok(
        Expr::If {
            condition: Box::new(condition),
            then: Box::new(then),
            otherwise: Box::new(otherwise),
        },
    )
}

/// Reads a pair.
pub fn parse_tuple(parent: &[JsonValue]) -> (out: Result<Expr, CompileError>)
    ensures
        expr_agrees(out, tuple_of(models(parent@))),
    decreases parent@, 1nat,
{
    let first = match parse_child(parent, 1) {
        Ok(expr) => expr,
        Err(failure) => { return Err(failure); },
    };
    let second = match parse_child(parent, 2) {
        Ok(expr) => expr,
        Err(failure) => { return Err(failure); },
    };
    Ok(Expr::Tuple(Box::new(first), Box::new(second)))
}

/// Reads the expressions of a list of objects.
fn parse_children(items: &Vec<JsonValue>) -> (out: Result<Vec<Expr>, CompileError>)
    ensures
        match children(models(items@), items@.len()) {
            Some(terms) => out matches Ok(exprs) && exprs@.len() == terms.len() && (forall|
                k: int,
            | 0 <= k < terms.len() ==> (#[trigger] exprs@[k])@ == terms[k]),
            None => out matches Err(failure) && failure@ == Failure::SyntaxError,
        },
    decreases items@, 1nat,
{
    let mut exprs: Vec<Expr> = Vec::new();
    let mut i: usize = 0;
    while i < items.len()
        invariant
            i <= items.len(),
            children(models(items@), i as nat) matches Some(terms) && exprs@.len() == terms.len()
                && (forall|k: int| 0 <= k < terms.len() ==> (#[trigger] exprs@[k])@ == terms[k]),
        decreases items.len() - i,
    {
        match parse_child(items.as_slice(), i) {
            Ok(expr) => {
                exprs.push(expr);
            },
            Err(failure) => {
                proof {
                    lemma_children_failure_stays(
                        models(items@),
                        (i + 1) as nat,
                        items@.len() as nat,
                    );
                }
                return Err(failure);
            },
        }
        i = i + 1;
    }
    Ok(exprs)
}

/// Once a list of objects holds one that is no expression, no longer run
/// of the list is a list of expressions.
proof fn lemma_children_failure_stays(items: Seq<Json>, failed: nat, count: nat)
    requires
        children(items, failed) is None,
        failed <= count,
    ensures
        children(items, count) is None,
    decreases count,
{
    if count > failed {
        lemma_children_failure_stays(items, failed, (count - 1) as nat);
    }
}

/// Once a list holds one that is no parameter, no longer run of the list
/// is a list of parameters.
proof fn lemma_params_failure_stays(params: Seq<Json>, failed: nat, count: nat)
    requires
        param_names(params, failed) is None,
        failed <= count,
    ensures
        param_names(params, count) is None,
    decreases count,
{
    if count > failed {
        lemma_params_failure_stays(params, failed, (count - 1) as nat);
    }
}

/// Reads the names of a list of parameters.
fn parse_params(params: &Vec<JsonValue>) -> (out: Result<Vec<Ident>, CompileError>)
    ensures
        match param_names(models(params@), params@.len()) {
            Some(names) => out matches Ok(idents) && idents@.len() == names.len() && (forall|
                k: int,
            | 0 <= k < names.len() ==> (#[trigger] idents@[k])@ == names[k]),
            None => out matches Err(failure) && failure@ == Failure::SyntaxError,
        },
{
    let mut idents: Vec<Ident> = Vec::new();
    let mut i: usize = 0;
    while i < params.len()
        invariant
            i <= params.len(),
            param_names(models(params@), i as nat) matches Some(names) && idents@.len()
                == names.len() && (forall|k: int|
                0 <= k < names.len() ==> (#[trigger] idents@[k])@ == names[k]),
        decreases params.len() - i,
    {
        match parse_param(&params[i]) {
            Ok(ident) => {
                idents.push(ident);
            },
            Err(failure) => {
                proof {
                    lemma_params_failure_stays(
                        models(params@),
                        (i + 1) as nat,
                        params@.len() as nat,
                    );
                }
                return Err(failure);
            },
        }
        i = i + 1;
    }
    Ok(idents)
}

/// Reads the name of the variable that is called.
fn callee_name<'a>(fields: &'a [JsonValue]) -> (name: Option<&'a str>)
    ensures
        match variable_name(models(fields@)) {
            Some(want) => name matches Some(found) && found@ == want,
            None => name is None,
        },
{
    match text_field(fields, 0) {
        Some(kind) => if str_eq(kind, "Var") {
            text_field(fields, 1)
        } else {
            None
        },
        None => None,
    }
}

/// Reads an application of a named function.
pub fn parse_application(parent: &[JsonValue]) -> (out: Result<Expr, CompileError>)
    ensures
        expr_agrees(out, application_of(models(parent@))),
    decreases parent@, 1nat,
{
    let callee = match object_field(parent, 1) {
        Some(inner) => match callee_name(inner.as_slice()) {
            Some(name) => Expr::Variable(Ident(name.to_owned())),
            None => { return Err(CompileError::SyntaxError); },
        },
        None => { return Err(CompileError::SyntaxError); },
    };
    let items = match array_field(parent, 2) {
        Some(items) => items,
        None => { return Err(CompileError::SyntaxError); },
    };
    let args = match parse_children(items) {
        Ok(exprs) => exprs,
        Err(failure) => { return Err(failure); },
    };
    let ghost callee_term = callee@;
    let out = Expr::Application { callee: Box::new(callee), args };
    proof {
        assert(callee_term is Variable);
        assert(out@->Application_args =~= children(models(items@), items@.len())->0);
    }
    Ok(out)
}

/// Reads a function.
pub fn parse_abstraction(parent: &[JsonValue]) -> (out: Result<Expr, CompileError>)
    ensures
        expr_agrees(out, abstraction_of(models(parent@))),
    decreases parent@, 1nat,
{
    let params = match array_field(parent, 1) {
        Some(items) => items,
        None => { return Err(CompileError::SyntaxError); },
    };
    let args = match parse_params(params) {
        Ok(idents) => idents,
        Err(failure) => { return Err(failure); },
    };
    let body = match parse_child(parent, 2) {
        Ok(expr) => expr,
        Err(failure) => { return Err(failure); },
    };
    let out = Expr::Abstraction { args, body: Box::new(body) };
    proof {
        assert(out@->Abstraction_args =~= param_names(models(params@), params@.len())->0);
    }
    Ok(out)
}

/// Reads a call of a builtin on one argument.
pub fn parse_native(expr: &[JsonValue], name: &'static str) -> (out: Result<Expr, CompileError>)
    ensures
        expr_agrees(out, native_of(models(expr@), name@)),
    decreases expr@, 1nat,
{
    let value = match parse_child(expr, 1) {
        Ok(value) => value,
        Err(failure) => { return Err(failure); },
    };
    let mut args: Vec<Expr> = Vec::new();
    args.push(value);
    let callee = Expr::Variable(Ident(name.to_owned()));
    let ghost callee_term = callee@;
    let ghost value_term = args@[0]@;
    let out = Expr::Application { callee: Box::new(callee), args };
    proof {
        assert(callee_term == Term::Variable(name@));
        assert(out@->Application_args =~= seq![value_term]);
    }
    Ok(out)
}

/// Reads a literal of the kind that the node announces.
fn parse_literal(expr: &[JsonValue]) -> (out: Option<Expr>)
    ensures
        match literal_of(models(expr@)) {
            Some(term) => out matches Some(e) && e@ == term,
            None => out is None,
        },
{
    if expr.len() > 1 {
        match &expr[1] {
            JsonValue::Num(n) => Some(Expr::Int(*n)),
            JsonValue::Str(s) => Some(Expr::Str(s.clone())),
            JsonValue::Boolean(b) => Some(Expr::Bool(*b)),
            _ => None,
        }
    } else {
        None
    }
}

/// Builds the expression that a node of the wire format holds.
pub fn parse_expr(expr: &[JsonValue]) -> (out: Result<Expr, CompileError>)
    ensures
        expr_agrees(out, expr_of(models(expr@))),
    decreases expr@, 2nat,
{
    let kind = match text_field(expr, 0) {
        Some(kind) => kind,
        None => { return Err(CompileError::SyntaxError); },
    };
    if str_eq(kind, "Int") {
        match parse_literal(expr) {
            Some(Expr::Int(n)) => Ok(Expr::Int(n)),
            _ => Err(CompileError::SyntaxError),
        }
    } else if str_eq(kind, "Str") {
        match parse_literal(expr) {
            Some(Expr::Str(s)) => Ok(Expr::Str(s)),
            _ => Err(CompileError::SyntaxError),
        }
    } else if str_eq(kind, "Bool") {
        match parse_literal(expr) {
            Some(Expr::Bool(b)) => Ok(Expr::Bool(b)),
            _ => Err(CompileError::SyntaxError),
        }
    } else if str_eq(kind, "Var") {
        parse_variable(expr)
    } else if str_eq(kind, "Binary") {
        parse_binary(expr)
    } else if str_eq(kind, "Let") {
        match parse_child(expr, 2) {
            Ok(value) => parse_let(expr, Box::new(value)),
            Err(failure) => Err(failure),
        }
    } else if str_eq(kind, "If") {
        parse_if(expr)
    } else if str_eq(kind, "Tuple") {
        parse_tuple(expr)
    } else if str_eq(kind, "Call") {
        parse_application(expr)
    } else if str_eq(kind, "Function") {
        parse_abstraction(expr)
    } else if str_eq(kind, "Print") {
        parse_native(expr, "print")
    } else if str_eq(kind, "First") {
        parse_native(expr, "first")
    } else if str_eq(kind, "Second") {
        parse_native(expr, "second")
    } else {
        Err(CompileError::SyntaxError)
    }
}

/// Reads a source file from its text: the JSON document is decoded and the
/// syntax tree built from it. Any text that is no document, or whose
/// document is no source file, is a syntax error.
pub fn parse(text: &str) -> (out: Result<File, CompileError>)
    ensures
        match parsed(text@) {
            Some((name, term)) => out matches Ok(file) && file.name@ == name && file.expr@
                == term,
            None => out matches Err(failure) && failure@ == Failure::SyntaxError,
        },
{
    let root = match run(text) {
        Ok((root, _)) => root,
        Err(failure) => { return Err(failure); },
    };
    match &root {
        JsonValue::Object(_) => {
            let values = root.extract_object();
            let name = match text_field(values.as_slice(), 0) {
                Some(name) => name.to_owned(),
                None => { return Err(CompileError::SyntaxError); },
            };
            match parse_child(values.as_slice(), 1) {
                Ok(expr) => Ok(File { name, expr }),
                Err(failure) => Err(failure),
            }
        },
        _ => Err(CompileError::SyntaxError),
    }
}

} // verus!
