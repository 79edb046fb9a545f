//! The lowering engine and the assembler.

use vstd::prelude::*;
use vstd::string::StringExecFns;
use crate::error::{emitted, text_result_is, CompileError};
use crate::expr::{BinOp, Expr, Ident, Term};
use crate::literal::{emit_bool, emit_int, emit_str};
use crate::lowering::{
    applied, binary_text, binding_text, call_text, closure_text, if_text, in_source_order,
    indirect_call_text, lowered, lowered_args, marked, pair_text, rule_text,
    rules_joined, sequenced, top_level, transpiled, with_functions, with_params, Scope,
};
use crate::naming::ToPascalCase;
use crate::symbols::{no_bindings, SymbolTable};
use crate::text::push_char;

verus! {

/// The names that a list of identifiers holds.
pub open spec fn names(params: Seq<Ident>) -> Seq<Seq<char>> {
    Seq::new(params.len(), |i: int| params[i]@)
}

/// Once lowering the arguments has failed, it has failed for every longer
/// run of them, in the same way.
proof fn lemma_args_failure_stays(args: Seq<Term>, failed: nat, count: nat, scope: Scope)
    requires
        lowered_args(args, failed, scope).text is Err,
        failed <= count <= args.len(),
    ensures
        lowered_args(args, count, scope) == lowered_args(args, failed, scope),
    decreases count,
{
    if count > failed {
        lemma_args_failure_stays(args, failed, (count - 1) as nat, scope);
    }
}

/// Writes each parameter with `mark` before it.
fn write_marked(params: &Vec<Ident>, mark: char) -> (text: String)
    ensures
        text@ == marked(names(params@), mark),
{
    let mut text = String::new();
    let mut i: usize = 0;
    while i < params.len()
        invariant
            i <= params.len(),
            text@ == marked(names(params@).take(i as int), mark),
        decreases params.len() - i,
    {
        push_char(&mut text, mark);
        text.append(params[i].val());
        proof {
            let upto = names(params@).take(i + 1);
            assert(upto.drop_last() =~= names(params@).take(i as int));
            assert(upto.last() == params@[i as int]@);
        }
        i = i + 1;
    }
    proof {
        assert(names(params@).take(i as int) =~= names(params@));
    }
    text
}

/// Binds each parameter to itself, in order.
fn bind_params(symbols: &mut SymbolTable, params: &Vec<Ident>)
    requires
        old(symbols).wf(),
    ensures
        final(symbols).wf(),
        final(symbols).bindings() == with_params(old(symbols).bindings(), names(params@)),
{
    let mut i: usize = 0;
    while i < params.len()
        invariant
            i <= params.len(),
            symbols.wf(),
            symbols.bindings() == with_params(
                old(symbols).bindings(),
                names(params@).take(i as int),
            ),
        decreases params.len() - i,
    {
        let name = params[i].val();
        symbols.define(name, name);
        proof {
            let upto = names(params@).take(i + 1);
            assert(upto.drop_last() =~= names(params@).take(i as int));
            assert(upto.last() == params@[i as int]@);
        }
        i = i + 1;
    }
    proof {
        assert(names(params@).take(i as int) =~= names(params@));
    }
}

/// Writes a binding of `name` to a lowered value.
fn write_binding(name: &str, value: &str) -> (text: String)
    ensures
        text@ == binding_text(name@, value@),
{
    let mut text = String::from_str("let ");
    text.append(name);
    text.append(" = ");
    text.append(value);
    text.append(";\n\t");
    text
}

/// Writes the call of an operator.
fn write_binary(op: BinOp, lhs: &str, rhs: &str) -> (text: String)
    ensures
        text@ == binary_text(op, lhs@, rhs@),
{
    let mut text = String::from_str("(");
    text.append(op.symbol());
    text.append(" ");
    text.append(lhs);
    text.append(" ");
    text.append(rhs);
    text.append(")");
    text
}

/// Writes the branch constructor.
fn write_if(condition: &str, then: &str, otherwise: &str) -> (text: String)
    ensures
        text@ == if_text(condition@, then@, otherwise@),
{
    let mut text = String::from_str("(STD.if (");
    text.append(condition);
    text.append(") (");
    text.append(then);
    text.append(") (");
    text.append(otherwise);
    text.append("))");
    text
}

/// Writes the pair constructor.
fn write_pair(first: &str, second: &str) -> (text: String)
    ensures
        text@ == pair_text(first@, second@),
{
    let mut text = String::from_str("(Pair ");
    text.append(first);
    text.append(" ");
    text.append(second);
    text.append(")");
    text
}

/// Writes a direct call.
fn write_call(symbol: &str, args: &str) -> (text: String)
    ensures
        text@ == call_text(symbol@, args@),
{
    let mut text = String::from_str("(");
    text.append(symbol);
    text.append(" ");
    text.append(args);
    text.append(")");
    text
}

/// Writes an indirect call.
fn write_indirect_call(callee: &str, args: &str) -> (text: String)
    ensures
        text@ == indirect_call_text(callee@, args@),
{
    let mut text = String::from_str("(STD.call (");
    text.append(callee);
    text.append(" ");
    text.append(args);
    text.append("))");
    text
}

/// Writes a closure.
fn write_closure(params: &Vec<Ident>, body: &str) -> (text: String)
    ensures
        text@ == closure_text(names(params@), body@),
{
    let mut text = String::from_str("(STD.closure ");
    let marks = write_marked(params, '@');
    text.append(marks.as_str());
    text.append("(");
    text.append(body);
    text.append("))");
    text
}

/// Writes a lifted rule.
fn write_rule(name: &str, params: &Vec<Ident>, body: &str) -> (text: String)
    ensures
        text@ == rule_text(name@, names(params@), body@),
{
    let mut text = String::from_str("(");
    text.append(name);
    let marks = write_marked(params, ' ');
    text.append(marks.as_str());
    text.append(") = (STD.closure (");
    text.append(body);
    text.append("))");
    text
}

/// The terms that a list of expressions stands for.
pub open spec fn terms(exprs: Seq<Expr>) -> Seq<Term> {
    Seq::new(exprs.len(), |i: int| exprs[i]@)
}

/// Lowers the arguments of an application from left to right and joins
/// their texts with spaces.
fn lower_args(symbols: &mut SymbolTable, args: &Vec<Expr>) -> (out: Result<String, CompileError>)
    requires
        old(symbols).wf(),
    ensures
        final(symbols).wf(),
        final(symbols).bindings() == lowered_args(
            terms(args@),
            args@.len(),
            old(symbols).bindings(),
        ).scope,
        text_result_is(
            out,
            lowered_args(terms(args@), args@.len(), old(symbols).bindings()).text,
        ),
    decreases args,
{
    let ghost before = symbols.bindings();
    let mut joined = String::new();
    let mut i: usize = 0;
    while i < args.len()
        invariant
            i <= args.len(),
            symbols.wf(),
            before == old(symbols).bindings(),
            lowered_args(terms(args@), i as nat, before).text == emitted(
                joined@,
            ),
            lowered_args(terms(args@), i as nat, before).scope == symbols.bindings(),
        decreases args.len() - i,
    {
        let text = match lower_nested(symbols, &args[i]) {
            Ok(text) => text,
            Err(failure) => {
                proof {
                    lemma_args_failure_stays(
                        terms(args@),
                        (i + 1) as nat,
                        args@.len(),
                        before,
                    );
                }
                return Err(failure);
            },
        };
        if i > 0 {
            joined.append(" ");
        }
        joined.append(text.as_str());
        i = i + 1;
    }
    Ok(joined)
}

/// Lowers an application whose arguments are lowered already.
fn lower_applied(symbols: &mut SymbolTable, callee: &Expr, args: &str) -> (out: Result<
    String,
    CompileError,
>)
    requires
        old(symbols).wf(),
    ensures
        final(symbols).wf(),
        final(symbols).bindings() == applied(callee@, args@, old(symbols).bindings()).scope,
        text_result_is(out, applied(callee@, args@, old(symbols).bindings()).text),
    decreases callee, 1nat,
{
    match callee {
        Expr::Variable(name) => {
            match symbols.resolve_callee(name.val()) {
                Ok(symbol) => Ok(write_call(symbol.as_str(), args)),
                Err(failure) => Err(failure),
            }
        },
        _ => {
            match lower_nested(symbols, callee) {
                Ok(function) => Ok(write_indirect_call(function.as_str(), args)),
                Err(failure) => Err(failure),
            }
        },
    }
}

/// Lowers an expression in a nested position.
fn lower_nested(symbols: &mut SymbolTable, expr: &Expr) -> (out: Result<String, CompileError>)
    requires
        old(symbols).wf(),
    ensures
        final(symbols).wf(),
        final(symbols).bindings() == lowered(expr@, old(symbols).bindings()).scope,
        text_result_is(out, lowered(expr@, old(symbols).bindings()).text),
    decreases expr, 0nat,
{
    match expr {
        Expr::Int(value) => Ok(emit_int(*value)),
        Expr::Bool(value) => Ok(emit_bool(*value)),
        Expr::Str(text) => Ok(emit_str(text.as_str())),
        Expr::Variable(name) => symbols.resolve_variable(name.val()),
        Expr::Binary { lhs, op, rhs } => {
            let left = match lower_nested(symbols, lhs) {
                Ok(text) => text,
                Err(failure) => { return Err(failure); },
            };
            let right = match lower_nested(symbols, rhs) {
                Ok(text) => text,
                Err(failure) => { return Err(failure); },
            };
            Ok(write_binary(*op, left.as_str(), right.as_str()))
        },
        Expr::If { condition, then, otherwise } => {
            let first = match lower_nested(symbols, condition) {
                Ok(text) => text,
                Err(failure) => { return Err(failure); },
            };
            let second = match lower_nested(symbols, then) {
                Ok(text) => text,
                Err(failure) => { return Err(failure); },
            };
            let third = match lower_nested(symbols, otherwise) {
                Ok(text) => text,
                Err(failure) => { return Err(failure); },
            };
            Ok(write_if(first.as_str(), second.as_str(), third.as_str()))
        },
        Expr::Let { name, value, next } => {
            symbols.define(name.val(), name.val());
            let bound = match lower_nested(symbols, value) {
                Ok(text) => text,
                Err(failure) => { return Err(failure); },
            };
            let rest = match lower_nested(symbols, next) {
                Ok(text) => text,
                Err(failure) => { return Err(failure); },
            };
            let mut text = write_binding(name.val(), bound.as_str());
            text.append(rest.as_str());
            Ok(text)
        },
        Expr::Tuple(first, second) => {
            let left = match lower_nested(symbols, first) {
                Ok(text) => text,
                Err(failure) => { return Err(failure); },
            };
            let right = match lower_nested(symbols, second) {
                Ok(text) => text,
                Err(failure) => { return Err(failure); },
            };
            Ok(write_pair(left.as_str(), right.as_str()))
        },
        Expr::Application { callee, args } => {
            proof {
                assert(expr@->Application_args =~= terms(args@));
            }
            let joined = match lower_args(symbols, args) {
                Ok(text) => text,
                Err(failure) => { return Err(failure); },
            };
            lower_applied(symbols, callee, joined.as_str())
        },
        Expr::Abstraction { args, body } => {
            proof {
                assert(expr@->Abstraction_args =~= names(args@));
            }
            bind_params(symbols, args);
            match lower_nested(symbols, body) {
                Ok(inner) => Ok(write_closure(args, inner.as_str())),
                Err(failure) => Err(failure),
            }
        },
    }
}

/// Whether an expression is a function.
fn is_function(expr: &Expr) -> (yes: bool)
    ensures
        yes == (expr@ is Abstraction),
{
    match expr {
        Expr::Abstraction { .. } => true,
        _ => false,
    }
}

/// Binds every function of the chain of top-level bindings to its
/// PascalCase.
fn define_functions(symbols: &mut SymbolTable, expr: &Expr)
    requires
        old(symbols).wf(),
    ensures
        final(symbols).wf(),
        final(symbols).bindings() == with_functions(expr@, old(symbols).bindings()),
    decreases expr,
{
    match expr {
        Expr::Let { name, value, next } => {
            if is_function(value) {
                let rule_name = ToPascalCase(name.0.clone());
                symbols.define(name.val(), rule_name.as_str());
            }
            define_functions(symbols, next);
        },
        _ => {},
    }
}

/// The texts that a list of strings holds.
pub open spec fn texts(strings: Seq<String>) -> Seq<Seq<char>> {
    Seq::new(strings.len(), |i: int| strings[i]@)
}

/// Writes a rule followed by the rules that come after it.
fn write_rules(rule: String, later: &str) -> (text: String)
    ensures
        text@ == rules_joined(rule@, later@),
{
    if later.is_empty() {
        rule
    } else {
        let mut text = rule;
        text.append("\n");
        text.append(later);
        text
    }
}

/// Writes the statements from the last to the first.
fn write_in_source_order(statements: &Vec<String>) -> (text: String)
    ensures
        text@ == in_source_order(texts(statements@)),
{
    let mut text = String::new();
    let mut left: usize = statements.len();
    proof {
        assert(texts(statements@).take(left as int) =~= texts(statements@));
        assert(text@ + in_source_order(texts(statements@)) =~= in_source_order(
            texts(statements@),
        ));
    }
    while left > 0
        invariant
            left <= statements.len(),
            text@ + in_source_order(texts(statements@).take(left as int)) == in_source_order(
                texts(statements@),
            ),
        decreases left,
    {
        let ghost written = text@;
        let ghost upto = texts(statements@).take(left as int);
        left = left - 1;
        text.append(statements[left].as_str());
        proof {
            assert(upto.drop_last() =~= texts(statements@).take(left as int));
            assert(upto.last() == statements@[left as int]@);
            assert(written + upto.last() + in_source_order(upto.drop_last()) =~= written + (
            upto.last() + in_source_order(upto.drop_last())));
        }
    }
    proof {
        assert(text@ + in_source_order(texts(statements@).take(0)) =~= text@);
    }
    text
}

/// The code generator: the symbol table and the statements gathered for the
/// entry rule.
pub struct Codegen {
    main_func: Vec<String>,
    symbols: SymbolTable,
}

impl Codegen {
    /// The statements gathered for the entry rule, in the order of
    /// discovery.
    pub closed spec fn statements(&self) -> Seq<Seq<char>> {
        texts(self.main_func@)
    }

    /// The user bindings.
    pub closed spec fn bindings(&self) -> Scope {
        self.symbols.bindings()
    }

    /// The generator's invariant: its symbol table is well formed.
    pub closed spec fn wf(&self) -> bool {
        self.symbols.wf()
    }

    /// A generator with the builtins, no user binding and no statement.
    pub fn new() -> (generator: Self)
        ensures
            generator.wf(),
            generator.bindings() == no_bindings(),
            generator.statements() == Seq::<Seq<char>>::empty(),
    {
        let generator = Codegen { main_func: Vec::new(), symbols: SymbolTable::new() };
        assert(generator.statements() =~= Seq::<Seq<char>>::empty());
        generator
    }

    /// Adds a statement to the entry rule.
    fn push_statement(&mut self, statement: String)
        requires
            old(self).wf(),
        ensures
            final(self).wf(),
            final(self).bindings() == old(self).bindings(),
            final(self).statements() == old(self).statements().push(statement@),
    {
        self.main_func.push(statement);
        assert(self.statements() =~= old(self).statements().push(statement@));
    }

    /// Lowers the chain of top-level bindings.
    fn lower_top(&mut self, expr: &Expr) -> (out: Result<String, CompileError>)
        requires
            old(self).wf(),
        ensures
            final(self).wf(),
            final(self).bindings() == sequenced(
                expr@,
                old(self).bindings(),
                old(self).statements(),
            ).scope,
            final(self).statements() == sequenced(
                expr@,
                old(self).bindings(),
                old(self).statements(),
            ).statements,
            text_result_is(
                out,
                sequenced(expr@, old(self).bindings(), old(self).statements()).rules,
            ),
        decreases expr,
    {
        match expr {
            Expr::Let { name, value, next } => match &**value {
                Expr::Abstraction { args, body } => {
                    proof {
                        assert(value@->Abstraction_args =~= names(args@));
                    }
                    let rule_name = ToPascalCase(name.0.clone());
                    self.symbols.define(name.val(), rule_name.as_str());
                    bind_params(&mut self.symbols, args);
                    let inner = match lower_nested(&mut self.symbols, body) {
                        Ok(text) => text,
                        Err(failure) => { return Err(failure); },
                    };
                    let later = match self.lower_top(next) {
                        Ok(text) => text,
                        Err(failure) => { return Err(failure); },
                    };
                    let rule = write_rule(rule_name.as_str(), args, inner.as_str());
                    Ok(write_rules(rule, later.as_str()))
                },
                _ => {
                    self.symbols.define(name.val(), name.val());
                    let later = match self.lower_top(next) {
                        Ok(text) => text,
                        Err(failure) => { return Err(failure); },
                    };
                    let bound = match lower_nested(&mut self.symbols, value) {
                        Ok(text) => text,
                        Err(failure) => { return Err(failure); },
                    };
                    self.push_statement(write_binding(name.val(), bound.as_str()));
                    Ok(later)
                },
            },
            Expr::Abstraction { .. } => Err(CompileError::UnsupportedTerminal),
            _ => {
                let last = match lower_nested(&mut self.symbols, expr) {
                    Ok(text) => text,
                    Err(failure) => { return Err(failure); },
                };
                self.push_statement(last);
                Ok(String::new())
            },
        }
    }

    /// Lowers one expression. At depth 0 the expression is the chain of
    /// top-level bindings: its functions are bound first, the result is the
    /// text of the lifted rules, and the statements of the entry rule are
    /// gathered. At any other depth
    /// the expression is nested: the result is its term, and no statement
    /// is added.
    pub fn transpile_expr(&mut self, expr: Expr, depth: usize) -> (out: Result<
        String,
        CompileError,
    >)
        requires
            old(self).wf(),
        ensures
            final(self).wf(),
            depth == 0 ==> {
                let top = top_level(expr@, old(self).bindings(), old(self).statements());
                &&& text_result_is(out, top.rules)
                &&& final(self).bindings() == top.scope
                &&& final(self).statements() == top.statements
            },
            depth > 0 ==> {
                let nested = lowered(expr@, old(self).bindings());
                &&& text_result_is(out, nested.text)
                &&& final(self).bindings() == nested.scope
                &&& final(self).statements() == old(self).statements()
            },
    {
        if depth == 0 {
            define_functions(&mut self.symbols, &expr);
            self.lower_top(&expr)
        } else {
            lower_nested(&mut self.symbols, &expr)
        }
    }

    /// Compiles a program: binds the functions of the top-level chain,
    /// lowers the chain and assembles the lifted rules, the prelude and the
    /// entry rule.
    pub fn transpile(self, expr: Expr, prelude: &str) -> (out: Result<String, CompileError>)
        requires
            self.wf(),
        ensures
            text_result_is(
                out,
                transpiled(expr@, self.bindings(), self.statements(), prelude@),
            ),
    {
        let mut generator = self;
        define_functions(&mut generator.symbols, &expr);
        let rules = match generator.lower_top(&expr) {
            Ok(text) => text,
            Err(failure) => { return Err(failure); },
        };
        let mut code = rules;
        code.append("\n");
        code.append(prelude);
        code.append("(Main) = (");
        let body = write_in_source_order(&generator.main_func);
        code.append(body.as_str());
        code.append(")");
        Ok(code)
    }
}

} // verus!
