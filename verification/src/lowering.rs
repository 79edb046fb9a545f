//! What lowering means: the text that each expression becomes, the bindings
//! it leaves behind and the statements it adds to the entry rule.
//!
//! Lowering walks a tree once, in a fixed order, against one flat table of
//! bindings. Every function here returns the bindings as they stand after
//! the walk, or at the point where the walk failed.

use vstd::prelude::*;
use crate::error::{emitted, refused, Failure};
use crate::expr::{operator_symbol, BinOp, Term};
use crate::literal::{bool_literal, int_literal, str_literal};
use crate::naming::pascal_case;
use crate::symbols::{builtin_table, callee_symbol, lemma_builtin_symbols, variable_symbol};

verus! {

/// The user bindings of a symbol table.
pub type Scope = Map<Seq<char>, Seq<char>>;

/// The outcome of lowering in a nested position.
pub struct Lowered {
    /// The expression's text, or the first failure.
    pub text: Result<Seq<char>, Failure>,
    /// The bindings afterwards.
    pub scope: Scope,
}

/// The outcome of lowering at the top level.
pub struct Sequenced {
    /// The text of the rules that were lifted, or the first failure.
    pub rules: Result<Seq<char>, Failure>,
    /// The bindings afterwards.
    pub scope: Scope,
    /// The statements of the entry rule, in the order of discovery: the
    /// program's last action first.
    pub statements: Seq<Seq<char>>,
}

/// A call of an operator on two lowered operands.
pub open spec fn binary_text(op: BinOp, lhs: Seq<char>, rhs: Seq<char>) -> Seq<char> {
    "("@ + operator_symbol(op) + " "@ + lhs + " "@ + rhs + ")"@
}

/// The branch constructor on three lowered operands.
pub open spec fn if_text(condition: Seq<char>, then: Seq<char>, otherwise: Seq<char>) -> Seq<
    char,
> {
    "(STD.if ("@ + condition + ") ("@ + then + ") ("@ + otherwise + "))"@
}

/// The pair constructor on two lowered operands.
pub open spec fn pair_text(first: Seq<char>, second: Seq<char>) -> Seq<char> {
    "(Pair "@ + first + " "@ + second + ")"@
}

/// A binding followed by what it scopes over.
pub open spec fn binding_text(name: Seq<char>, value: Seq<char>) -> Seq<char> {
    "let "@ + name + " = "@ + value + ";\n\t"@
}

/// A direct call of a resolved symbol.
pub open spec fn call_text(symbol: Seq<char>, args: Seq<char>) -> Seq<char> {
    "("@ + symbol + " "@ + args + ")"@
}

/// A call of a computed function value.
pub open spec fn indirect_call_text(callee: Seq<char>, args: Seq<char>) -> Seq<char> {
    "(STD.call ("@ + callee + " "@ + args + "))"@
}

/// Each parameter with `mark` before it, in order.
pub open spec fn marked(params: Seq<Seq<char>>, mark: char) -> Seq<char>
    decreases params.len(),
{
    if params.len() == 0 {
        Seq::<char>::empty()
    } else {
        marked(params.drop_last(), mark).push(mark) + params.last()
    }
}

/// A closure: its parameters, each behind `@`, then its lowered body.
pub open spec fn closure_text(params: Seq<Seq<char>>, body: Seq<char>) -> Seq<char> {
    "(STD.closure "@ + marked(params, '@') + "("@ + body + "))"@
}

/// A lifted rule: its name and parameters, then its lowered body.
pub open spec fn rule_text(name: Seq<char>, params: Seq<Seq<char>>, body: Seq<char>) -> Seq<
    char,
> {
    "("@ + name + marked(params, ' ') + ") = (STD.closure ("@ + body + "))"@
}

/// A rule followed by the rules that come after it.
pub open spec fn rules_joined(rule: Seq<char>, later: Seq<char>) -> Seq<char> {
    if later.len() == 0 {
        rule
    } else {
        rule + "\n"@ + later
    }
}

/// The bindings after each parameter was bound to itself, in order.
pub open spec fn with_params(scope: Scope, params: Seq<Seq<char>>) -> Scope
    decreases params.len(),
{
    if params.len() == 0 {
        scope
    } else {
        with_params(scope, params.drop_last()).insert(params.last(), params.last())
    }
}

/// The text of an application once its arguments are lowered: a bare
/// identifier is resolved and called directly, builtins first; any other
/// callee is lowered itself and called indirectly.
pub open spec fn applied(callee: Term, args: Seq<char>, scope: Scope) -> Lowered
    decreases callee, 1nat,
{
    match callee {
        Term::Variable(name) => match callee_symbol(scope, name) {
            Ok(symbol) => Lowered { text: Ok(call_text(symbol, args)), scope },
            Err(failure) => Lowered { text: Err(failure), scope },
        },
        _ => {
            let function = lowered(callee, scope);
            match function.text {
                Ok(text) => Lowered {
                    text: Ok(indirect_call_text(text, args)),
                    scope: function.scope,
                },
                Err(_) => function,
            }
        },
    }
}

/// The first `count` arguments lowered from left to right, their texts
/// separated by one space.
pub open spec fn lowered_args(args: Seq<Term>, count: nat, scope: Scope) -> Lowered
    decreases args, count,
{
    if count == 0 || count > args.len() {
        Lowered { text: Ok(Seq::<char>::empty()), scope }
    } else {
        let before = lowered_args(args, (count - 1) as nat, scope);
        match before.text {
            Ok(texts) => {
                let last = lowered(args[count - 1], before.scope);
                match last.text {
                    Ok(text) => Lowered {
                        text: Ok(
                            if count == 1 {
                                text
                            } else {
                                texts + " "@ + text
                            },
                        ),
                        scope: last.scope,
                    },
                    Err(_) => last,
                }
            },
            Err(_) => before,
        }
    }
}

/// Lowering in a nested position: the expression becomes one term of the
/// runtime. Operands are lowered from left to right. A binding registers
/// its name before its value is lowered; an application lowers its
/// arguments before it looks at its callee.
pub open spec fn lowered(term: Term, scope: Scope) -> Lowered
    decreases term, 0nat,
{
    match term {
        Term::Int(value) => Lowered { text: Ok(int_literal(value)), scope },
        Term::Bool(value) => Lowered { text: Ok(bool_literal(value)), scope },
        Term::Str(text) => Lowered { text: Ok(str_literal(text)), scope },
        Term::Variable(name) => Lowered { text: variable_symbol(scope, name), scope },
        Term::Binary { lhs, op, rhs } => {
            let left = lowered(*lhs, scope);
            match left.text {
                Ok(left_text) => {
                    let right = lowered(*rhs, left.scope);
                    match right.text {
                        Ok(right_text) => Lowered {
                            text: Ok(binary_text(op, left_text, right_text)),
                            scope: right.scope,
                        },
                        Err(_) => right,
                    }
                },
                Err(_) => left,
            }
        },
        Term::If { condition, then, otherwise } => {
            let first = lowered(*condition, scope);
            match first.text {
                Ok(condition_text) => {
                    let second = lowered(*then, first.scope);
                    match second.text {
                        Ok(then_text) => {
                            let third = lowered(*otherwise, second.scope);
                            match third.text {
                                Ok(otherwise_text) => Lowered {
                                    text: Ok(if_text(condition_text, then_text, otherwise_text)),
                                    scope: third.scope,
                                },
                                Err(_) => third,
                            }
                        },
                        Err(_) => second,
                    }
                },
                Err(_) => first,
            }
        },
        Term::Let { name, value, next } => {
            let bound = lowered(*value, scope.insert(name, name));
            match bound.text {
                Ok(value_text) => {
                    let rest = lowered(*next, bound.scope);
                    match rest.text {
                        Ok(next_text) => Lowered {
                            text: Ok(binding_text(name, value_text) + next_text),
                            scope: rest.scope,
                        },
                        Err(_) => rest,
                    }
                },
                Err(_) => bound,
            }
        },
        Term::Tuple(first, second) => {
            let left = lowered(*first, scope);
            match left.text {
                Ok(left_text) => {
                    let right = lowered(*second, left.scope);
                    match right.text {
                        Ok(right_text) => Lowered {
                            text: Ok(pair_text(left_text, right_text)),
                            scope: right.scope,
                        },
                        Err(_) => right,
                    }
                },
                Err(_) => left,
            }
        },
        Term::Application { callee, args } => {
            let arguments = lowered_args(args, args.len(), scope);
            match arguments.text {
                Ok(args_text) => applied(*callee, args_text, arguments.scope),
                Err(_) => arguments,
            }
        },
        Term::Abstraction { args, body } => {
            let inner = lowered(*body, with_params(scope, args));
            match inner.text {
                Ok(body_text) => Lowered {
                    text: Ok(closure_text(args, body_text)),
                    scope: inner.scope,
                },
                Err(_) => inner,
            }
        },
    }
}

/// Whether an expression may end the chain of top-level bindings.
pub open spec fn is_terminal(term: Term) -> bool {
    !(term is Let) && !(term is Abstraction)
}

/// Whether the chain of top-level bindings binds a function under `name`.
pub open spec fn binds_function(term: Term, name: Seq<char>) -> bool
    decreases term,
{
    match term {
        Term::Let { name: bound, value, next } => (*value is Abstraction && bound == name)
            || binds_function(*next, name),
        _ => false,
    }
}

/// The bindings after every function of the chain of top-level bindings was
/// bound to its PascalCase, in the order of the chain. No other binding of
/// the chain is made here.
pub open spec fn with_functions(term: Term, scope: Scope) -> Scope
    decreases term,
{
    match term {
        Term::Let { name, value, next } => if *value is Abstraction {
            with_functions(*next, scope.insert(name, pascal_case(name)))
        } else {
            with_functions(*next, scope)
        },
        _ => scope,
    }
}

/// Lowering along the chain of top-level bindings, against bindings that
/// hold the chain's functions already.
///
/// A binding of a function is lifted into a rule: the name is bound to its
/// PascalCase and the parameters to themselves before the body is lowered,
/// and the rules of what follows come after it. Any other binding binds the
/// name to itself and becomes a statement of the entry rule; what follows it
/// is lowered first, and its own value after that, against the bindings as
/// they then stand. The expression that ends the chain becomes the entry
/// rule's last statement; a function cannot end it.
pub open spec fn sequenced(term: Term, scope: Scope, statements: Seq<Seq<char>>) -> Sequenced
    decreases term,
{
    match term {
        Term::Let { name, value, next } => match *value {
            Term::Abstraction { args, body } => {
                let inner = lowered(
                    *body,
                    with_params(scope.insert(name, pascal_case(name)), args),
                );
                match inner.text {
                    Ok(body_text) => {
                        let rest = sequenced(*next, inner.scope, statements);
                        match rest.rules {
                            Ok(later) => Sequenced {
                                rules: Ok(
                                    rules_joined(
                                        rule_text(pascal_case(name), args, body_text),
                                        later,
                                    ),
                                ),
                                scope: rest.scope,
                                statements: rest.statements,
                            },
                            Err(_) => rest,
                        }
                    },
                    Err(failure) => Sequenced {
                        rules: Err(failure),
                        scope: inner.scope,
                        statements,
                    },
                }
            },
            _ => {
                let rest = sequenced(*next, scope.insert(name, name), statements);
                match rest.rules {
                    Ok(later) => {
                        let bound = lowered(*value, rest.scope);
                        match bound.text {
                            Ok(value_text) => Sequenced {
                                rules: Ok(later),
                                scope: bound.scope,
                                statements: rest.statements.push(binding_text(name, value_text)),
                            },
                            Err(failure) => Sequenced {
                                rules: Err(failure),
                                scope: bound.scope,
                                statements: rest.statements,
                            },
                        }
                    },
                    Err(_) => rest,
                }
            },
        },
        _ => if is_terminal(term) {
            let last = lowered(term, scope);
            match last.text {
                Ok(text) => Sequenced {
                    rules: Ok(Seq::<char>::empty()),
                    scope: last.scope,
                    statements: statements.push(text),
                },
                Err(failure) => Sequenced { rules: Err(failure), scope: last.scope, statements },
            }
        } else {
            Sequenced { rules: Err(Failure::UnsupportedTerminal), scope, statements }
        },
    }
}

/// Lowering at the top level: the functions of the chain of bindings are
/// bound first, all of them, so that each can call itself and every other,
/// whatever their order; then the chain is lowered.
pub open spec fn top_level(term: Term, scope: Scope, statements: Seq<Seq<char>>) -> Sequenced {
    sequenced(term, with_functions(term, scope), statements)
}

/// The statements from the last discovered to the first, one after the
/// other: the order of the source.
pub open spec fn in_source_order(statements: Seq<Seq<char>>) -> Seq<char>
    decreases statements.len(),
{
    if statements.len() == 0 {
        Seq::<char>::empty()
    } else {
        statements.last() + in_source_order(statements.drop_last())
    }
}

/// The assembled program: the lifted rules, a line break, the prelude as it
/// is, and the entry rule with its statements in the order of the source.
pub open spec fn program_text(rules: Seq<char>, prelude: Seq<char>, statements: Seq<Seq<char>>) -> Seq<
    char,
> {
    rules + "\n"@ + prelude + "(Main) = ("@ + in_source_order(statements) + ")"@
}

/// The program that an expression compiles to, or the first failure.
pub open spec fn transpiled(
    term: Term,
    scope: Scope,
    statements: Seq<Seq<char>>,
    prelude: Seq<char>,
) -> Result<Seq<char>, Failure> {
    let top = top_level(term, scope, statements);
    match top.rules {
        Ok(rules) => Ok(program_text(rules, prelude, top.statements)),
        Err(failure) => Err(failure),
    }
}

/// A call of `print` always emits the builtin's symbol: with the arguments
/// lowered to `text`, the call is `(STD.print text)` in every scope, also
/// in one that binds `print` to something else.
pub proof fn lemma_print_calls_builtin(args: Seq<Term>, scope: Scope)
    ensures
        ({
            let arguments = lowered_args(args, args.len(), scope);
            let call = lowered(
                Term::Application { callee: Box::new(Term::Variable("print"@)), args },
                scope,
            );
            match arguments.text {
                Ok(text) => call.text == emitted(call_text("STD.print"@, text))
                    && call.scope == arguments.scope,
                Err(_) => call == arguments,
            }
        }),
{
    lemma_builtin_symbols();
    let arguments = lowered_args(args, args.len(), scope);
    assert(builtin_table().dom().contains("print"@));
    if let Ok(text) = arguments.text {
        assert(applied(Term::Variable("print"@), text, arguments.scope).text == emitted(call_text("STD.print"@, text)));
    }
}

/// Lowering a reference to a variable that no binding defines fails with
/// that variable's name, and yields no text.
pub proof fn lemma_unbound_variable_fails(name: Seq<char>, scope: Scope)
    requires
        !scope.contains_key(name),
    ensures
        lowered(Term::Variable(name), scope).text == refused(
            Failure::UnboundIdentifier(name),
        ),
        lowered(Term::Variable(name), scope).scope == scope,
{
}

/// A pair lowers its first component before its second, and wraps both in
/// the pair constructor.
pub proof fn lemma_pair_order(first: Term, second: Term, scope: Scope)
    ensures
        ({
            let left = lowered(first, scope);
            let right = lowered(second, left.scope);
            let pair = lowered(Term::Tuple(Box::new(first), Box::new(second)), scope);
            match (left.text, right.text) {
                (Ok(left_text), Ok(right_text)) => pair.text == emitted(
                    pair_text(left_text, right_text),
                ),
                (Ok(_), Err(_)) => pair == right,
                (Err(_), _) => pair == left,
            }
        }),
{
}

/// Binding the functions of a chain leaves a name as it was unless the
/// chain binds a function under it.
pub proof fn lemma_other_names_are_kept(term: Term, scope: Scope, name: Seq<char>)
    requires
        !binds_function(term, name),
    ensures
        with_functions(term, scope).contains_key(name) == scope.contains_key(name),
        scope.contains_key(name) ==> with_functions(term, scope)[name] == scope[name],
    decreases term,
{
    if let Term::Let { name: bound, value, next } = term {
        if *value is Abstraction {
            lemma_other_names_are_kept(*next, scope.insert(bound, pascal_case(bound)), name);
        } else {
            lemma_other_names_are_kept(*next, scope, name);
        }
    }
}

/// Before any body of the chain is lowered, every function that the chain
/// binds is bound to its PascalCase, whatever the bindings held before: a
/// function can call one that is bound after it.
pub proof fn lemma_functions_are_bound(term: Term, scope: Scope, name: Seq<char>)
    requires
        binds_function(term, name),
    ensures
        with_functions(term, scope).contains_key(name),
        with_functions(term, scope)[name] == pascal_case(name),
        callee_symbol(with_functions(term, scope), name) is Ok,
    decreases term,
{
    if let Term::Let { name: bound, value, next } = term {
        let here = *value is Abstraction && bound == name;
        let after = if *value is Abstraction {
            scope.insert(bound, pascal_case(bound))
        } else {
            scope
        };
        if binds_function(*next, name) {
            lemma_functions_are_bound(*next, after, name);
        } else {
            assert(here);
            lemma_other_names_are_kept(*next, after, name);
        }
    }
}

} // verus!
