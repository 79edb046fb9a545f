//! The syntax tree: identifiers, expressions and binary operators.

use vstd::prelude::*;
use crate::text::str_eq;

verus! {

/// A source identifier, compared by its text.
#[derive(Debug, Clone, PartialEq, Eq, Hash)]
pub struct Ident(pub String);

impl View for Ident {
    type V = Seq<char>;

    open spec fn view(&self) -> Seq<char> {
        self.0@
    }
}

impl From<String> for Ident {
    fn from(value: String) -> (ident: Self) {
        Ident(value)
    }
}

impl vstd::std_specs::convert::FromSpecImpl<String> for Ident {
    open spec fn obeys_from_spec() -> bool {
        true
    }

    open spec fn from_spec(value: String) -> Self {
        Ident(value)
    }
}

impl Ident {
    /// The identifier's text.
    pub fn val(&self) -> (text: &str)
        ensures
            text@ == self@,
    {
        self.0.as_str()
    }
}

/// The thirteen binary operators of the language.
#[derive(Debug, Clone, Copy, PartialEq, Eq, Structural)]
pub enum BinOp {
    Add,
    Sub,
    Mul,
    Div,
    Rem,
    Eq,
    Neq,
    Lt,
    Gt,
    Lte,
    Gte,
    And,
    Or,
}

/// The runtime symbol that a binary operator calls.
pub open spec fn operator_symbol(op: BinOp) -> Seq<char> {
    match op {
        BinOp::Add => "STD.add"@,
        BinOp::Sub => "STD.sub"@,
        BinOp::Mul => "STD.mul"@,
        BinOp::Div => "STD.div"@,
        BinOp::Rem => "STD.rem"@,
        BinOp::Eq => "STD.eq"@,
        BinOp::Neq => "STD.neq"@,
        BinOp::Lt => "STD.lt"@,
        BinOp::Gt => "STD.gt"@,
        BinOp::Lte => "STD.lte"@,
        BinOp::Gte => "STD.gte"@,
        BinOp::And => "STD.and"@,
        BinOp::Or => "STD.or"@,
    }
}

/// The operator that a name of the wire format stands for.
pub open spec fn operator_named(name: Seq<char>) -> Option<BinOp> {
    if name == "Add"@ {
        Some(BinOp::Add)
    } else if name == "Sub"@ {
        Some(BinOp::Sub)
    } else if name == "Mul"@ {
        Some(BinOp::Mul)
    } else if name == "Div"@ {
        Some(BinOp::Div)
    } else if name == "Rem"@ {
        Some(BinOp::Rem)
    } else if name == "Eq"@ {
        Some(BinOp::Eq)
    } else if name == "Neq"@ {
        Some(BinOp::Neq)
    } else if name == "Lt"@ {
        Some(BinOp::Lt)
    } else if name == "Gt"@ {
        Some(BinOp::Gt)
    } else if name == "Lte"@ {
        Some(BinOp::Lte)
    } else if name == "Gte"@ {
        Some(BinOp::Gte)
    } else if name == "And"@ {
        Some(BinOp::And)
    } else if name == "Or"@ {
        Some(BinOp::Or)
    } else {
        None
    }
}

impl BinOp {
    /// The operator with the given name, if there is one.
    pub fn from_name(name: &str) -> (op: Option<BinOp>)
        ensures
            op == operator_named(name@),
    {
        if str_eq(name, "Add") {
            Some(BinOp::Add)
        } else if str_eq(name, "Sub") {
            Some(BinOp::Sub)
        } else if str_eq(name, "Mul") {
            Some(BinOp::Mul)
        } else if str_eq(name, "Div") {
            Some(BinOp::Div)
        } else if str_eq(name, "Rem") {
            Some(BinOp::Rem)
        } else if str_eq(name, "Eq") {
            Some(BinOp::Eq)
        } else if str_eq(name, "Neq") {
            Some(BinOp::Neq)
        } else if str_eq(name, "Lt") {
            Some(BinOp::Lt)
        } else if str_eq(name, "Gt") {
            Some(BinOp::Gt)
        } else if str_eq(name, "Lte") {
            Some(BinOp::Lte)
        } else if str_eq(name, "Gte") {
            Some(BinOp::Gte)
        } else if str_eq(name, "And") {
            Some(BinOp::And)
        } else if str_eq(name, "Or") {
            Some(BinOp::Or)
        } else {
            None
        }
    }

    /// The runtime symbol that this operator calls.
    pub fn symbol(&self) -> (symbol: &'static str)
        ensures
            symbol@ == operator_symbol(*self),
    {
        match self {
            BinOp::Add => "STD.add",
            BinOp::Sub => "STD.sub",
            BinOp::Mul => "STD.mul",
            BinOp::Div => "STD.div",
            BinOp::Rem => "STD.rem",
            BinOp::Eq => "STD.eq",
            BinOp::Neq => "STD.neq",
            BinOp::Lt => "STD.lt",
            BinOp::Gt => "STD.gt",
            BinOp::Lte => "STD.lte",
            BinOp::Gte => "STD.gte",
            BinOp::And => "STD.and",
            BinOp::Or => "STD.or",
        }
    }
}

/// An expression of the language. Children are owned by their parent.
#[derive(Debug, PartialEq)]
#[allow(inconsistent_fields)]
pub enum Expr {
    Int(i32),
    Bool(bool),
    Str(String),
    Variable(Ident),
    Binary { lhs: Box<Expr>, op: BinOp, rhs: Box<Expr> },
    Let { name: Ident, value: Box<Expr>, next: Box<Expr> },
    If { condition: Box<Expr>, then: Box<Expr>, otherwise: Box<Expr> },
    Tuple(Box<Expr>, Box<Expr>),
    Application { callee: Box<Expr>, args: Vec<Expr> },
    Abstraction { args: Vec<Ident>, body: Box<Expr> },
}

/// The mathematical value of an expression: the same tree with texts as
/// character sequences and children as sequences.
#[allow(inconsistent_fields)]
pub enum Term {
    Int(i32),
    Bool(bool),
    Str(Seq<char>),
    Variable(Seq<char>),
    Binary { lhs: Box<Term>, op: BinOp, rhs: Box<Term> },
    Let { name: Seq<char>, value: Box<Term>, next: Box<Term> },
    If { condition: Box<Term>, then: Box<Term>, otherwise: Box<Term> },
    Tuple(Box<Term>, Box<Term>),
    Application { callee: Box<Term>, args: Seq<Term> },
    Abstraction { args: Seq<Seq<char>>, body: Box<Term> },
}

impl Expr {
    /// The term that this expression stands for.
    pub open spec fn term(self) -> Term
        decreases self,
    {
        match self {
            Expr::Int(i) => Term::Int(i),
            Expr::Bool(b) => Term::Bool(b),
            Expr::Str(s) => Term::Str(s@),
            Expr::Variable(v) => Term::Variable(v@),
            Expr::Binary { lhs, op, rhs } => Term::Binary {
                lhs: Box::new(lhs.term()),
                op,
                rhs: Box::new(rhs.term()),
            },
            Expr::Let { name, value, next } => Term::Let {
                name: name@,
                value: Box::new(value.term()),
                next: Box::new(next.term()),
            },
            Expr::If { condition, then, otherwise } => Term::If {
                condition: Box::new(condition.term()),
                then: Box::new(then.term()),
                otherwise: Box::new(otherwise.term()),
            },
            Expr::Tuple(first, second) => Term::Tuple(
                Box::new(first.term()),
                Box::new(second.term()),
            ),
            Expr::Application { callee, args } => Term::Application {
                callee: Box::new(callee.term()),
                args: Seq::new(
                    args@.len(),
                    |i: int|
                        if 0 <= i < args@.len() {
                            args@[i].term()
                        } else {
                            Term::Int(0)
                        },
                ),
            },
            Expr::Abstraction { args, body } => Term::Abstraction {
                args: Seq::new(args@.len(), |i: int| args@[i]@),
                body: Box::new(body.term()),
            },
        }
    }
}

impl View for Expr {
    type V = Term;

    open spec fn view(&self) -> Term {
        self.term()
    }
}

/// Copies of the expressions of a list, in order.
fn duplicate_all(exprs: &Vec<Expr>) -> (copies: Vec<Expr>)
    ensures
        copies@.len() == exprs@.len(),
        forall|k: int| 0 <= k < exprs@.len() ==> (#[trigger] copies@[k])@ == exprs@[k]@,
    decreases exprs,
{
    let mut copies: Vec<Expr> = Vec::new();
    let mut i: usize = 0;
    while i < exprs.len()
        invariant
            i <= exprs.len(),
            copies@.len() == i,
            forall|k: int| 0 <= k < i ==> (#[trigger] copies@[k])@ == exprs@[k]@,
        decreases exprs.len() - i,
    {
        copies.push(exprs[i].duplicate());
        i = i + 1;
    }
    copies
}

impl Expr {
    /// A copy of this expression.
    pub fn duplicate(&self) -> (copy: Expr)
        ensures
            copy@ == self@,
        decreases self,
    {
        match self {
            Expr::Int(i) => Expr::Int(*i),
            Expr::Bool(b) => Expr::Bool(*b),
            Expr::Str(s) => Expr::Str(s.clone()),
            Expr::Variable(v) => Expr::Variable(Ident(v.0.clone())),
            Expr::Binary { lhs, op, rhs } => Expr::Binary {
                lhs: Box::new(lhs.duplicate()),
                op: *op,
                rhs: Box::new(rhs.duplicate()),
            },
            Expr::Let { name, value, next } => Expr::Let {
                name: Ident(name.0.clone()),
                value: Box::new(value.duplicate()),
                next: Box::new(next.duplicate()),
            },
            Expr::If { condition, then, otherwise } => Expr::If {
                condition: Box::new(condition.duplicate()),
                then: Box::new(then.duplicate()),
                otherwise: Box::new(otherwise.duplicate()),
            },
            Expr::Tuple(first, second) => Expr::Tuple(
                Box::new(first.duplicate()),
                Box::new(second.duplicate()),
            ),
            Expr::Application { callee, args } => {
                let copies = duplicate_all(args);
                let copy = Expr::Application { callee: Box::new(callee.duplicate()), args: copies };
                proof {
                    assert(copy@->Application_args =~= self@->Application_args);
                }
                copy
            },
            Expr::Abstraction { args, body } => {
                let mut copies: Vec<Ident> = Vec::new();
                let mut i: usize = 0;
                while i < args.len()
                    invariant
                        i <= args.len(),
                        copies@.len() == i,
                        forall|k: int| 0 <= k < i ==> (#[trigger] copies@[k])@ == args@[k]@,
                    decreases args.len() - i,
                {
                    copies.push(Ident(args[i].0.clone()));
                    i = i + 1;
                }
                let copy = Expr::Abstraction { args: copies, body: Box::new(body.duplicate()) };
                proof {
                    assert(copy@->Abstraction_args =~= self@->Abstraction_args);
                }
                copy
            },
        }
    }
}

impl Clone for Expr {
    fn clone(&self) -> (copy: Self)
        ensures
            copy@ == self@,
    {
        self.duplicate()
    }
}

} // verus!
