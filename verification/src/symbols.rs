//! The symbol table: a fixed table of builtins and one flat, mutable
//! mapping from source identifiers to the symbols of the generated program.

use vstd::prelude::*;
use vstd::hash_map::StringHashMap;
use crate::error::{emitted, refused, text_result_is, CompileError, Failure};

verus! {

/// `micromap::Map`, a map of at most `N` pairs kept in an array. Nothing of
/// its inside is known here; [`fixed_entries`] names what a table holds.
#[verifier::external_type_specification]
#[verifier::external_body]
#[verifier::reject_recursive_types(K)]
#[verifier::reject_recursive_types(V)]
pub struct ExFixedMap<K, V, const N: usize>(micromap::Map<K, V, N>);

/// What a table of three entries holds: each key with its value, as texts.
pub uninterp spec fn fixed_entries(table: micromap::Map<&'static str, &'static str, 3>) -> Map<
    Seq<char>,
    Seq<char>,
>;

/// No bindings at all.
pub open spec fn no_bindings() -> Map<Seq<char>, Seq<char>> {
    Map::empty()
}

/// The mapping that three pairs make when each is entered in turn.
pub open spec fn entries_in_order(entries: [(&'static str, &'static str); 3]) -> Map<
    Seq<char>,
    Seq<char>,
> {
    no_bindings().insert(entries[0].0@, entries[0].1@).insert(
        entries[1].0@,
        entries[1].1@,
    ).insert(entries[2].0@, entries[2].1@)
}

/// Builds the fixed table from its three entries.
///
/// Rests on `micromap::Map::from` for an array, which inserts the pairs in
/// order, a later pair replacing the value of an earlier one with an equal
/// key. With three pairs for three slots the table cannot overflow.
#[verifier::external_body]
fn fixed_table(entries: [(&'static str, &'static str); 3]) -> (table: micromap::Map<&'static str, &'static str, 3>)
    ensures
        fixed_entries(table) == entries_in_order(entries),
{
    micromap::Map::from(entries)
}

/// Looks a name up in the fixed table.
///
/// Rests on `micromap::Map::get`, which returns the value stored under a
/// key equal to the given one, or nothing where no key equals it.
#[verifier::external_body]
fn fixed_lookup(table: &micromap::Map<&'static str, &'static str, 3>, name: &str) -> (found: Option<&'static str>)
    ensures
        match found {
            Some(symbol) => fixed_entries(*table).contains_key(name@) && fixed_entries(
                *table,
            )[name@] == symbol@,
            None => !fixed_entries(*table).contains_key(name@),
        },
{
    table.get(name).copied()
}

/// The builtins: reserved source names with their runtime symbols.
pub open spec fn builtin_table() -> Map<Seq<char>, Seq<char>> {
    no_bindings().insert("print"@, "STD.print"@).insert(
        "first"@,
        "STD.first"@,
    ).insert("second"@, "STD.second"@)
}

/// The symbol that a call to `name` resolves to: a builtin wins over a user
/// binding of the same name.
pub open spec fn callee_symbol(bindings: Map<Seq<char>, Seq<char>>, name: Seq<char>) -> Result<
    Seq<char>,
    Failure,
> {
    if builtin_table().contains_key(name) {
        Ok(builtin_table()[name])
    } else if bindings.contains_key(name) {
        Ok(bindings[name])
    } else {
        Err(Failure::UnboundIdentifier(name))
    }
}

/// The symbol that a plain reference to `name` resolves to: user bindings
/// only.
pub open spec fn variable_symbol(bindings: Map<Seq<char>, Seq<char>>, name: Seq<char>) -> Result<
    Seq<char>,
    Failure,
> {
    if bindings.contains_key(name) {
        Ok(bindings[name])
    } else {
        Err(Failure::UnboundIdentifier(name))
    }
}

/// The symbol table. There is no scope stack: a binding made anywhere stays
/// visible for the rest of code generation, and the last write wins.
pub struct SymbolTable {
    builtins: micromap::Map<&'static str, &'static str, 3>,
    variables: StringHashMap<String>,
}

impl SymbolTable {
    /// The user bindings: each defined name with its symbol.
    pub closed spec fn bindings(&self) -> Map<Seq<char>, Seq<char>> {
        Map::new(
            |name: Seq<char>| self.variables@.contains_key(name),
            |name: Seq<char>| self.variables@[name]@,
        )
    }

    /// The table's invariant: its builtins are the fixed ones.
    pub closed spec fn wf(&self) -> bool {
        fixed_entries(self.builtins) == builtin_table()
    }

    /// A table with the builtins and no user binding.
    pub fn new() -> (table: Self)
        ensures
            table.wf(),
            table.bindings() == no_bindings(),
    {
        let builtins = fixed_table(
            [("print", "STD.print"), ("first", "STD.first"), ("second", "STD.second")],
        );
        let table = SymbolTable { builtins, variables: StringHashMap::new() };
        assert(table.bindings() =~= no_bindings());
        table
    }

    /// Binds `name` to `symbol`, replacing an earlier binding of `name`.
    pub fn define(&mut self, name: &str, symbol: &str)
        requires
            old(self).wf(),
        ensures
            final(self).wf(),
            final(self).bindings() == old(self).bindings().insert(name@, symbol@),
    {
        self.variables.insert(name.to_owned(), symbol.to_owned());
        assert(self.bindings() =~= old(self).bindings().insert(name@, symbol@));
    }

    /// Resolves the name of a called function: builtins first, then the
    /// user bindings.
    pub fn resolve_callee(&self, name: &str) -> (symbol: Result<String, CompileError>)
        requires
            self.wf(),
        ensures
            text_result_is(symbol, callee_symbol(self.bindings(), name@)),
    {
        match fixed_lookup(&self.builtins, name) {
            Some(builtin) => Ok(builtin.to_owned()),
            None => self.resolve_variable(name),
        }
    }

    /// Resolves a plain variable reference against the user bindings.
    pub fn resolve_variable(&self, name: &str) -> (symbol: Result<String, CompileError>)
        ensures
            text_result_is(symbol, variable_symbol(self.bindings(), name@)),
    {
        match self.variables.get(name) {
            Some(symbol) => Ok(symbol.clone()),
            None => Err(CompileError::UnboundIdentifier(name.to_owned())),
        }
    }
}

/// The builtins are `print`, `first` and `second`, each with its own
/// runtime symbol.
pub proof fn lemma_builtin_symbols()
    ensures
        builtin_table().dom() =~= set!["print"@, "first"@, "second"@],
        builtin_table()["print"@] == "STD.print"@,
        builtin_table()["first"@] == "STD.first"@,
        builtin_table()["second"@] == "STD.second"@,
{
    reveal_strlit("print");
    reveal_strlit("first");
    reveal_strlit("second");
    assert("print"@[0] != "first"@[0]);
    assert("print"@[0] != "second"@[0]);
    assert("first"@[0] != "second"@[0]);
}

/// A builtin cannot be shadowed at a call site: whatever the user bindings
/// hold, and whatever symbol a user binding gives the builtin's name, a call
/// of the name resolves to the builtin's symbol.
pub proof fn lemma_builtin_precedence(
    bindings: Map<Seq<char>, Seq<char>>,
    name: Seq<char>,
    symbol: Seq<char>,
)
    requires
        builtin_table().contains_key(name),
    ensures
        callee_symbol(bindings, name) == emitted(builtin_table()[name]),
        callee_symbol(bindings.insert(name, symbol), name) == callee_symbol(bindings, name),
{
}

/// A plain reference to a name that was never defined fails with that name,
/// builtin or not.
pub proof fn lemma_undefined_variable_fails(bindings: Map<Seq<char>, Seq<char>>, name: Seq<char>)
    requires
        !bindings.contains_key(name),
    ensures
        variable_symbol(bindings, name) == refused(
            Failure::UnboundIdentifier(name),
        ),
{
}

} // verus!
