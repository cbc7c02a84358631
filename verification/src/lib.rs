//! The front end of a small language: a lexer, a parser that builds an
//! abstract syntax tree, and a type checker that infers the types of the
//! tree.
use vstd::prelude::*;
use crate::typechecker::names::NameMap;

pub mod text;
pub mod lexer;
pub mod meta;
pub mod ast;
pub mod typed_ast;
pub mod typechecker;
pub mod parser;
pub mod signature;

verus! {

/// What the symbol table records of a name: its type and its scope.
#[derive(Debug)]
pub struct Symbol {
    type_: String,
    scope: String,
}

impl View for Symbol {
    type V = (Seq<char>, Seq<char>);

    closed spec fn view(&self) -> (Seq<char>, Seq<char>) {
        (self.type_@, self.scope@)
    }
}

impl Symbol {
    /// The symbol with the given type and scope.
    pub fn new(type_: String, scope: String) -> (r: Self)
        ensures
            r@ == (type_@, scope@),
    {
        Symbol { type_, scope }
    }
}

impl Clone for Symbol {
    fn clone(&self) -> (r: Self)
        ensures
            r@ == self@,
    {
        Symbol { type_: self.type_.clone(), scope: self.scope.clone() }
    }
}

/// A table from names to the symbols they stand for.
#[derive(Debug)]
pub struct SymbolTable {
    symbols: NameMap<Symbol>,
}

impl View for SymbolTable {
    type V = Map<Seq<char>, (Seq<char>, Seq<char>)>;

    closed spec fn view(&self) -> Map<Seq<char>, (Seq<char>, Seq<char>)> {
        self.symbols@.map_values(|s: Symbol| s@)
    }
}

impl SymbolTable {
    /// The empty table.
    pub fn new() -> (r: Self)
        ensures
            r@ == Map::<Seq<char>, (Seq<char>, Seq<char>)>::empty(),
    {
        let r = SymbolTable { symbols: NameMap::new() };
        assert(r@ =~= Map::<Seq<char>, (Seq<char>, Seq<char>)>::empty());
        r
    }

    /// Binds `name` to `symbol`, replacing an earlier binding; gives 0.
    pub fn insert(&mut self, name: String, symbol: Symbol) -> (r: i32)
        ensures
            r == 0,
            final(self)@ == old(self)@.insert(name@, symbol@),
    {
        let ghost k = name@;
        let ghost v = symbol@;
        self.symbols.insert(name, symbol);
        assert(self@ =~= old(self)@.insert(k, v));
        0
    }

    /// A copy of the symbol bound to `name`, if any.
    pub fn lookup(&mut self, name: String) -> (r: Option<Symbol>)
        ensures
            *final(self) == *old(self),
            r is Some <==> old(self)@.contains_key(name@),
            r matches Some(s) ==> s@ == old(self)@[name@],
    {
        match self.symbols.get(name.as_str()) {
            Some(s) => Some(s.clone()),
            None => None,
        }
    }
}

/// A lookup after an insert gives the symbol inserted under that name, and
/// what other names were bound to.
pub proof fn law_lookup_after_insert(
    table: Map<Seq<char>, (Seq<char>, Seq<char>)>,
    name: Seq<char>,
    symbol: (Seq<char>, Seq<char>),
    other: Seq<char>,
)
    ensures
        table.insert(name, symbol).contains_key(name),
        table.insert(name, symbol)[name] == symbol,
        other != name ==> table.insert(name, symbol).contains_key(other) == table.contains_key(other),
        other != name && table.contains_key(other) ==> table.insert(name, symbol)[other] == table[other],
{
}

} // verus!
