//! The symbol table: a compile-time mapping from identifier to a resolved
//! constant or instruction index.
//!
//! It is populated by data declarations (literal constants) and code
//! labels (resolved instruction indices), and read by the opcode
//! resolvers. A later binding with the same name silently overwrites the
//! earlier one (last write wins); no duplicate-definition error is raised.
//! The view of a table is the [`Map`] from identifier characters to bound
//! symbol it denotes.

use vstd::prelude::*;

use crate::text::str_eq;

verus! {

/// What a name can be bound to.
#[derive(Debug)]
pub enum SymbolType {
    /// A code label, resolved to an instruction index.
    Label(usize),
    /// A literal integer constant.
    Integer(i32),
    /// A literal string constant.
    String(String),
}

/// The mathematical value of a binding.
pub enum SymbolTypeV {
    Label(usize),
    Integer(i32),
    String(Seq<char>),
}

impl View for SymbolType {
    type V = SymbolTypeV;

    open spec fn view(&self) -> SymbolTypeV {
        match self {
            SymbolType::Label(o) => SymbolTypeV::Label(*o),
            SymbolType::Integer(v) => SymbolTypeV::Integer(*v),
            SymbolType::String(s) => SymbolTypeV::String(s@),
        }
    }
}

impl Clone for SymbolType {
    /// A clone denotes the same symbol.
    fn clone(&self) -> (r: Self)
        ensures
            r@ == self@,
    {
        match self {
            SymbolType::Label(o) => SymbolType::Label(*o),
            SymbolType::Integer(v) => SymbolType::Integer(*v),
            SymbolType::String(s) => SymbolType::String(s.clone()),
        }
    }
}

/// One table entry: the bound symbol.
#[derive(Debug)]
pub struct Symbol {
    pub stype: SymbolType,
}

impl Clone for Symbol {
    /// A clone denotes the same symbol.
    fn clone(&self) -> (r: Self)
        ensures
            r@ == self@,
    {
        Symbol { stype: self.stype.clone() }
    }
}

impl View for Symbol {
    type V = SymbolTypeV;

    open spec fn view(&self) -> SymbolTypeV {
        self.stype@
    }
}

/// The model of a sequence of bindings, later entries overwriting earlier
/// ones.
spec fn table_model(s: Seq<(String, Symbol)>) -> Map<Seq<char>, SymbolTypeV>
    decreases s.len(),
{
    if s.len() == 0 {
        Map::empty()
    } else {
        table_model(s.drop_last()).insert(s.last().0@, s.last().1@)
    }
}

/// A name bound to no entry of `s` is not in its model.
proof fn lemma_model_absent(s: Seq<(String, Symbol)>, k: Seq<char>)
    requires
        forall|i: int| 0 <= i < s.len() ==> s[i].0@ != k,
    ensures
        !table_model(s).contains_key(k),
    decreases s.len(),
{
    if s.len() > 0 {
        lemma_model_absent(s.drop_last(), k);
    }
}

/// The model maps a name to the value of its last entry.
proof fn lemma_model_found(s: Seq<(String, Symbol)>, k: Seq<char>, i: int)
    requires
        0 <= i < s.len(),
        s[i].0@ == k,
        forall|j: int| i < j < s.len() ==> s[j].0@ != k,
    ensures
        table_model(s).contains_key(k),
        table_model(s)[k] == s[i].1@,
    decreases s.len(),
{
    if i == s.len() - 1 {
    } else {
        lemma_model_found(s.drop_last(), k, i);
    }
}

/// The symbol table. Entries are kept in insertion order; a lookup finds
/// the latest binding of a name.
#[derive(Debug, Clone)]
pub struct SymbolTable {
    entries: Vec<(String, Symbol)>,
}

impl View for SymbolTable {
    type V = Map<Seq<char>, SymbolTypeV>;

    closed spec fn view(&self) -> Map<Seq<char>, SymbolTypeV> {
        table_model(self.entries@)
    }
}

/// The label index bound to `k` in `m`, if any.
pub open spec fn offset_of(m: Map<Seq<char>, SymbolTypeV>, k: Seq<char>) -> Option<usize> {
    if m.contains_key(k) {
        match m[k] {
            SymbolTypeV::Label(o) => Some(o),
            _ => None,
        }
    } else {
        None
    }
}

/// The integer constant bound to `k` in `m`, if any.
pub open spec fn integer_of(m: Map<Seq<char>, SymbolTypeV>, k: Seq<char>) -> Option<i32> {
    if m.contains_key(k) {
        match m[k] {
            SymbolTypeV::Integer(v) => Some(v),
            _ => None,
        }
    } else {
        None
    }
}

impl SymbolTable {
    /// An empty table.
    pub fn new() -> (t: Self)
        ensures
            t@ == Map::<Seq<char>, SymbolTypeV>::empty(),
    {
        Self { entries: Vec::new() }
    }

    /// The latest entry bound to `k`, if any.
    fn lookup(&self, k: &str) -> (r: Option<&Symbol>)
        ensures
            match r {
                Some(sym) => self@.contains_key(k@) && sym@ == self@[k@],
                None => !self@.contains_key(k@),
            },
    {
        let mut i: usize = self.entries.len();
        while i > 0
            invariant
                i <= self.entries.len(),
                forall|j: int| i <= j < self.entries@.len() ==> self.entries@[j].0@ != k@,
            decreases i,
        {
            i = i - 1;
            if str_eq(self.entries[i].0.as_str(), k) {
                proof {
                    lemma_model_found(self.entries@, k@, i as int);
                }
                return Some(&self.entries[i].1);
            }
        }
        proof {
            lemma_model_absent(self.entries@, k@);
        }
        None
    }

    /// Bind `k` to `st`, returning the symbol it replaced, if any.
    pub fn add(&mut self, k: String, st: SymbolType) -> (r: Option<Symbol>)
        ensures
            final(self)@ == old(self)@.insert(k@, st@),
            match r {
                Some(prev) => old(self)@.contains_key(k@) && prev@ == old(self)@[k@],
                None => !old(self)@.contains_key(k@),
            },
    {
        let prev = match self.lookup(k.as_str()) {
            Some(sym) => Some(sym.clone()),
            None => None,
        };
        self.entries.push((k, Symbol { stype: st }));
        proof {
            assert(self.entries@.drop_last() =~= old(self).entries@);
        }
        prev
    }

    /// Whether `k` is bound at all, whatever its kind: lets a resolver
    /// tell a missing symbol from one of the wrong kind.
    pub fn contains(&self, k: &str) -> (r: bool)
        ensures
            r == self@.contains_key(k@),
    {
        match self.lookup(k) {
            Some(_) => true,
            None => false,
        }
    }

    /// The instruction index bound to `k`: `None` when `k` is unbound or
    /// bound to a non-label symbol.
    pub fn get_offset(&self, k: &str) -> (r: Option<usize>)
        ensures
            r == offset_of(self@, k@),
    {
        match self.lookup(k) {
            Some(sym) => match &sym.stype {
                SymbolType::Label(offset) => Some(*offset),
                _ => None,
            },
            None => None,
        }
    }

    /// The integer constant bound to `k`: `None` when `k` is unbound or
    /// bound to a non-integer symbol.
    pub fn get_integer(&self, k: &str) -> (r: Option<i32>)
        ensures
            r == integer_of(self@, k@),
    {
        match self.lookup(k) {
            Some(sym) => match &sym.stype {
                SymbolType::Integer(value) => Some(*value),
                _ => None,
            },
            None => None,
        }
    }
}

} // verus!
