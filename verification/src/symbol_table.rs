use vstd::prelude::*;

use crate::ast::ASTType;
use crate::grammar::declare;

verus! {

/// A declared name together with its type.
#[derive(Debug)]
pub struct Symbol {
    pub name: String,
    pub data_type: ASTType,
}

/// The variables in scope: each name at most once, with the type it was
/// first declared with.
#[derive(Debug)]
pub struct SymbolTable {
    entries: Vec<Symbol>,
}

/// The map that a sequence of entries stands for: later entries of a name
/// would override earlier ones, but a well-formed table has none.
pub open spec fn entries_map(s: Seq<Symbol>) -> Map<Seq<char>, ASTType>
    decreases s.len(),
{
    if s.len() == 0 {
        Map::empty()
    } else {
        entries_map(s.drop_last()).insert(s.last().name@, s.last().data_type)
    }
}

/// No name occurs twice among the entries.
pub open spec fn names_distinct(s: Seq<Symbol>) -> bool {
    forall|i: int, j: int| 0 <= i < j < s.len() ==> s[i].name@ != s[j].name@
}

/// A name is a key of the map of the entries iff some entry carries it, and
/// then its value is that entry's type.
proof fn lemma_entries_map(s: Seq<Symbol>, k: Seq<char>)
    requires
        names_distinct(s),
    ensures
        entries_map(s).contains_key(k) <==> exists|i: int| 0 <= i < s.len() && s[i].name@ == k,
        forall|i: int| 0 <= i < s.len() && s[i].name@ == k ==> entries_map(s)[k] == s[i].data_type,
    decreases s.len(),
{
    if s.len() > 0 {
        let p = s.drop_last();
        lemma_entries_map(p, k);
        assert forall|i: int| 0 <= i < p.len() implies p[i] == s[i] by {}
        if entries_map(s).contains_key(k) && k != s.last().name@ {
            let i = choose|i: int| 0 <= i < p.len() && p[i].name@ == k;
            assert(s[i].name@ == k);
        }
        if exists|i: int| 0 <= i < s.len() && s[i].name@ == k {
            let i = choose|i: int| 0 <= i < s.len() && s[i].name@ == k;
            if i < s.len() - 1 {
                assert(p[i].name@ == k);
            }
        }
    }
}

/// The effect of `SymbolTable::insert` on a table's view is `declare`
/// (its `ensures` says so), and `lookup` reads the view: so after
/// `insert(name, ty)` on a table whose view is `table`, `lookup(name)`
/// finds `name` with the type of its first declaration, and `lookup(other)`
/// gives what it gave before.
pub proof fn law_lookup_after_insert(
    table: Map<Seq<char>, ASTType>,
    name: Seq<char>,
    ty: ASTType,
    other: Seq<char>,
)
    ensures
        declare(table, name, ty).contains_key(name),
        declare(table, name, ty)[name] == if table.contains_key(name) {
            table[name]
        } else {
            ty
        },
        other != name ==> declare(table, name, ty).contains_key(other) == table.contains_key(other),
        other != name && table.contains_key(other) ==> declare(table, name, ty)[other]
            == table[other],
{
}

impl View for SymbolTable {
    type V = Map<Seq<char>, ASTType>;

    closed spec fn view(&self) -> Map<Seq<char>, ASTType> {
        entries_map(self.entries@)
    }
}

impl Default for SymbolTable {
    /// An empty table.
    fn default() -> (table: SymbolTable)
        ensures
            table@ == Map::<Seq<char>, ASTType>::empty(),
    {
        SymbolTable::new()
    }
}

impl SymbolTable {
    #[verifier::type_invariant]
    spec fn wf(self) -> bool {
        names_distinct(self.entries@)
    }

    /// An empty table.
    pub fn new() -> (table: SymbolTable)
        ensures
            table@ == Map::<Seq<char>, ASTType>::empty(),
    {
        SymbolTable { entries: Vec::new() }
    }

    /// Declares `name` with `data_type` unless it is declared already.
    /// Returns whether it was added; a name declared before keeps its type.
    pub fn insert(&mut self, name: String, data_type: ASTType) -> (added: bool)
        ensures
            added == !old(self)@.contains_key(name@),
            final(self)@ == declare(old(self)@, name@, data_type),
    {
        proof {
            use_type_invariant(&*self);
        }
        if self.lookup(name.as_str()).is_some() {
            return false;
        }
        let ghost prev = self.entries@;
        let ghost key = name@;
        proof {
            assert forall|i: int| 0 <= i < prev.len() implies prev[i].name@ != key by {
                lemma_entries_map(prev, key);
            }
        }
        let mut entries: Vec<Symbol> = Vec::new();
        std::mem::swap(&mut entries, &mut self.entries);
        entries.push(Symbol { name, data_type });
        assert(entries@.drop_last() == prev);
        self.entries = entries;
        true
    }

    /// The symbol declared under `name`, if any.
    pub fn lookup(&self, name: &str) -> (found: Option<&Symbol>)
        ensures
            found is None <==> !self@.contains_key(name@),
            found matches Some(sym) ==> sym.name@ == name@ && self@[name@] == sym.data_type,
    {
        proof {
            use_type_invariant(self);
            lemma_entries_map(self.entries@, name@);
        }
        let key = name.to_owned();
        let mut i: usize = 0;
        while i < self.entries.len()
            invariant
                0 <= i <= self.entries@.len(),
                key@ == name@,
                forall|j: int| 0 <= j < i ==> self.entries@[j].name@ != name@,
            decreases self.entries@.len() - i,
        {
            if self.entries[i].name == key {
                proof {
                    use_type_invariant(self);
                    lemma_entries_map(self.entries@, name@);
                }
                return Some(&self.entries[i]);
            }
            i = i + 1;
        }
        proof {
            use_type_invariant(self);
            lemma_entries_map(self.entries@, name@);
        }
        None
    }

    /// Forgets every declaration.
    pub fn clear(&mut self)
        ensures
            final(self)@ == Map::<Seq<char>, ASTType>::empty(),
    {
        self.entries = Vec::new();
    }
}

} // verus!
