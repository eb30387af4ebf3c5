//! The symbol table: a mapping from names to 16-bit addresses.

use vstd::prelude::*;
use vstd::string::*;
use crate::text::{decimal, lemma_decimal_value, push_decimal, str_eq};

verus! {

/// One binding of a symbol table.
struct Symbol {
    name: String,
    addr: u16,
}

/// A mapping from symbol names to 16-bit addresses.
///
/// The bindings are kept in the order in which their names were first
/// inserted; where a name occurs more than once, the last binding counts.
pub struct SymbolTable {
    symbols: Vec<Symbol>,
}

/// Adds `offset` to `addr` in the 16-bit address space.
pub open spec fn offset_addr(addr: u16, offset: u16) -> u16 {
    ((addr + offset) % 0x10000) as u16
}

/// The table that holds `base` and, on top of it, every binding of `other`
/// moved by `offset`.
pub open spec fn merged(base: Map<Seq<char>, u16>, other: Map<Seq<char>, u16>, offset: u16) -> Map<
    Seq<char>,
    u16,
> {
    Map::new(
        |k: Seq<char>| base.contains_key(k) || other.contains_key(k),
        |k: Seq<char>|
            if other.contains_key(k) {
                offset_addr(other[k], offset)
            } else {
                base[k]
            },
    )
}

/// The number of pseudo-registers.
pub const REGISTER_COUNT: u16 = 32;

/// The name of a pseudo-register: the letter `r` and its number.
pub open spec fn register_name(i: nat) -> Seq<char> {
    seq!['r'] + decimal(i)
}

/// The table of the first `n` pseudo-registers: register `i` is bound to
/// the address `i`.
pub open spec fn registers_upto(n: nat) -> Map<Seq<char>, u16>
    decreases n,
{
    if n == 0 {
        Map::empty()
    } else {
        registers_upto((n - 1) as nat).insert(register_name((n - 1) as nat), (n - 1) as u16)
    }
}

/// The table of the pseudo-registers `r0` to `r31`, bound to the addresses
/// 0 to 31.
pub open spec fn register_bank() -> Map<Seq<char>, u16> {
    registers_upto(REGISTER_COUNT as nat)
}

/// The pseudo-registers have names of their own.
pub proof fn lemma_register_names(i: nat, j: nat)
    ensures
        register_name(i) == register_name(j) ==> i == j,
{
    if register_name(i) == register_name(j) {
        lemma_decimal_value(i);
        lemma_decimal_value(j);
        assert(register_name(i).subrange(1, register_name(i).len() as int) =~= decimal(i));
        assert(register_name(j).subrange(1, register_name(j).len() as int) =~= decimal(j));
    }
}

/// The table of the first `n` pseudo-registers binds the name of register
/// `i` below `n` to `i`, and no other names.
pub proof fn lemma_registers_upto(n: nat, name: Seq<char>)
    requires
        n <= 0x10000,
    ensures
        registers_upto(n).contains_key(name) <==> exists|i: nat| i < n && name == register_name(i),
        forall|i: nat| i < n && name == register_name(i) ==> registers_upto(n)[name] == i,
    decreases n,
{
    if n > 0 {
        let last = (n - 1) as nat;
        lemma_registers_upto(last, name);
        if name == register_name(last) {
            assert forall|i: nat| i < n && name == register_name(i) implies i == last by {
                lemma_register_names(i, last);
            }
        } else {
            if registers_upto(n).contains_key(name) {
                let i = choose|i: nat| i < last && name == register_name(i);
                assert(i < n && name == register_name(i));
            }
        }
    }
}

/// The pseudo-register `i` is bound to the address `i`.
pub proof fn lemma_register_bank(i: nat)
    requires
        i < REGISTER_COUNT,
    ensures
        register_bank().contains_key(register_name(i)),
        register_bank()[register_name(i)] == i,
{
    lemma_registers_upto(REGISTER_COUNT as nat, register_name(i));
}

/// The mapping that a list of bindings stands for.
spec fn bindings(symbols: Seq<Symbol>) -> Map<Seq<char>, u16>
    decreases symbols.len(),
{
    if symbols.len() == 0 {
        Map::empty()
    } else {
        bindings(symbols.drop_last()).insert(symbols.last().name@, symbols.last().addr)
    }
}

proof fn lemma_bindings_push(symbols: Seq<Symbol>, s: Symbol)
    ensures
        bindings(symbols.push(s)) == bindings(symbols).insert(s.name@, s.addr),
{
    assert(symbols.push(s).drop_last() =~= symbols);
}

/// A name that no binding carries is not in the mapping.
proof fn lemma_bindings_absent(symbols: Seq<Symbol>, k: Seq<char>)
    requires
        forall|j: int| 0 <= j < symbols.len() ==> symbols[j].name@ != k,
    ensures
        !bindings(symbols).contains_key(k),
    decreases symbols.len(),
{
    if symbols.len() > 0 {
        lemma_bindings_absent(symbols.drop_last(), k);
    }
}

/// Rebinding the last binding of a name changes the mapping at that name only.
proof fn lemma_bindings_update(symbols: Seq<Symbol>, i: int, s: Symbol)
    requires
        0 <= i < symbols.len(),
        symbols[i].name@ == s.name@,
        forall|j: int| i < j < symbols.len() ==> symbols[j].name@ != s.name@,
    ensures
        bindings(symbols.update(i, s)) == bindings(symbols).insert(s.name@, s.addr),
        bindings(symbols)[s.name@] == symbols[i].addr,
        bindings(symbols).contains_key(s.name@),
    decreases symbols.len(),
{
    let updated = symbols.update(i, s);
    if i == symbols.len() - 1 {
        assert(updated.drop_last() =~= symbols.drop_last());
        assert(bindings(updated) =~= bindings(symbols).insert(s.name@, s.addr));
    } else {
        lemma_bindings_update(symbols.drop_last(), i, s);
        assert(updated.drop_last() =~= symbols.drop_last().update(i, s));
        assert(bindings(updated) =~= bindings(symbols).insert(s.name@, s.addr));
    }
}

impl View for SymbolTable {
    type V = Map<Seq<char>, u16>;

    closed spec fn view(&self) -> Map<Seq<char>, u16> {
        bindings(self.symbols@)
    }
}

impl SymbolTable {
    /// An empty table.
    pub fn new() -> (table: SymbolTable)
        ensures
            table@ == Map::<Seq<char>, u16>::empty(),
    {
        SymbolTable { symbols: Vec::new() }
    }

    /// A table that holds the pseudo-registers.
    pub fn new_with_registers() -> (table: SymbolTable)
        ensures
            table@ == register_bank(),
    {
        let mut table = SymbolTable::new();
        let mut i: u16 = 0;
        while i < REGISTER_COUNT
            invariant
                i <= REGISTER_COUNT,
                table@ == registers_upto(i as nat),
            decreases REGISTER_COUNT - i,
        {
            let mut name = String::from_str("r");
            proof {
                reveal_strlit("r");
                assert(name@ =~= seq!['r']);
            }
            push_decimal(&mut name, i as u64);
            table.insert(name.as_str(), i);
            i += 1;
        }
        table
    }

    /// Adds every binding of `table`, moved by `offset`; a name that both
    /// tables bind takes the address from `table`.
    pub fn insert_table(&mut self, table: &SymbolTable, offset: u16)
        ensures
            final(self)@ == merged(old(self)@, table@, offset),
    {
        let mut i: usize = 0;
        assert(self@ =~= merged(old(self)@, bindings(table.symbols@.take(0)), offset));
        while i < table.symbols.len()
            invariant
                i <= table.symbols@.len(),
                self@ == merged(old(self)@, bindings(table.symbols@.take(i as int)), offset),
            decreases table.symbols@.len() - i,
        {
            let moved: u32 = (table.symbols[i].addr as u32 + offset as u32) % 0x10000;
            self.insert(table.symbols[i].name.as_str(), moved as u16);
            proof {
                let before = table.symbols@.take(i as int);
                let after = table.symbols@.take(i + 1);
                assert(after.drop_last() =~= before);
                assert(self@ =~= merged(old(self)@, bindings(after), offset));
            }
            i += 1;
        }
        assert(table.symbols@.take(i as int) =~= table.symbols@);
    }

    /// The index of the last binding of `name`.
    fn position(&self, name: &str) -> (r: Option<usize>)
        ensures
            match r {
                Some(i) => {
                    &&& i < self.symbols@.len()
                    &&& self.symbols@[i as int].name@ == name@
                    &&& forall|j: int|
                        i < j < self.symbols@.len() ==> self.symbols@[j].name@ != name@
                },
                None => forall|j: int|
                    0 <= j < self.symbols@.len() ==> self.symbols@[j].name@ != name@,
            },
    {
        let mut i: usize = self.symbols.len();
        while i > 0
            invariant
                i <= self.symbols@.len(),
                forall|j: int| i <= j < self.symbols@.len() ==> self.symbols@[j].name@ != name@,
            decreases i,
        {
            i -= 1;
            if str_eq(self.symbols[i].name.as_str(), name) {
                return Some(i);
            }
        }
        None
    }

    /// Binds `name` to `value`, replacing an earlier binding of the name.
    pub fn insert(&mut self, name: &str, value: u16)
        ensures
            final(self)@ == old(self)@.insert(name@, value),
    {
        match self.position(name) {
            Some(i) => {
                let ghost held = self.symbols@;
                self.symbols[i].addr = value;
                proof {
                    lemma_bindings_update(held, i as int, self.symbols@[i as int]);
                    assert(self.symbols@ =~= held.update(i as int, self.symbols@[i as int]));
                }
            },
            None => {
                let symbol = Symbol { name: name.to_owned(), addr: value };
                proof {
                    lemma_bindings_push(self.symbols@, symbol);
                }
                self.symbols.push(symbol);
            },
        }
    }

    /// Looks `name` up.
    pub fn find(&self, name: &str) -> (r: Option<u16>)
        ensures
            r == (if self@.contains_key(name@) {
                Some(self@[name@])
            } else {
                None
            }),
    {
        match self.position(name) {
            Some(i) => {
                proof {
                    lemma_bindings_update(self.symbols@, i as int, self.symbols@[i as int]);
                }
                Some(self.symbols[i].addr)
            },
            None => {
                proof {
                    lemma_bindings_absent(self.symbols@, name@);
                }
                None
            },
        }
    }
}

} // verus!
