use vstd::prelude::*;

use crate::names::bytes_eq;
use crate::value::ValueType;

verus! {

/// What a name resolves to: its declared semantic type and the handle of the
/// mutable storage slot the backend gave it. The slot is owned by the
/// backend; this core only reads through it.
#[derive(Clone, Copy, PartialEq, Eq, Structural, Debug)]
pub struct Symbol {
    pub ty: ValueType,
    pub slot: usize,
}

/// One declared name.
pub struct Binding {
    pub name: Vec<u8>,
    pub sym: Symbol,
}

/// A single scope: a name-to-symbol mapping in which a later declaration of
/// the same name replaces the earlier one.
pub struct SymTable {
    pub entries: Vec<Binding>,
}

/// The symbol that `name` denotes in a scope, reading declarations from the
/// most recent backwards.
pub open spec fn lookup(s: Seq<Binding>, name: Seq<u8>) -> Option<Symbol>
    decreases s.len(),
{
    if s.len() == 0 {
        None
    } else if s.last().name@ == name {
        Some(s.last().sym)
    } else {
        lookup(s.drop_last(), name)
    }
}

impl SymTable {
    pub fn new() -> (r: SymTable)
        ensures
            r.entries@.len() == 0,
    {
        SymTable { entries: Vec::new() }
    }

    /// Declares a name; performed by the statement compiler, never by the
    /// expression core. A declared symbol always has a value-bearing type.
    pub fn insert(&mut self, name: Vec<u8>, sym: Symbol)
        requires
            sym.ty != ValueType::Void,
        ensures
            final(self).entries@ == old(self).entries@.push((Binding { name: name, sym })),
            forall|n: Seq<u8>|
                lookup(final(self).entries@, n) == if n == name@ {
                    Some(sym)
                } else {
                    lookup(old(self).entries@, n)
                },
    {
        let ghost name0 = name@;
        self.entries.push(Binding { name, sym });
        proof {
            assert forall|n: Seq<u8>|
                lookup(self.entries@, n) == if n == name0 {
                    Some(sym)
                } else {
                    lookup(old(self).entries@, n)
                } by {
                assert(self.entries@.drop_last() =~= old(self).entries@);
            }
        }
    }

    /// Looks a name up in this scope alone.
    pub fn get(&self, name: &Vec<u8>) -> (r: Option<Symbol>)
        ensures
            r == lookup(self.entries@, name@),
    {
        let mut i: usize = self.entries.len();
        proof {
            assert(self.entries@.take(i as int) =~= self.entries@);
        }
        while i > 0
            invariant
                i <= self.entries@.len(),
                lookup(self.entries@, name@) == lookup(
                    self.entries@.take(i as int),
                    name@,
                ),
            decreases i,
        {
            let b = &self.entries[i - 1];
            proof {
                assert(self.entries@.take(i as int).last() == self.entries@[i - 1]);
                assert(self.entries@.take(i as int).drop_last() =~= self.entries@.take(
                    i - 1,
                ));
            }
            if bytes_eq(&b.name, name) {
                return Some(b.sym);
            }
            i -= 1;
        }
        proof {
            assert(self.entries@.take(0).len() == 0);
        }
        None
    }
}

} // verus!
