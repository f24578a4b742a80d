use vstd::prelude::*;

use crate::ir::RetRepr;
use crate::names::bytes_eq;
use crate::value::Repr;

verus! {

/// A callable signature: the symbol name the call resolver matches (a plain
/// or a mangled name), the declared representation of each parameter in
/// order, and the backend's return representation. The table is populated by
/// the top-level compiler before expression lowering begins; this core only
/// reads it.
pub struct FuncSig {
    pub name: Vec<u8>,
    pub params: Vec<Repr>,
    pub ret: RetRepr,
}

/// The function table, looked up by exact symbol name.
pub struct FuncTable {
    pub funcs: Vec<FuncSig>,
}

/// The index of the entry that `name` denotes, reading declarations from the
/// most recent backwards.
pub open spec fn find_func(s: Seq<FuncSig>, name: Seq<u8>) -> Option<int>
    decreases s.len(),
{
    if s.len() == 0 {
        None
    } else if s.last().name@ == name {
        Some(s.len() - 1)
    } else {
        find_func(s.drop_last(), name)
    }
}

/// Whatever `find_func` returns is a valid index whose entry bears the name.
pub proof fn lemma_find_func_ok(s: Seq<FuncSig>, name: Seq<u8>)
    ensures
        match find_func(s, name) {
            Some(i) => 0 <= i < s.len() && s[i].name@ == name,
            None => true,
        },
    decreases s.len(),
{
    if s.len() > 0 && s.last().name@ != name {
        lemma_find_func_ok(s.drop_last(), name);
    }
}

impl FuncTable {
    pub fn new() -> (r: FuncTable)
        ensures
            r.funcs@.len() == 0,
    {
        FuncTable { funcs: Vec::new() }
    }

    /// Declares a signature; performed by the top-level compiler.
    pub fn declare(&mut self, sig: FuncSig)
        ensures
            final(self).funcs@ == old(self).funcs@.push(sig),
    {
        self.funcs.push(sig);
    }

    /// Looks a symbol name up, returning the index of its signature.
    pub fn get(&self, name: &Vec<u8>) -> (r: Option<usize>)
        ensures
            match r {
                Some(i) => find_func(self.funcs@, name@) == Some(i as int),
                None => find_func(self.funcs@, name@) is None,
            },
    {
        let mut i: usize = self.funcs.len();
        proof {
            assert(self.funcs@.take(i as int) =~= self.funcs@);
        }
        while i > 0
            invariant
                i <= self.funcs@.len(),
                find_func(self.funcs@, name@) == find_func(
                    self.funcs@.take(i as int),
                    name@,
                ),
            decreases i,
        {
            let sig = &self.funcs[i - 1];
            proof {
                assert(self.funcs@.take(i as int).last() == self.funcs@[i - 1]);
                assert(self.funcs@.take(i as int).drop_last() =~= self.funcs@.take(i - 1));
            }
            if bytes_eq(&sig.name, name) {
                return Some(i - 1);
            }
            i -= 1;
        }
        None
    }
}

} // verus!
