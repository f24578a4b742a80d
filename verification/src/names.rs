use vstd::prelude::*;

use crate::value::ValueType;

verus! {

/// Byte-for-byte equality of two names.
pub fn bytes_eq(a: &Vec<u8>, b: &Vec<u8>) -> (r: bool)
    ensures
        r == (a@ == b@),
{
    if a.len() != b.len() {
        proof {
            assert(a@ != b@);
        }
        return false;
    }
    let n = a.len();
    let mut i: usize = 0;
    while i < n
        invariant
            n == a@.len() == b@.len(),
            i <= n,
            forall|j: int| 0 <= j < i ==> a@[j] == b@[j],
        decreases n - i,
    {
        if a[i] != b[i] {
            proof {
                assert(a@ != b@);
            }
            return false;
        }
        i += 1;
    }
    proof {
        assert(a@ =~= b@);
    }
    true
}

/// A fresh copy of a name.
pub fn clone_bytes(a: &Vec<u8>) -> (r: Vec<u8>)
    ensures
        r@ == a@,
{
    let mut r: Vec<u8> = Vec::new();
    let n = a.len();
    let mut i: usize = 0;
    while i < n
        invariant
            n == a@.len(),
            i <= n,
            r@ == a@.take(i as int),
        decreases n - i,
    {
        r.push(a[i]);
        proof {
            assert(r@ =~= a@.take(i + 1));
        }
        i += 1;
    }
    proof {
        assert(r@ =~= a@);
    }
    r
}

/// The one-byte code that stands for a type tag in a mangled name.
pub open spec fn tag_byte(t: ValueType) -> u8 {
    match t {
        ValueType::I8 => 98u8,
        ValueType::I16 => 104u8,
        ValueType::F32 => 102u8,
        ValueType::Str => 115u8,
        ValueType::Bool => 111u8,
        ValueType::Void => 118u8,
    }
}

/// The mangled symbol name that stands for an overload of `name` selected by
/// a first argument of type `t`: the plain name, an underscore, and the
/// type's one-byte code.
pub open spec fn mangled(name: Seq<u8>, t: ValueType) -> Seq<u8> {
    name.push(95u8).push(tag_byte(t))
}

/// The executable mangling function. It is pure, so repeated compilation
/// derives the same symbol name from the same inputs.
pub fn mangle(name: &Vec<u8>, t: ValueType) -> (r: Vec<u8>)
    ensures
        r@ == mangled(name@, t),
{
    let mut r = clone_bytes(name);
    r.push(95u8);
    let tag: u8 = match t {
        ValueType::I8 => 98u8,
        ValueType::I16 => 104u8,
        ValueType::F32 => 102u8,
        ValueType::Str => 115u8,
        ValueType::Bool => 111u8,
        ValueType::Void => 118u8,
    };
    r.push(tag);
    r
}

/// Distinct (plain name, selecting type) pairs never share a mangled name:
/// the suffix has a fixed length, so the plain name and the tag byte can both
/// be read back from the result.
pub proof fn lemma_mangle_injective(n1: Seq<u8>, t1: ValueType, n2: Seq<u8>, t2: ValueType)
    requires
        mangled(n1, t1) == mangled(n2, t2),
    ensures
        n1 == n2,
        t1 == t2,
{
    let m1 = mangled(n1, t1);
    let m2 = mangled(n2, t2);
    assert(m1.len() == n1.len() + 2);
    assert(m2.len() == n2.len() + 2);
    assert(n1.len() == n2.len());
    assert(m1.last() == tag_byte(t1));
    assert(m2.last() == tag_byte(t2));
    assert(t1 == t2) by {
        assert(tag_byte(t1) == tag_byte(t2));
    }
    assert(n1 =~= n2) by {
        assert forall|i: int| 0 <= i < n1.len() implies n1[i] == n2[i] by {
            assert(m1[i] == n1[i]);
            assert(m2[i] == n2[i]);
        }
    }
}

} // verus!
