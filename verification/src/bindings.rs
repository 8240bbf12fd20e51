//! The identifiers that a variable declaration introduces.

use vstd::prelude::*;
use crate::ast::{Ident, VarDeclarator};

verus! {

/// The identifiers that a list of declarators binds: those of the first
/// declarator, then those of the second, and so on.
pub open spec fn declarators_ids(decls: Seq<VarDeclarator>) -> Seq<Ident>
    decreases decls.len(),
{
    if decls.len() == 0 {
        Seq::empty()
    } else {
        declarators_ids(decls.drop_last()) + decls.last().ids@
    }
}

/// The identifiers that the declarators bind, in source order.
pub fn declared_ids(decls: &Vec<VarDeclarator>) -> (found: Vec<Ident>)
    ensures
        found@ == declarators_ids(decls@),
{
    let mut found: Vec<Ident> = Vec::new();
    let mut i: usize = 0;
    while i < decls.len()
        invariant
            i <= decls.len(),
            found@ == declarators_ids(decls@.take(i as int)),
        decreases decls.len() - i,
    {
        let ids = &decls[i].ids;
        let ghost before = found@;
        let mut j: usize = 0;
        while j < ids.len()
            invariant
                j <= ids.len(),
                found@ == before + ids@.take(j as int),
            decreases ids.len() - j,
        {
            found.push(ids[j].clone());
            assert(ids@.take(j + 1) =~= ids@.take(j as int).push(ids@[j as int]));
            assert(found@ =~= before + ids@.take(j + 1));
            j = j + 1;
        }
        proof {
            assert(ids@.take(ids.len() as int) == ids@);
            assert(decls@.take(i + 1).drop_last() == decls@.take(i as int));
            assert(decls@.take(i + 1).last() == decls@[i as int]);
        }
        i = i + 1;
    }
    assert(decls@.take(decls.len() as int) == decls@);
    found
}

} // verus!
