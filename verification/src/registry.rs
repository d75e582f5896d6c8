//! The registries of one scope: the outputs and the inputs, each in the order
//! that gives an operand its position, and what a declaration does to them.

use crate::operand::BridgeVar;
use crate::operand::VarView;
use vstd::prelude::*;
use vstd::string::*;

verus! {

/// The first position in `vars` of a variable called `name`.
pub open spec fn position(vars: Seq<VarView>, name: Seq<char>) -> Option<int>
    decreases vars.len(),
{
    if vars.len() == 0 {
        None
    } else {
        match position(vars.drop_last(), name) {
            Some(i) => Some(i),
            None => if vars.last().name == name {
                Some(vars.len() - 1)
            } else {
                None
            },
        }
    }
}

/// No two variables of `vars` have the same name.
pub open spec fn distinct_names(vars: Seq<VarView>) -> bool {
    forall|i: int, j: int|
        0 <= i < j < vars.len() ==> (#[trigger] vars[i]).name != (#[trigger] vars[j]).name
}

/// `position` finds the first variable of that name, and finds none only
/// where there is none.
pub proof fn lemma_position(vars: Seq<VarView>, name: Seq<char>)
    ensures
        match position(vars, name) {
            Some(i) => 0 <= i < vars.len() && vars[i].name == name && forall|j: int|
                0 <= j < i ==> (#[trigger] vars[j]).name != name,
            None => forall|j: int| 0 <= j < vars.len() ==> (#[trigger] vars[j]).name != name,
        },
    decreases vars.len(),
{
    if vars.len() > 0 {
        let front = vars.drop_last();
        lemma_position(front, name);
        assert(forall|j: int| 0 <= j < front.len() ==> front[j] == vars[j]);
    }
}

/// The variable at `i` is what `position` finds when none of that name
/// stands before it.
pub proof fn lemma_position_is(vars: Seq<VarView>, name: Seq<char>, i: int)
    requires
        0 <= i < vars.len(),
        vars[i].name == name,
        forall|j: int| 0 <= j < i ==> (#[trigger] vars[j]).name != name,
    ensures
        position(vars, name) == Some(i),
{
    lemma_position(vars, name);
}

/// `vars` after `var` was put in: in the place of the variable of the same
/// name, or at the end where there is none.
pub open spec fn pushed(vars: Seq<VarView>, var: VarView) -> Seq<VarView> {
    match position(vars, var.name) {
        Some(i) => vars.update(i, var),
        None => vars.push(var),
    }
}

/// `vars` after the variable at `i` was taken out and the last one moved into
/// its place.
pub open spec fn swap_removed(vars: Seq<VarView>, i: int) -> Seq<VarView> {
    vars.update(i, vars.last()).drop_last()
}

/// `vars` without the variable called `name`, where that variable's
/// constraint is `constraint`; otherwise `vars` as it is.
pub open spec fn unlinked(vars: Seq<VarView>, name: Seq<char>, constraint: Seq<char>) -> Seq<
    VarView,
> {
    match position(vars, name) {
        Some(i) => if vars[i].constraint == constraint {
            swap_removed(vars, i)
        } else {
            vars
        },
        None => vars,
    }
}

/// The position of the first variable in `vars` whose name is `ident`.
pub fn find_var_by_ident(vars: &Vec<BridgeVar>, ident: &String) -> (r: Option<usize>)
    ensures
        match r {
            Some(i) => i < vars.len() && position(vars.deep_view(), ident@) == Some(i as int),
            None => position(vars.deep_view(), ident@) is None,
        },
{
    let mut i: usize = 0;
    while i < vars.len()
        invariant
            i <= vars.len(),
            forall|j: int| 0 <= j < i ==> (#[trigger] vars.deep_view()[j]).name != ident@,
        decreases vars.len() - i,
    {
        if vars[i].name == *ident {
            proof {
                lemma_position_is(vars.deep_view(), ident@, i as int);
            }
            return Some(i);
        }
        i = i + 1;
    }
    proof {
        lemma_position(vars.deep_view(), ident@);
    }
    None
}

/// Puts `var` into `vec`. A variable of the same name is overwritten where it
/// stands, and its position is returned; otherwise `var` goes to the end.
pub fn push_var(vec: &mut Vec<BridgeVar>, var: BridgeVar) -> (r: Option<usize>)
    ensures
        final(vec).deep_view() == pushed(old(vec).deep_view(), var@),
        match r {
            Some(i) => i < old(vec).len() && position(old(vec).deep_view(), var@.name) == Some(
                i as int,
            ),
            None => position(old(vec).deep_view(), var@.name) is None,
        },
{
    match find_var_by_ident(vec, &var.name) {
        Some(i) => {
            vec[i] = var;
            assert(vec.deep_view() =~= old(vec).deep_view().update(i as int, var@));
            Some(i)
        },
        None => {
            vec.push(var);
            assert(vec.deep_view() =~= old(vec).deep_view().push(var@));
            None
        },
    }
}

/// Takes out of `vec` the variable that has the name of `var`, where it also
/// has the constraint of `var`. The last variable moves into its place, so the
/// order is not kept.
pub fn swap_remove_var(vec: &mut Vec<BridgeVar>, var: &BridgeVar)
    ensures
        final(vec).deep_view() == unlinked(old(vec).deep_view(), var@.name, var@.constraint),
{
    match find_var_by_ident(vec, &var.name) {
        Some(i) => {
            if vec[i].constraint == var.constraint {
                let _ = vec.swap_remove(i);
                assert(vec.deep_view() =~= swap_removed(old(vec).deep_view(), i as int));
            }
        },
        None => {},
    }
}

} // verus!
