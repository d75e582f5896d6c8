//! What holds of the clobbers of a scope and of an instruction block.

use crate::decl::clobbers_after;
use crate::decl::distinct_clobbers;
use crate::operand::register_of;
use crate::operand::ClobberView;
use crate::operand::VarView;
use crate::resolve::clobbered;
use crate::resolve::clobbers_after_outputs;
use crate::resolve::kept_from;
use crate::resolve::names_register;
use crate::resolve::output_register;
use crate::resolve::promoted;
use crate::resolve::resolve_inputs;
use crate::resolve::resolved;
use crate::resolve::taken_from;
use crate::resolve::tied;
use crate::resolve::Resolution;
use crate::text::decimal;
use vstd::prelude::*;

verus! {

/// Declaring a clobber leaves clobbers of which no two have the same text
/// such clobbers.
pub proof fn lemma_clobbers_stay_distinct(clobbers: Seq<ClobberView>, clobber: ClobberView)
    requires
        distinct_clobbers(clobbers),
    ensures
        distinct_clobbers(clobbers_after(clobbers, clobber)),
{
    let after = clobbers_after(clobbers, clobber);
    assert forall|i: int, j: int| 0 <= i < j < after.len() implies (#[trigger] after[i]).constraint
        != (#[trigger] after[j]).constraint by {
        if j < clobbers.len() {
            assert(after[i] == clobbers[i]);
            assert(after[j] == clobbers[j]);
        } else {
            assert(after[i] == clobbers[i]);
        }
    }
}

/// None of `clobbers` names the register `reg`.
pub open spec fn free_of(clobbers: Seq<ClobberView>, reg: Seq<char>) -> bool {
    forall|k: int|
        0 <= k < clobbers.len() ==> !names_register((#[trigger] clobbers[k]).constraint, reg)
}

/// Every clobber of `part` is one of `whole`.
pub open spec fn within(part: Seq<ClobberView>, whole: Seq<ClobberView>) -> bool {
    forall|k: int| 0 <= k < part.len() ==> whole.contains(#[trigger] part[k])
}

/// None of `clobbers` names the register of one of the outputs `outs`.
pub open spec fn outputs_clear(outs: Seq<VarView>, clobbers: Seq<ClobberView>) -> bool {
    forall|j: int|
        0 <= j < outs.len() ==> match output_register((#[trigger] outs[j]).constraint) {
            Some(reg) => free_of(clobbers, reg),
            None => true,
        }
}

/// None of `clobbers` names the register of one of the inputs `ins`.
pub open spec fn inputs_clear(ins: Seq<VarView>, clobbers: Seq<ClobberView>) -> bool {
    forall|j: int|
        0 <= j < ins.len() ==> match register_of((#[trigger] ins[j]).constraint) {
            Some(reg) => free_of(clobbers, reg),
            None => true,
        }
}

/// None of the inputs `ins` is pinned to a register.
pub open spec fn no_register(ins: Seq<VarView>) -> bool {
    forall|j: int| 0 <= j < ins.len() ==> register_of((#[trigger] ins[j]).constraint) is None
}

/// The clobbers that are kept are among those that were there, and none of
/// them names the register.
pub proof fn lemma_kept(clobbers: Seq<ClobberView>, k: int, reg: Seq<char>)
    requires
        0 <= k,
    ensures
        free_of(kept_from(clobbers, k, reg), reg),
        within(kept_from(clobbers, k, reg), clobbers),
    decreases clobbers.len() - k,
{
    if k < clobbers.len() {
        lemma_kept(clobbers, k + 1, reg);
        let rest = kept_from(clobbers, k + 1, reg);
        let all = kept_from(clobbers, k, reg);
        if names_register(clobbers[k].constraint, reg) {
            assert(all =~= rest);
        } else {
            assert(all =~= seq![clobbers[k]] + rest);
            assert forall|i: int| 0 <= i < all.len() implies !names_register(
                (#[trigger] all[i]).constraint,
                reg,
            ) by {
                if i > 0 {
                    assert(all[i] == rest[i - 1]);
                }
            }
            assert forall|i: int| 0 <= i < all.len() implies clobbers.contains(
                #[trigger] all[i],
            ) by {
                if i > 0 {
                    assert(all[i] == rest[i - 1]);
                    assert(clobbers.contains(rest[i - 1]));
                } else {
                    assert(clobbers[k] == all[i]);
                }
            }
        }
    }
}

/// Where nothing is taken, no clobber names the register.
pub proof fn lemma_none_taken(clobbers: Seq<ClobberView>, k: int, reg: Seq<char>)
    requires
        0 <= k,
        taken_from(clobbers, k, reg).len() == 0,
    ensures
        forall|j: int|
            k <= j < clobbers.len() ==> !names_register((#[trigger] clobbers[j]).constraint, reg),
        kept_from(clobbers, k, reg) == clobbers.subrange(
            if k < clobbers.len() {
                k
            } else {
                clobbers.len() as int
            },
            clobbers.len() as int,
        ),
    decreases clobbers.len() - k,
{
    if k < clobbers.len() {
        lemma_none_taken(clobbers, k + 1, reg);
        assert(kept_from(clobbers, k, reg) =~= clobbers.subrange(k, clobbers.len() as int));
    } else {
        assert(kept_from(clobbers, k, reg) =~= clobbers.subrange(
            clobbers.len() as int,
            clobbers.len() as int,
        ));
    }
}

/// What holds of no clobber of `whole` holds of none of `part`.
pub proof fn lemma_free_within(part: Seq<ClobberView>, whole: Seq<ClobberView>, reg: Seq<char>)
    requires
        within(part, whole),
        free_of(whole, reg),
    ensures
        free_of(part, reg),
{
    assert forall|k: int| 0 <= k < part.len() implies !names_register(
        (#[trigger] part[k]).constraint,
        reg,
    ) by {
        assert(whole.contains(part[k]));
        let j = choose|j: int| 0 <= j < whole.len() && whole[j] == part[k];
        assert(!names_register(whole[j].constraint, reg));
    }
}

/// A part of a part is a part.
pub proof fn lemma_within_within(a: Seq<ClobberView>, b: Seq<ClobberView>, c: Seq<ClobberView>)
    requires
        within(a, b),
        within(b, c),
    ensures
        within(a, c),
{
    assert forall|k: int| 0 <= k < a.len() implies c.contains(#[trigger] a[k]) by {
        assert(b.contains(a[k]));
        let i = choose|i: int| 0 <= i < b.len() && b[i] == a[k];
        assert(c.contains(b[i]));
    }
}

/// The clobbers that the outputs leave are among those that were there, and
/// none of them names the register of an output from `j` on.
pub proof fn lemma_outputs_leave_clear(outs: Seq<VarView>, j: int, clobbers: Seq<ClobberView>)
    requires
        0 <= j,
    ensures
        within(clobbers_after_outputs(outs, j, clobbers), clobbers),
        forall|k: int|
            j <= k < outs.len() ==> match output_register((#[trigger] outs[k]).constraint) {
                Some(reg) => free_of(clobbers_after_outputs(outs, j, clobbers), reg),
                None => true,
            },
    decreases outs.len() - j,
{
    if j < outs.len() {
        let left = match output_register(outs[j].constraint) {
            Some(reg) => kept_from(clobbers, 0, reg),
            None => clobbers,
        };
        let done = clobbers_after_outputs(outs, j, clobbers);
        lemma_outputs_leave_clear(outs, j + 1, left);
        match output_register(outs[j].constraint) {
            Some(reg) => {
                lemma_kept(clobbers, 0, reg);
                lemma_free_within(done, left, reg);
                lemma_within_within(done, left, clobbers);
            },
            None => {},
        }
    } else {
        assert forall|k: int| 0 <= k < clobbers.len() implies clobbers.contains(
            #[trigger] clobbers[k],
        ) by {
            assert(clobbers[k] == clobbers[k]);
        }
    }
}

/// A decimal numeral names no register.
pub proof fn lemma_decimal_names_no_register(n: nat)
    ensures
        decimal(n).len() > 0,
        decimal(n)[0] != '{',
        register_of(decimal(n)) is None,
    decreases n,
{
    if n >= 10 {
        lemma_decimal_names_no_register(n / 10);
    }
}

/// The output made for an input is pinned to the register of that input.
pub proof fn lemma_promoted_register(var: VarView)
    ensures
        output_register(promoted(var).constraint) == register_of(var.constraint),
{
    reveal_strlit("=");
    let marked = "="@ + var.constraint;
    assert(marked.subrange(1, marked.len() as int) =~= var.constraint);
}

/// Registries of which no clobber names a register stay so when clobbers go.
pub proof fn lemma_clear_within(
    outs: Seq<VarView>,
    ins: Seq<VarView>,
    part: Seq<ClobberView>,
    whole: Seq<ClobberView>,
)
    requires
        within(part, whole),
        outputs_clear(outs, whole),
        inputs_clear(ins, whole),
    ensures
        outputs_clear(outs, part),
        inputs_clear(ins, part),
{
    assert forall|j: int| 0 <= j < outs.len() implies match output_register(
        (#[trigger] outs[j]).constraint,
    ) {
        Some(reg) => free_of(part, reg),
        None => true,
    } by {
        match output_register(outs[j].constraint) {
            Some(reg) => lemma_free_within(part, whole, reg),
            None => {},
        }
    }
    assert forall|j: int| 0 <= j < ins.len() implies match register_of(
        (#[trigger] ins[j]).constraint,
    ) {
        Some(reg) => free_of(part, reg),
        None => true,
    } by {
        match register_of(ins[j].constraint) {
            Some(reg) => lemma_free_within(part, whole, reg),
            None => {},
        }
    }
}

/// Going through the inputs keeps what holds of the state: no clobber names
/// the register of an output or of an input that stays, and no input that
/// was made is pinned to a register.
pub proof fn lemma_inputs_leave_clear(ins: Seq<VarView>, i: int, state: Resolution)
    requires
        0 <= i,
        outputs_clear(state.outputs, state.clobbers),
        inputs_clear(state.kept, state.clobbers),
        no_register(state.linked),
    ensures
        outputs_clear(resolve_inputs(ins, i, state).outputs, resolve_inputs(ins, i, state).clobbers),
        inputs_clear(resolve_inputs(ins, i, state).kept, resolve_inputs(ins, i, state).clobbers),
        no_register(resolve_inputs(ins, i, state).linked),
    decreases ins.len() - i,
{
    if i < ins.len() {
        let var = ins[i];
        let promote = match register_of(var.constraint) {
            Some(reg) => clobbered(state.clobbers, reg),
            None => false,
        };
        if promote {
            let reg = register_of(var.constraint)->0;
            let left = kept_from(state.clobbers, 0, reg);
            let next = Resolution {
                outputs: state.outputs.push(promoted(var)),
                kept: state.kept,
                linked: state.linked.push(tied(var, state.outputs.len() as int)),
                clobbers: left,
            };
            lemma_kept(state.clobbers, 0, reg);
            lemma_clear_within(state.outputs, state.kept, left, state.clobbers);
            lemma_promoted_register(var);
            lemma_decimal_names_no_register(state.outputs.len());
            assert forall|j: int| 0 <= j < next.outputs.len() implies match output_register(
                (#[trigger] next.outputs[j]).constraint,
            ) {
                Some(r) => free_of(left, r),
                None => true,
            } by {
                if j < state.outputs.len() {
                    assert(next.outputs[j] == state.outputs[j]);
                }
            }
            assert forall|j: int| 0 <= j < next.linked.len() implies register_of(
                (#[trigger] next.linked[j]).constraint,
            ) is None by {
                if j < state.linked.len() {
                    assert(next.linked[j] == state.linked[j]);
                }
            }
            lemma_inputs_leave_clear(ins, i + 1, next);
        } else {
            let next = Resolution { kept: state.kept.push(var), ..state };
            match register_of(var.constraint) {
                Some(reg) => {
                    lemma_none_taken(state.clobbers, 0, reg);
                },
                None => {},
            }
            assert forall|j: int| 0 <= j < next.kept.len() implies match register_of(
                (#[trigger] next.kept[j]).constraint,
            ) {
                Some(r) => free_of(state.clobbers, r),
                None => true,
            } by {
                if j < state.kept.len() {
                    assert(next.kept[j] == state.kept[j]);
                }
            }
            lemma_inputs_leave_clear(ins, i + 1, next);
        }
    }
}

/// Once the clobbers of an instruction block are reconciled with its
/// operands, no clobber that is left names the register that an output or an
/// input of the block is pinned to.
pub proof fn lemma_resolved_is_clear(
    outs: Seq<VarView>,
    ins: Seq<VarView>,
    clobbers: Seq<ClobberView>,
)
    ensures
        outputs_clear(resolved(outs, ins, clobbers).outputs, resolved(outs, ins, clobbers).clobbers),
        inputs_clear(
            resolved(outs, ins, clobbers).kept + resolved(outs, ins, clobbers).linked,
            resolved(outs, ins, clobbers).clobbers,
        ),
{
    let start = Resolution {
        outputs: outs,
        kept: seq![],
        linked: seq![],
        clobbers: clobbers_after_outputs(outs, 0, clobbers),
    };
    lemma_outputs_leave_clear(outs, 0, clobbers);
    lemma_inputs_leave_clear(ins, 0, start);
    let done = resolved(outs, ins, clobbers);
    let all = done.kept + done.linked;
    assert forall|j: int| 0 <= j < all.len() implies match register_of(
        (#[trigger] all[j]).constraint,
    ) {
        Some(reg) => free_of(done.clobbers, reg),
        None => true,
    } by {
        if j < done.kept.len() {
            assert(all[j] == done.kept[j]);
        } else {
            assert(all[j] == done.linked[j - done.kept.len()]);
        }
    }
}

} // verus!
