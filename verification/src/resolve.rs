//! Clobbers against operands: a register cannot be destroyed and bound to a
//! variable at once, so the binding is kept and the clobber goes.

use crate::diag::help;
use crate::diag::note;
use crate::diag::warn;
use crate::diag::warning;
use crate::diag::Diagnostic;
use crate::diag::DiagnosticView;
use crate::diag::Message;
use crate::diag::MessageView;
use crate::instruction::AsmBlock;
use crate::invariants::lemma_none_taken;
use crate::operand::explicit_register_of;
use crate::operand::register_of;
use crate::operand::same_text;
use crate::operand::BridgeVar;
use crate::operand::Clobber;
use crate::operand::ClobberView;
use crate::operand::VarView;
use crate::text::decimal;
use crate::text::decimal_string;
use proc_macro2::Span;
use vstd::prelude::*;
use vstd::string::*;

verus! {

/// Whether a clobber with the text `clobber` names the register `reg`: its
/// text is the register's name, bare or in braces.
pub open spec fn names_register(clobber: Seq<char>, reg: Seq<char>) -> bool {
    clobber == reg || register_of(clobber) == Some(reg)
}

/// The register that an output's constraint pins it to. The mark of an
/// output, a leading `=`, is not part of the register's name.
pub open spec fn output_register(constraint: Seq<char>) -> Option<Seq<char>> {
    if constraint.len() > 0 && constraint[0] == '=' {
        register_of(constraint.subrange(1, constraint.len() as int))
    } else {
        register_of(constraint)
    }
}

/// The clobbers from position `k` on that do not name `reg`, in their order.
pub open spec fn kept_from(clobbers: Seq<ClobberView>, k: int, reg: Seq<char>) -> Seq<ClobberView>
    decreases clobbers.len() - k,
{
    if 0 <= k < clobbers.len() {
        let here = if names_register(clobbers[k].constraint, reg) {
            seq![]
        } else {
            seq![clobbers[k]]
        };
        here + kept_from(clobbers, k + 1, reg)
    } else {
        seq![]
    }
}

/// The clobbers from position `k` on that name `reg`, in their order.
pub open spec fn taken_from(clobbers: Seq<ClobberView>, k: int, reg: Seq<char>) -> Seq<
    ClobberView,
>
    decreases clobbers.len() - k,
{
    if 0 <= k < clobbers.len() {
        let here = if names_register(clobbers[k].constraint, reg) {
            seq![clobbers[k]]
        } else {
            seq![]
        };
        here + taken_from(clobbers, k + 1, reg)
    } else {
        seq![]
    }
}

/// Whether some clobber names `reg`.
pub open spec fn clobbered(clobbers: Seq<ClobberView>, reg: Seq<char>) -> bool {
    taken_from(clobbers, 0, reg).len() > 0
}

/// The diagnostics for the clobbers `taken` from position `k` on, each
/// dropped in favour of the output whose constraint stands at `output`.
pub open spec fn dropped_from(taken: Seq<ClobberView>, k: int, output: Span) -> Seq<
    DiagnosticView,
>
    decreases taken.len() - k,
{
    if 0 <= k < taken.len() {
        seq![
            warning(MessageView::ClobberSharesOutput, taken[k].span),
            note(MessageView::OutputDeclaredHere, output),
        ] + dropped_from(taken, k + 1, output)
    } else {
        seq![]
    }
}

/// The clobbers that are left once each output from position `j` on has
/// dropped the clobbers that name its register.
pub open spec fn clobbers_after_outputs(
    outs: Seq<VarView>,
    j: int,
    clobbers: Seq<ClobberView>,
) -> Seq<ClobberView>
    decreases outs.len() - j,
{
    if 0 <= j < outs.len() {
        let left = match output_register(outs[j].constraint) {
            Some(reg) => kept_from(clobbers, 0, reg),
            None => clobbers,
        };
        clobbers_after_outputs(outs, j + 1, left)
    } else {
        clobbers
    }
}

/// The diagnostics for the clobbers that the outputs from position `j` on
/// drop.
pub open spec fn diagnostics_of_outputs(
    outs: Seq<VarView>,
    j: int,
    clobbers: Seq<ClobberView>,
) -> Seq<DiagnosticView>
    decreases outs.len() - j,
{
    if 0 <= j < outs.len() {
        match output_register(outs[j].constraint) {
            Some(reg) => dropped_from(taken_from(clobbers, 0, reg), 0, outs[j].constraint_span)
                + diagnostics_of_outputs(outs, j + 1, kept_from(clobbers, 0, reg)),
            None => diagnostics_of_outputs(outs, j + 1, clobbers),
        }
    } else {
        seq![]
    }
}

/// The operands and clobbers of a block while its inputs are gone through.
pub ghost struct Resolution {
    pub outputs: Seq<VarView>,
    /// The inputs gone through so far that stay inputs.
    pub kept: Seq<VarView>,
    /// The inputs made for the variables that became outputs.
    pub linked: Seq<VarView>,
    pub clobbers: Seq<ClobberView>,
}

/// The output made for an input whose register a clobber names.
pub open spec fn promoted(var: VarView) -> VarView {
    VarView {
        name: var.name,
        name_span: var.name_span,
        constraint: "="@ + var.constraint,
        constraint_span: var.constraint_span,
    }
}

/// The input that ties `var` to the output at `index`.
pub open spec fn tied(var: VarView, index: int) -> VarView {
    VarView {
        name: var.name,
        name_span: var.name_span,
        constraint: decimal(index as nat),
        constraint_span: var.constraint_span,
    }
}

/// Goes through the inputs `ins` from position `i` on. An input whose
/// register a clobber names becomes an output at the end of the outputs, and
/// an input tied to that output; the clobbers that name the register go.
/// Every other input stays.
pub open spec fn resolve_inputs(ins: Seq<VarView>, i: int, state: Resolution) -> Resolution
    decreases ins.len() - i,
{
    if 0 <= i < ins.len() {
        let var = ins[i];
        let next = match register_of(var.constraint) {
            Some(reg) => if clobbered(state.clobbers, reg) {
                Resolution {
                    outputs: state.outputs.push(promoted(var)),
                    kept: state.kept,
                    linked: state.linked.push(tied(var, state.outputs.len() as int)),
                    clobbers: kept_from(state.clobbers, 0, reg),
                }
            } else {
                Resolution { kept: state.kept.push(var), ..state }
            },
            None => Resolution { kept: state.kept.push(var), ..state },
        };
        resolve_inputs(ins, i + 1, next)
    } else {
        state
    }
}

/// The state of a block after both passes.
pub open spec fn resolved(
    outs: Seq<VarView>,
    ins: Seq<VarView>,
    clobbers: Seq<ClobberView>,
) -> Resolution {
    resolve_inputs(
        ins,
        0,
        Resolution {
            outputs: outs,
            kept: seq![],
            linked: seq![],
            clobbers: clobbers_after_outputs(outs, 0, clobbers),
        },
    )
}

/// Whether the clobber `text` names the register `reg`.
pub fn clobber_names(text: &str, reg: &str) -> (r: bool)
    ensures
        r == names_register(text@, reg@),
{
    if same_text(text, reg) {
        true
    } else {
        match explicit_register_of(text) {
            Some(inner) => same_text(inner, reg),
            None => false,
        }
    }
}

/// The register that the output constraint `constraint` names, if any.
pub fn output_register_of(constraint: &str) -> (r: Option<&str>)
    ensures
        match output_register(constraint@) {
            Some(reg) => r matches Some(found) && found@ == reg,
            None => r is None,
        },
{
    let len = constraint.unicode_len();
    if len > 0 && constraint.get_char(0) == '=' {
        explicit_register_of(constraint.substring_char(1, len))
    } else {
        explicit_register_of(constraint)
    }
}

/// Takes the clobbers that name `reg` out of `clobbers` and returns them.
pub fn take_register(clobbers: &mut Vec<Clobber>, reg: &str) -> (taken: Vec<Clobber>)
    ensures
        final(clobbers).deep_view() == kept_from(old(clobbers).deep_view(), 0, reg@),
        taken.deep_view() == taken_from(old(clobbers).deep_view(), 0, reg@),
{
    let ghost all = clobbers.deep_view();
    let mut kept: Vec<Clobber> = Vec::new();
    let mut taken: Vec<Clobber> = Vec::new();
    let mut k: usize = 0;
    assert(kept.deep_view() =~= Seq::<ClobberView>::empty());
    assert(taken.deep_view() =~= Seq::<ClobberView>::empty());
    while k < clobbers.len()
        invariant
            k <= clobbers.len(),
            clobbers.deep_view() == all,
            kept.deep_view() + kept_from(all, k as int, reg@) == kept_from(all, 0, reg@),
            taken.deep_view() + taken_from(all, k as int, reg@) == taken_from(all, 0, reg@),
        decreases clobbers.len() - k,
    {
        let ghost kept0 = kept.deep_view();
        let ghost taken0 = taken.deep_view();
        let clobber = clobbers[k].clone();
        if clobber_names(clobber.constraint.as_str(), reg) {
            taken.push(clobber);
            assert(taken.deep_view() =~= taken0.push(all[k as int]));
        } else {
            kept.push(clobber);
            assert(kept.deep_view() =~= kept0.push(all[k as int]));
        }
        k = k + 1;
        assert(kept.deep_view() + kept_from(all, k as int, reg@) =~= kept0 + kept_from(
            all,
            k - 1,
            reg@,
        ));
        assert(taken.deep_view() + taken_from(all, k as int, reg@) =~= taken0 + taken_from(
            all,
            k - 1,
            reg@,
        ));
    }
    assert(kept.deep_view() =~= kept_from(all, 0, reg@));
    assert(taken.deep_view() =~= taken_from(all, 0, reg@));
    *clobbers = kept;
    taken
}

/// Reports each clobber of `taken` as dropped in favour of the output whose
/// constraint stands at `output`.
pub fn report_dropped(taken: &Vec<Clobber>, output: Span, sink: &mut Vec<Diagnostic>)
    ensures
        final(sink).deep_view() == old(sink).deep_view() + dropped_from(
            taken.deep_view(),
            0,
            output,
        ),
{
    let ghost before = sink.deep_view();
    let ghost all = taken.deep_view();
    let mut k: usize = 0;
    while k < taken.len()
        invariant
            k <= taken.len(),
            all == taken.deep_view(),
            sink.deep_view() + dropped_from(all, k as int, output) == before + dropped_from(
                all,
                0,
                output,
            ),
        decreases taken.len() - k,
    {
        let ghost sink0 = sink.deep_view();
        warn(sink, taken[k].span, Message::ClobberSharesOutput);
        help(sink, output, Message::OutputDeclaredHere);
        k = k + 1;
        assert(sink.deep_view() + dropped_from(all, k as int, output) =~= sink0 + dropped_from(
            all,
            k - 1,
            output,
        ));
    }
    assert(sink.deep_view() =~= before + dropped_from(all, 0, output));
}

impl AsmBlock {
    /// Reconciles the clobbers of the block with its operands. A clobber that
    /// names the register of an output is dropped, with a report. An input
    /// whose register a clobber names becomes an output, with an input tied
    /// to it, and that clobber is dropped too.
    pub fn fix_overlapping_clobbers(&mut self, sink: &mut Vec<Diagnostic>)
        ensures
            final(self).bridge_vars_out.deep_view() == resolved(
                old(self).bridge_vars_out.deep_view(),
                old(self).bridge_vars_in.deep_view(),
                old(self).clobbers.deep_view(),
            ).outputs,
            final(self).bridge_vars_in.deep_view() == resolved(
                old(self).bridge_vars_out.deep_view(),
                old(self).bridge_vars_in.deep_view(),
                old(self).clobbers.deep_view(),
            ).kept + resolved(
                old(self).bridge_vars_out.deep_view(),
                old(self).bridge_vars_in.deep_view(),
                old(self).clobbers.deep_view(),
            ).linked,
            final(self).clobbers.deep_view() == resolved(
                old(self).bridge_vars_out.deep_view(),
                old(self).bridge_vars_in.deep_view(),
                old(self).clobbers.deep_view(),
            ).clobbers,
            final(self).options == old(self).options,
            final(self).asm_unchanged == old(self).asm_unchanged,
            final(sink).deep_view() == old(sink).deep_view() + diagnostics_of_outputs(
                old(self).bridge_vars_out.deep_view(),
                0,
                old(self).clobbers.deep_view(),
            ),
    {
        let ghost outs = self.bridge_vars_out.deep_view();
        let ghost ins = self.bridge_vars_in.deep_view();
        let ghost clobbers = self.clobbers.deep_view();
        let ghost before = sink.deep_view();
        let mut j: usize = 0;
        while j < self.bridge_vars_out.len()
            invariant
                j <= self.bridge_vars_out.len(),
                self.bridge_vars_out.deep_view() == outs,
                self.bridge_vars_in.deep_view() == ins,
                self.options == old(self).options,
                self.asm_unchanged == old(self).asm_unchanged,
                clobbers_after_outputs(outs, j as int, self.clobbers.deep_view())
                    == clobbers_after_outputs(outs, 0, clobbers),
                sink.deep_view() + diagnostics_of_outputs(
                    outs,
                    j as int,
                    self.clobbers.deep_view(),
                ) == before + diagnostics_of_outputs(outs, 0, clobbers),
            decreases self.bridge_vars_out.len() - j,
        {
            let ghost sink0 = sink.deep_view();
            let ghost clobbers0 = self.clobbers.deep_view();
            match output_register_of(self.bridge_vars_out[j].constraint.as_str()) {
                Some(reg) => {
                    let taken = take_register(&mut self.clobbers, reg);
                    report_dropped(&taken, self.bridge_vars_out[j].constraint_span, sink);
                },
                None => {
                    assert(sink.deep_view() =~= sink0 + Seq::<DiagnosticView>::empty());
                },
            }
            j = j + 1;
            assert(sink.deep_view() + diagnostics_of_outputs(
                outs,
                j as int,
                self.clobbers.deep_view(),
            ) =~= sink0 + diagnostics_of_outputs(outs, j - 1, clobbers0));
        }
        assert(sink.deep_view() =~= before + diagnostics_of_outputs(outs, 0, clobbers));
        let ghost start = Resolution {
            outputs: outs,
            kept: seq![],
            linked: seq![],
            clobbers: clobbers_after_outputs(outs, 0, clobbers),
        };
        let mut kept: Vec<BridgeVar> = Vec::new();
        let mut linked: Vec<BridgeVar> = Vec::new();
        assert(kept.deep_view() =~= Seq::<VarView>::empty());
        assert(linked.deep_view() =~= Seq::<VarView>::empty());
        let mut i: usize = 0;
        while i < self.bridge_vars_in.len()
            invariant
                i <= self.bridge_vars_in.len(),
                self.bridge_vars_in.deep_view() == ins,
                self.options == old(self).options,
                self.asm_unchanged == old(self).asm_unchanged,
                resolve_inputs(
                    ins,
                    i as int,
                    Resolution {
                        outputs: self.bridge_vars_out.deep_view(),
                        kept: kept.deep_view(),
                        linked: linked.deep_view(),
                        clobbers: self.clobbers.deep_view(),
                    },
                ) == resolve_inputs(ins, 0, start),
            decreases self.bridge_vars_in.len() - i,
        {
            let ghost outs0 = self.bridge_vars_out.deep_view();
            let ghost kept0 = kept.deep_view();
            let ghost linked0 = linked.deep_view();
            let ghost clobbers0 = self.clobbers.deep_view();
            let var = self.bridge_vars_in[i].clone();
            let mut promote = false;
            match explicit_register_of(var.constraint.as_str()) {
                Some(reg) => {
                    let taken = take_register(&mut self.clobbers, reg);
                    if taken.len() > 0 {
                        promote = true;
                    } else {
                        proof {
                            lemma_none_taken(clobbers0, 0, reg@);
                            assert(self.clobbers.deep_view() =~= clobbers0);
                        }
                    }
                },
                None => {},
            }
            if promote {
                let index = self.bridge_vars_out.len();
                let marked = String::from_str("=").concat(var.constraint.as_str());
                self.bridge_vars_out.push(
                    BridgeVar::new(var.name.clone(), var.name_span, marked, var.constraint_span),
                );
                linked.push(
                    BridgeVar::new(
                        var.name,
                        var.name_span,
                        decimal_string(index as u128),
                        var.constraint_span,
                    ),
                );
                assert(self.bridge_vars_out.deep_view() =~= outs0.push(promoted(ins[i as int])));
                assert(linked.deep_view() =~= linked0.push(
                    tied(ins[i as int], outs0.len() as int),
                ));
            } else {
                kept.push(var);
                assert(kept.deep_view() =~= kept0.push(ins[i as int]));
            }
            i = i + 1;
        }
        let ghost done = resolve_inputs(ins, 0, start);
        assert(kept.deep_view() == done.kept);
        assert(linked.deep_view() == done.linked);
        kept.append(&mut linked);
        assert(kept.deep_view() =~= done.kept + done.linked);
        self.bridge_vars_in = kept;
    }
}

} // verus!
