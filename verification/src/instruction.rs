//! Instruction blocks: the placeholders of the instruction text are rewritten
//! into operand positions.

use crate::diag::help;
use crate::diag::note;
use crate::diag::warn;
use crate::diag::warning;
use crate::diag::Diagnostic;
use crate::diag::DiagnosticView;
use crate::diag::Message;
use crate::diag::MessageView;
use crate::ident::ident_len;
use crate::ident::lemma_continue_run_bound;
use crate::ident::parse_ident_at_start;
use crate::operand::BridgeVar;
use crate::operand::Clobber;
use crate::operand::ClobberView;
use crate::operand::VarView;
use crate::registry::find_var_by_ident;
use crate::registry::position;
use crate::text::chars_of;
use crate::text::decimal;
use crate::text::decimal_string;
use crate::token::Token;
use crate::token::TokenView;
use proc_macro2::Span;
use vstd::prelude::*;
use vstd::string::*;

verus! {

/// An instruction block: its options, its instruction text, and the operands
/// that were in scope where it stands.
#[derive(Debug)]
pub struct AsmBlock {
    /// The options, each a string literal.
    pub options: Vec<Token>,
    /// The instruction text and the place of its literal, if the block has one.
    pub asm_unchanged: Option<(String, Span)>,
    pub bridge_vars_out: Vec<BridgeVar>,
    pub bridge_vars_in: Vec<BridgeVar>,
    pub clobbers: Vec<Clobber>,
}

/// What an instruction block holds, in views.
pub ghost struct AsmBlockView {
    pub options: Seq<TokenView>,
    pub asm_unchanged: Option<(Seq<char>, Span)>,
    pub bridge_vars_out: Seq<VarView>,
    pub bridge_vars_in: Seq<VarView>,
    pub clobbers: Seq<ClobberView>,
}

impl View for AsmBlock {
    type V = AsmBlockView;

    open spec fn view(&self) -> AsmBlockView {
        AsmBlockView {
            options: self.options.deep_view(),
            asm_unchanged: match self.asm_unchanged {
                Some((text, span)) => Some((text@, span)),
                None => None,
            },
            bridge_vars_out: self.bridge_vars_out.deep_view(),
            bridge_vars_in: self.bridge_vars_in.deep_view(),
            clobbers: self.clobbers.deep_view(),
        }
    }
}

/// The operand position that a placeholder for `name` stands for: the
/// position among the outputs, or else the position among the inputs counted
/// on from the outputs.
pub open spec fn operand_index(outs: Seq<VarView>, ins: Seq<VarView>, name: Seq<char>) -> Option<
    int,
> {
    match position(outs, name) {
        Some(i) => Some(i),
        None => match position(ins, name) {
            Some(k) => Some(outs.len() + k),
            None => None,
        },
    }
}

/// What one step of the scan does at a position of the instruction text.
pub ghost struct Step {
    /// Where the scan goes on.
    pub next: int,
    /// The text that the step writes.
    pub emitted: Seq<char>,
    /// The variable that the step resolved a placeholder to, if it did.
    pub used: Seq<Seq<char>>,
    /// The diagnostics of the step.
    pub diagnostics: Seq<DiagnosticView>,
}

/// The two diagnostics for a `$` that no identifier follows.
pub open spec fn expected_identifier(span: Span) -> Seq<DiagnosticView> {
    seq![
        warning(MessageView::ExpectedIdentifier, span),
        note(MessageView::LiteralDollar, span),
    ]
}

/// The two diagnostics for a placeholder that names no variable in scope.
pub open spec fn unrecognized(name: Seq<char>, span: Span) -> Seq<DiagnosticView> {
    seq![
        warning(MessageView::UnrecognizedVariable(name), span),
        note(MessageView::DeclareVariable, span),
    ]
}

/// The step of the scan at `pos`, a position inside `text`.
///
/// A character other than `$` is copied. `$$` is copied as it is. `$` with
/// the name of a variable in scope becomes `$` and the variable's operand
/// position. Any other `$` is copied with the character after it, if there
/// is one, and reported.
pub open spec fn step(
    text: Seq<char>,
    pos: int,
    outs: Seq<VarView>,
    ins: Seq<VarView>,
    span: Span,
) -> Step {
    if text[pos] != '$' {
        Step { next: pos + 1, emitted: seq![text[pos]], used: seq![], diagnostics: seq![] }
    } else if pos + 1 >= text.len() {
        Step {
            next: pos + 1,
            emitted: seq!['$'],
            used: seq![],
            diagnostics: expected_identifier(span),
        }
    } else if text[pos + 1] == '$' {
        Step { next: pos + 2, emitted: seq!['$', '$'], used: seq![], diagnostics: seq![] }
    } else {
        match ident_len(text, pos + 1) {
            Some(n) => {
                let name = text.subrange(pos + 1, pos + 1 + n);
                match operand_index(outs, ins, name) {
                    Some(index) => Step {
                        next: pos + 1 + n,
                        emitted: seq!['$'] + decimal(index as nat),
                        used: seq![name],
                        diagnostics: seq![],
                    },
                    None => Step {
                        next: pos + 2,
                        emitted: seq!['$', text[pos + 1]],
                        used: seq![],
                        diagnostics: unrecognized(name, span),
                    },
                }
            },
            None => Step {
                next: pos + 2,
                emitted: seq!['$', text[pos + 1]],
                used: seq![],
                diagnostics: expected_identifier(span),
            },
        }
    }
}

/// Every step of the scan moves on, and stays inside the text.
pub proof fn lemma_step_advances(
    text: Seq<char>,
    pos: int,
    outs: Seq<VarView>,
    ins: Seq<VarView>,
    span: Span,
)
    requires
        0 <= pos < text.len(),
    ensures
        pos < step(text, pos, outs, ins, span).next <= text.len(),
{
    if pos + 1 < text.len() {
        lemma_continue_run_bound(text, pos + 2);
    }
}

/// The instruction text from `pos` on, rewritten.
pub open spec fn rewritten_from(
    text: Seq<char>,
    pos: int,
    outs: Seq<VarView>,
    ins: Seq<VarView>,
    span: Span,
) -> Seq<char>
    decreases text.len() - pos,
    via rewritten_from_decreases
{
    if 0 <= pos < text.len() {
        let s = step(text, pos, outs, ins, span);
        s.emitted + rewritten_from(text, s.next, outs, ins, span)
    } else {
        seq![]
    }
}

/// The variables that the placeholders from `pos` on resolve to, in the order
/// of the placeholders.
pub open spec fn used_from(
    text: Seq<char>,
    pos: int,
    outs: Seq<VarView>,
    ins: Seq<VarView>,
    span: Span,
) -> Seq<Seq<char>>
    decreases text.len() - pos,
    via used_from_decreases
{
    if 0 <= pos < text.len() {
        let s = step(text, pos, outs, ins, span);
        s.used + used_from(text, s.next, outs, ins, span)
    } else {
        seq![]
    }
}

/// The diagnostics of the scan from `pos` on.
pub open spec fn diagnostics_from(
    text: Seq<char>,
    pos: int,
    outs: Seq<VarView>,
    ins: Seq<VarView>,
    span: Span,
) -> Seq<DiagnosticView>
    decreases text.len() - pos,
    via diagnostics_from_decreases
{
    if 0 <= pos < text.len() {
        let s = step(text, pos, outs, ins, span);
        s.diagnostics + diagnostics_from(text, s.next, outs, ins, span)
    } else {
        seq![]
    }
}

/// Whether the output at `k` is to be reported as unused: nothing refers to
/// its name, and no output before it has that name.
pub open spec fn unused_output(outs: Seq<VarView>, k: int, used: Seq<Seq<char>>) -> bool {
    !used.contains(outs[k].name) && position(outs, outs[k].name) == Some(k)
}

/// Whether the input at `k` is to be reported as unused: nothing refers to
/// its name, and neither an output nor an input before it has that name.
pub open spec fn unused_input(
    outs: Seq<VarView>,
    ins: Seq<VarView>,
    k: int,
    used: Seq<Seq<char>>,
) -> bool {
    !used.contains(ins[k].name) && position(outs, ins[k].name) is None && position(
        ins,
        ins[k].name,
    ) == Some(k)
}

/// The two diagnostics for a variable that the instruction text does not
/// refer to.
pub open spec fn unused(var: VarView, block: Span) -> Seq<DiagnosticView> {
    seq![
        warning(MessageView::UnusedVariable(var.name), var.name_span),
        note(MessageView::InThisBlock, block),
    ]
}

/// The diagnostics for the unused outputs from position `k` on.
pub open spec fn unused_outputs_from(
    outs: Seq<VarView>,
    k: int,
    used: Seq<Seq<char>>,
    block: Span,
) -> Seq<DiagnosticView>
    decreases outs.len() - k,
{
    if 0 <= k < outs.len() {
        let here = if unused_output(outs, k, used) {
            unused(outs[k], block)
        } else {
            seq![]
        };
        here + unused_outputs_from(outs, k + 1, used, block)
    } else {
        seq![]
    }
}

/// The diagnostics for the unused inputs from position `k` on.
pub open spec fn unused_inputs_from(
    outs: Seq<VarView>,
    ins: Seq<VarView>,
    k: int,
    used: Seq<Seq<char>>,
    block: Span,
) -> Seq<DiagnosticView>
    decreases ins.len() - k,
{
    if 0 <= k < ins.len() {
        let here = if unused_input(outs, ins, k, used) {
            unused(ins[k], block)
        } else {
            seq![]
        };
        here + unused_inputs_from(outs, ins, k + 1, used, block)
    } else {
        seq![]
    }
}

/// The diagnostics for the variables in scope that `used` does not hold:
/// one warning and one note for each such variable, the outputs first.
pub open spec fn unused_diagnostics(
    outs: Seq<VarView>,
    ins: Seq<VarView>,
    used: Seq<Seq<char>>,
    block: Span,
) -> Seq<DiagnosticView> {
    unused_outputs_from(outs, 0, used, block) + unused_inputs_from(outs, ins, 0, used, block)
}

/// Whether `names` holds `name`.
pub fn contains_name(names: &Vec<String>, name: &String) -> (r: bool)
    ensures
        r == names.deep_view().contains(name@),
{
    let mut i: usize = 0;
    while i < names.len()
        invariant
            i <= names.len(),
            forall|j: int| 0 <= j < i ==> names.deep_view()[j] != name@,
        decreases names.len() - i,
    {
        if names[i] == *name {
            assert(names.deep_view()[i as int] == name@);
            return true;
        }
        i = i + 1;
    }
    false
}

impl AsmBlock {
    /// Reads the identifier that begins at `start` and translates it into its
    /// operand position. Returns the identifier, the position as a decimal
    /// numeral, and the identifier's length; or nothing, with a report, where
    /// no identifier begins there or it names no variable in scope.
    pub fn consume_translate_ident(
        &self,
        text: &Vec<char>,
        start: usize,
        span: Span,
        sink: &mut Vec<Diagnostic>,
    ) -> (r: Option<(String, String, usize)>)
        ensures
            match ident_len(text@, start as int) {
                Some(n) => {
                    let name = text@.subrange(start as int, start + n);
                    match operand_index(
                        self.bridge_vars_out.deep_view(),
                        self.bridge_vars_in.deep_view(),
                        name,
                    ) {
                        Some(index) => r matches Some((ident, replacement, len)) && ident@ == name
                            && replacement@ == decimal(index as nat) && len == n
                            && final(sink).deep_view() == old(sink).deep_view(),
                        None => r is None && final(sink).deep_view() == old(sink).deep_view()
                            + unrecognized(name, span),
                    }
                },
                None => r is None && final(sink).deep_view() == old(sink).deep_view()
                    + expected_identifier(span),
            },
    {
        let output_regs_count = self.bridge_vars_out.len();
        match parse_ident_at_start(text, start) {
            Some((ident, length)) => {
                if let Some(index) = find_var_by_ident(&self.bridge_vars_out, &ident) {
                    Some((ident, decimal_string(index as u128), length))
                } else if let Some(index) = find_var_by_ident(&self.bridge_vars_in, &ident) {
                    let place = index as u128 + output_regs_count as u128;
                    Some((ident, decimal_string(place), length))
                } else {
                    let ghost before = sink.deep_view();
                    let ghost name = ident@;
                    warn(sink, span, Message::UnrecognizedVariable(ident));
                    help(sink, span, Message::DeclareVariable);
                    assert(sink.deep_view() =~= before + unrecognized(name, span));
                    None
                }
            },
            None => {
                let ghost before = sink.deep_view();
                warn(sink, span, Message::ExpectedIdentifier);
                help(sink, span, Message::LiteralDollar);
                assert(sink.deep_view() =~= before + expected_identifier(span));
                None
            },
        }
    }

    /// Rewrites every placeholder of `orig` that names a variable in scope
    /// into that variable's operand position. Returns the rewritten text and
    /// the names that were resolved, in the order of their placeholders.
    pub fn replace_identifiers(&self, orig: &str, span: Span, sink: &mut Vec<Diagnostic>) -> (r: (
        String,
        Vec<String>,
    ))
        ensures
            r.0@ == rewritten_from(
                orig@,
                0,
                self.bridge_vars_out.deep_view(),
                self.bridge_vars_in.deep_view(),
                span,
            ),
            r.1.deep_view() == used_from(
                orig@,
                0,
                self.bridge_vars_out.deep_view(),
                self.bridge_vars_in.deep_view(),
                span,
            ),
            final(sink).deep_view() == old(sink).deep_view() + diagnostics_from(
                orig@,
                0,
                self.bridge_vars_out.deep_view(),
                self.bridge_vars_in.deep_view(),
                span,
            ),
    {
        let chars = chars_of(orig);
        let mut result = String::new();
        let mut used_idents: Vec<String> = Vec::new();
        let mut pos: usize = 0;
        let ghost text = orig@;
        let ghost outs = self.bridge_vars_out.deep_view();
        let ghost ins = self.bridge_vars_in.deep_view();
        let ghost before = sink.deep_view();
        assert(used_idents.deep_view() =~= Seq::<Seq<char>>::empty());
        while pos < chars.len()
            invariant
                pos <= chars.len(),
                chars@ == text,
                outs == self.bridge_vars_out.deep_view(),
                ins == self.bridge_vars_in.deep_view(),
                result@ + rewritten_from(text, pos as int, outs, ins, span) == rewritten_from(
                    text,
                    0,
                    outs,
                    ins,
                    span,
                ),
                used_idents.deep_view() + used_from(text, pos as int, outs, ins, span)
                    == used_from(text, 0, outs, ins, span),
                sink.deep_view() + diagnostics_from(text, pos as int, outs, ins, span) == before
                    + diagnostics_from(text, 0, outs, ins, span),
            decreases chars.len() - pos,
        {
            let ghost s = step(text, pos as int, outs, ins, span);
            let ghost result0 = result@;
            let ghost used0 = used_idents.deep_view();
            let ghost sink0 = sink.deep_view();
            proof {
                lemma_step_advances(text, pos as int, outs, ins, span);
            }
            let c = chars[pos];
            result.push(c);
            if c != '$' {
                pos = pos + 1;
            } else if pos + 1 >= chars.len() {
                warn(sink, span, Message::ExpectedIdentifier);
                help(sink, span, Message::LiteralDollar);
                pos = pos + 1;
            } else {
                let c2 = chars[pos + 1];
                if c2 == '$' {
                    result.push(c2);
                    pos = pos + 2;
                } else {
                    match self.consume_translate_ident(&chars, pos + 1, span, sink) {
                        Some((ident, replacement, length)) => {
                            result.append(replacement.as_str());
                            used_idents.push(ident);
                            pos = pos + 1 + length;
                        },
                        None => {
                            result.push(c2);
                            pos = pos + 2;
                        },
                    }
                }
            }
            assert(pos == s.next);
            assert(result@ =~= result0 + s.emitted);
            assert(used_idents.deep_view() =~= used0 + s.used);
            assert(sink.deep_view() =~= sink0 + s.diagnostics);
            assert(result@ + rewritten_from(text, pos as int, outs, ins, span) =~= result0 + (
            s.emitted + rewritten_from(text, s.next, outs, ins, span)));
            assert(used_idents.deep_view() + used_from(text, pos as int, outs, ins, span)
                =~= used0 + (s.used + used_from(text, s.next, outs, ins, span)));
            assert(sink.deep_view() + diagnostics_from(text, pos as int, outs, ins, span)
                =~= sink0 + (s.diagnostics + diagnostics_from(text, s.next, outs, ins, span)));
        }
        assert(result@ =~= rewritten_from(text, 0, outs, ins, span));
        assert(used_idents.deep_view() =~= used_from(text, 0, outs, ins, span));
        assert(sink.deep_view() =~= before + diagnostics_from(text, 0, outs, ins, span));
        (result, used_idents)
    }

    /// Reports every variable in scope that `used` does not hold.
    pub fn report_unused(&self, used: &Vec<String>, block: Span, sink: &mut Vec<Diagnostic>)
        ensures
            final(sink).deep_view() == old(sink).deep_view() + unused_diagnostics(
                self.bridge_vars_out.deep_view(),
                self.bridge_vars_in.deep_view(),
                used.deep_view(),
                block,
            ),
    {
        let ghost outs = self.bridge_vars_out.deep_view();
        let ghost ins = self.bridge_vars_in.deep_view();
        let ghost names = used.deep_view();
        let ghost before = sink.deep_view();
        let mut k: usize = 0;
        while k < self.bridge_vars_out.len()
            invariant
                k <= self.bridge_vars_out.len(),
                outs == self.bridge_vars_out.deep_view(),
                names == used.deep_view(),
                sink.deep_view() + unused_outputs_from(outs, k as int, names, block) == before
                    + unused_outputs_from(outs, 0, names, block),
            decreases self.bridge_vars_out.len() - k,
        {
            let ghost sink0 = sink.deep_view();
            let var = &self.bridge_vars_out[k];
            let first = find_var_by_ident(&self.bridge_vars_out, &var.name);
            if !contains_name(used, &var.name) && first == Some(k) {
                warn(sink, var.name_span, Message::UnusedVariable(var.name.clone()));
                help(sink, block, Message::InThisBlock);
                assert(sink.deep_view() =~= sink0 + unused(outs[k as int], block));
            } else {
                assert(sink.deep_view() =~= sink0 + Seq::<DiagnosticView>::empty());
            }
            k = k + 1;
            assert(sink.deep_view() + unused_outputs_from(outs, k as int, names, block) =~= sink0
                + unused_outputs_from(outs, k - 1, names, block));
        }
        let ghost middle = sink.deep_view();
        assert(middle =~= before + unused_outputs_from(outs, 0, names, block));
        let mut k: usize = 0;
        while k < self.bridge_vars_in.len()
            invariant
                k <= self.bridge_vars_in.len(),
                outs == self.bridge_vars_out.deep_view(),
                ins == self.bridge_vars_in.deep_view(),
                names == used.deep_view(),
                sink.deep_view() + unused_inputs_from(outs, ins, k as int, names, block) == middle
                    + unused_inputs_from(outs, ins, 0, names, block),
            decreases self.bridge_vars_in.len() - k,
        {
            let ghost sink0 = sink.deep_view();
            let var = &self.bridge_vars_in[k];
            let among_outputs = find_var_by_ident(&self.bridge_vars_out, &var.name);
            let first = find_var_by_ident(&self.bridge_vars_in, &var.name);
            if !contains_name(used, &var.name) && among_outputs.is_none() && first == Some(k) {
                warn(sink, var.name_span, Message::UnusedVariable(var.name.clone()));
                help(sink, block, Message::InThisBlock);
                assert(sink.deep_view() =~= sink0 + unused(ins[k as int], block));
            } else {
                assert(sink.deep_view() =~= sink0 + Seq::<DiagnosticView>::empty());
            }
            k = k + 1;
            assert(sink.deep_view() + unused_inputs_from(outs, ins, k as int, names, block)
                =~= sink0 + unused_inputs_from(outs, ins, k - 1, names, block));
        }
        assert(sink.deep_view() =~= before + unused_diagnostics(outs, ins, names, block));
    }
}

#[via_fn]
proof fn rewritten_from_decreases(
    text: Seq<char>,
    pos: int,
    outs: Seq<VarView>,
    ins: Seq<VarView>,
    span: Span,
) {
    if 0 <= pos < text.len() {
        lemma_step_advances(text, pos, outs, ins, span);
    }
}

#[via_fn]
proof fn used_from_decreases(
    text: Seq<char>,
    pos: int,
    outs: Seq<VarView>,
    ins: Seq<VarView>,
    span: Span,
) {
    if 0 <= pos < text.len() {
        lemma_step_advances(text, pos, outs, ins, span);
    }
}

#[via_fn]
proof fn diagnostics_from_decreases(
    text: Seq<char>,
    pos: int,
    outs: Seq<VarView>,
    ins: Seq<VarView>,
    span: Span,
) {
    if 0 <= pos < text.len() {
        lemma_step_advances(text, pos, outs, ins, span);
    }
}

} // verus!
