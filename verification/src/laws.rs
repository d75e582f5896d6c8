//! What holds of the lowering whatever it is given.

use crate::block::extended;
use crate::block::parsed_block;
use crate::block::passed_through;
use crate::block::piece_at;
use crate::block::span_at;
use crate::block::Failure;
use crate::host::inner_hints;
use crate::host::Hint;
use crate::block::PieceView;
use crate::block::Reading;
use crate::block::ScopeView;
use crate::decl::distinct_clobbers;
use crate::decl::inputs_after;
use crate::decl::outputs_after;
use crate::decl::Binding;
use crate::decl::ConstraintKeyword;
use crate::diag::DiagnosticView;
use crate::diag::MessageView;
use crate::instruction::unused;
use crate::instruction::unused_diagnostics;
use crate::instruction::unused_input;
use crate::instruction::unused_inputs_from;
use crate::instruction::unused_output;
use crate::instruction::unused_outputs_from;
use crate::grammar::group_at;
use crate::grammar::is_word;
use crate::grammar::parsed_asm;
use crate::grammar::parsed_clobber;
use crate::grammar::parsed_decl;
use crate::instruction::diagnostics_from;
use crate::invariants::lemma_clobbers_stay_distinct;
use crate::instruction::rewritten_from;
use crate::instruction::used_from;
use crate::operand::VarView;
use crate::registry::lemma_position;
use crate::registry::lemma_position_is;
use crate::registry::distinct_names;
use crate::registry::position;
use crate::registry::pushed;
use crate::registry::swap_removed;
use crate::registry::unlinked;
use crate::decl::slot;
use crate::text::decimal;
use crate::token::Delimiter;
use crate::token::TokenView;
use proc_macro2::Span;
use vstd::prelude::*;

verus! {

/// Where the scan of an instruction text meets `$$`, it copies the two
/// characters as they are, resolves no placeholder and reports nothing, and
/// goes on behind them.
pub proof fn lemma_escaped_dollar_survives(
    text: Seq<char>,
    pos: int,
    outs: Seq<VarView>,
    ins: Seq<VarView>,
    span: Span,
)
    requires
        0 <= pos,
        pos + 1 < text.len(),
        text[pos] == '$',
        text[pos + 1] == '$',
    ensures
        rewritten_from(text, pos, outs, ins, span) == seq!['$', '$'] + rewritten_from(
            text,
            pos + 2,
            outs,
            ins,
            span,
        ),
        used_from(text, pos, outs, ins, span) == used_from(text, pos + 2, outs, ins, span),
        diagnostics_from(text, pos, outs, ins, span) == diagnostics_from(
            text,
            pos + 2,
            outs,
            ins,
            span,
        ),
{
    assert(used_from(text, pos, outs, ins, span) =~= used_from(text, pos + 2, outs, ins, span));
    assert(diagnostics_from(text, pos, outs, ins, span) =~= diagnostics_from(
        text,
        pos + 2,
        outs,
        ins,
        span,
    ));
}

/// A nested block is read with the registries of the place it stands at, and
/// what follows it is read with those same registries: nothing that is
/// declared inside the braces is in scope behind them. Where the nested block
/// fails, the reading fails with it.
pub proof fn lemma_nested_scope_is_discarded(
    tokens: Seq<TokenView>,
    hints: Seq<Hint>,
    pos: int,
    scope: ScopeView,
    inner: Seq<TokenView>,
)
    requires
        group_at(tokens, pos, Delimiter::Brace) == Some(inner),
    ensures
        parsed_block(tokens, hints, pos, scope) == match parsed_block(
            inner,
            inner_hints(hints, pos),
            0,
            scope,
        ) {
            Ok(nested) => extended(
                seq![PieceView::Block(span_at(tokens, pos), nested.pieces)],
                nested.diagnostics,
                parsed_block(tokens, hints, pos + 1, scope),
            ),
            Err(failure) => Err(failure),
        },
{
}

/// Where the keyword of an instruction block stands and no instruction block
/// can be read, the keyword alone is ordinary code: the reading goes on
/// behind it with the registries as they were, and does not fail there.
pub proof fn lemma_malformed_block_is_ordinary_code(
    tokens: Seq<TokenView>,
    hints: Seq<Hint>,
    pos: int,
    scope: ScopeView,
    nested: Result<Reading, Failure>,
)
    requires
        is_word(tokens, pos, "asm"@),
        parsed_asm(tokens, pos, scope.outputs, scope.inputs, scope.clobbers) is None,
    ensures
        piece_at(tokens, hints, pos, scope, nested) == Ok::<_, Failure>(
            passed_through(tokens, pos, scope),
        ),
        passed_through(tokens, pos, scope).piece == PieceView::Tokens(seq![tokens[pos]]),
        passed_through(tokens, pos, scope).next == pos + 1,
        passed_through(tokens, pos, scope).scope == scope,
{
    reveal_strlit("asm");
    reveal_strlit("let");
    reveal_strlit("clobber");
    assert("asm"@[0] != "let"@[0]);
    assert("asm"@.len() != "clobber"@.len());
}

/// After `var` was put into `vars`, it is the variable that is found under
/// its name, at the place where one of that name stood or at the end.
pub proof fn lemma_pushed_position(vars: Seq<VarView>, var: VarView)
    ensures
        position(pushed(vars, var), var.name) == Some(slot(vars, var.name)),
        0 <= slot(vars, var.name) < pushed(vars, var).len(),
        pushed(vars, var)[slot(vars, var.name)] == var,
        position(vars, var.name) is Some ==> pushed(vars, var).len() == vars.len(),
        position(vars, var.name) is None ==> pushed(vars, var).len() == vars.len() + 1,
{
    lemma_position(vars, var.name);
    lemma_position_is(pushed(vars, var), var.name, slot(vars, var.name));
}

/// Putting `var` into `vars` leaves the variables of every other name where
/// and what they were.
pub proof fn lemma_pushed_others(vars: Seq<VarView>, var: VarView, other: Seq<char>)
    requires
        other != var.name,
    ensures
        position(pushed(vars, var), other) == position(vars, other),
        position(vars, other) matches Some(i) ==> pushed(vars, var)[i] == vars[i],
{
    lemma_position(vars, var.name);
    lemma_position(vars, other);
    lemma_position(pushed(vars, var), other);
    match position(vars, other) {
        Some(i) => {
            lemma_position_is(pushed(vars, var), other, i);
        },
        None => {
            if position(pushed(vars, var), other) is Some {
                let i = position(pushed(vars, var), other)->0;
                if i < vars.len() {
                    assert(vars[i].name != other);
                }
            }
        },
    }
}

/// Putting `var` into a registry without two variables of one name gives
/// such a registry.
pub proof fn lemma_pushed_distinct(vars: Seq<VarView>, var: VarView)
    requires
        distinct_names(vars),
    ensures
        distinct_names(pushed(vars, var)),
{
    lemma_position(vars, var.name);
    let after = pushed(vars, var);
    assert forall|i: int, j: int| 0 <= i < j < after.len() implies (#[trigger] after[i]).name != (
    #[trigger] after[j]).name by {
        match position(vars, var.name) {
            Some(p) => {
                assert(after[i].name == vars[i].name);
                assert(after[j].name == vars[j].name);
            },
            None => {
                if j < vars.len() {
                    assert(after[i] == vars[i]);
                    assert(after[j] == vars[j]);
                } else {
                    assert(after[i] == vars[i]);
                }
            },
        }
    }
}

/// The variable that is found in `vars` under `name`.
pub open spec fn entry(vars: Seq<VarView>, name: Seq<char>) -> Option<VarView> {
    match position(vars, name) {
        Some(i) => Some(vars[i]),
        None => None,
    }
}

/// In a registry without two variables of one name, a variable is found
/// under its name wherever it stands.
pub proof fn lemma_entry_at(vars: Seq<VarView>, i: int)
    requires
        distinct_names(vars),
        0 <= i < vars.len(),
    ensures
        position(vars, vars[i].name) == Some(i),
{
    lemma_position_is(vars, vars[i].name, i);
}

/// Taking the variable at `i` out of a registry without two variables of one
/// name gives such a registry.
pub proof fn lemma_swap_removed_distinct(vars: Seq<VarView>, i: int)
    requires
        distinct_names(vars),
        0 <= i < vars.len(),
    ensures
        distinct_names(swap_removed(vars, i)),
{
    let after = swap_removed(vars, i);
    let last = vars.len() - 1;
    assert forall|a: int, b: int| 0 <= a < b < after.len() implies (#[trigger] after[a]).name != (
    #[trigger] after[b]).name by {
        let x = if a == i {
            last
        } else {
            a
        };
        let y = if b == i {
            last
        } else {
            b
        };
        assert(after[a] == vars[x]);
        assert(after[b] == vars[y]);
        if x < y {
            assert(vars[x].name != vars[y].name);
        } else {
            assert(vars[y].name != vars[x].name);
        }
    }
}

/// Taking the variable at `i` out of a registry without two variables of one
/// name leaves the variables of every other name found as before.
pub proof fn lemma_swap_removed_others(vars: Seq<VarView>, i: int, other: Seq<char>)
    requires
        distinct_names(vars),
        0 <= i < vars.len(),
        other != vars[i].name,
    ensures
        entry(swap_removed(vars, i), other) == entry(vars, other),
{
    let after = swap_removed(vars, i);
    let last = vars.len() - 1;
    lemma_swap_removed_distinct(vars, i);
    lemma_position(vars, other);
    lemma_position(after, other);
    match position(vars, other) {
        Some(p) => {
            let q = if p == last {
                i
            } else {
                p
            };
            assert(after[q] == vars[p]);
            lemma_entry_at(after, q);
        },
        None => {
            if position(after, other) is Some {
                let q = position(after, other)->0;
                let x = if q == i {
                    last
                } else {
                    q
                };
                assert(after[q] == vars[x]);
                assert(vars[x].name == other);
            }
        },
    }
}

/// Dropping the input that is tied to an output leaves a registry without two
/// variables of one name such a registry.
pub proof fn lemma_unlinked_distinct(vars: Seq<VarView>, name: Seq<char>, constraint: Seq<char>)
    requires
        distinct_names(vars),
    ensures
        distinct_names(unlinked(vars, name, constraint)),
{
    lemma_position(vars, name);
    match position(vars, name) {
        Some(i) => {
            lemma_swap_removed_distinct(vars, i);
        },
        None => {},
    }
}

/// Dropping the input that is tied to an output leaves the variables of every
/// other name found as before.
pub proof fn lemma_unlinked_others(
    vars: Seq<VarView>,
    name: Seq<char>,
    constraint: Seq<char>,
    other: Seq<char>,
)
    requires
        distinct_names(vars),
        other != name,
    ensures
        entry(unlinked(vars, name, constraint), other) == entry(vars, other),
{
    lemma_position(vars, name);
    match position(vars, name) {
        Some(i) => {
            lemma_swap_removed_others(vars, i, other);
        },
        None => {},
    }
}

/// The outputs after the first `n` of the declarations `bindings`, made in a
/// scope that was empty.
pub open spec fn outputs_declared(bindings: Seq<Binding>, n: int) -> Seq<VarView>
    decreases n,
{
    if n <= 0 {
        seq![]
    } else {
        outputs_after(outputs_declared(bindings, n - 1), bindings[n - 1])
    }
}

/// The inputs after the first `n` of the declarations `bindings`, made in a
/// scope that was empty.
pub open spec fn inputs_declared(bindings: Seq<Binding>, n: int) -> Seq<VarView>
    decreases n,
{
    if n <= 0 {
        seq![]
    } else {
        inputs_after(
            outputs_declared(bindings, n - 1),
            inputs_declared(bindings, n - 1),
            bindings[n - 1],
        )
    }
}

/// The declaration at `j` is the last of the first `n` declarations that
/// speaks of its variable.
pub open spec fn last_of_its_name(bindings: Seq<Binding>, j: int, n: int) -> bool {
    forall|k: int| j < k < n ==> (#[trigger] bindings[k]).name != bindings[j].name
}

/// The input found under `name` is tied to the output found under `name`: its
/// constraint is the decimal numeral of that output's position.
pub open spec fn tied_to_output(outs: Seq<VarView>, ins: Seq<VarView>, name: Seq<char>) -> bool {
    match (position(outs, name), entry(ins, name)) {
        (Some(i), Some(input)) => input.constraint == decimal(i as nat),
        _ => false,
    }
}

/// Whatever declarations are made, and in whatever order: no two outputs
/// have the same name, no two inputs have the same name, and a variable
/// whose last declaration gave it both directions has an input that is tied
/// to the position of its output.
pub proof fn lemma_declarations_keep_registries_sound(bindings: Seq<Binding>, n: int)
    requires
        0 <= n <= bindings.len(),
    ensures
        distinct_names(outputs_declared(bindings, n)),
        distinct_names(inputs_declared(bindings, n)),
        forall|j: int|
            0 <= j < n && (#[trigger] bindings[j]).direction == ConstraintKeyword::InOut
                && last_of_its_name(bindings, j, n) ==> tied_to_output(
                outputs_declared(bindings, n),
                inputs_declared(bindings, n),
                bindings[j].name,
            ),
    decreases n,
{
    if n > 0 {
        lemma_declarations_keep_registries_sound(bindings, n - 1);
        let outs = outputs_declared(bindings, n - 1);
        let ins = inputs_declared(bindings, n - 1);
        let b = bindings[n - 1];
        let outs2 = outputs_declared(bindings, n);
        let ins2 = inputs_declared(bindings, n);
        lemma_step_distinct(outs, ins, b);
        assert forall|j: int|
            0 <= j < n && (#[trigger] bindings[j]).direction == ConstraintKeyword::InOut
                && last_of_its_name(bindings, j, n) implies tied_to_output(
            outs2,
            ins2,
            bindings[j].name,
        ) by {
            if j == n - 1 {
                lemma_pushed_position(outs, b.output());
                lemma_pushed_position(ins, b.link(slot(outs, b.name)));
            } else {
                assert(bindings[n - 1].name != bindings[j].name);
                assert(last_of_its_name(bindings, j, n - 1));
                lemma_step_keeps_others(outs, ins, b, bindings[j].name);
            }
        }
    }
}

/// One declaration leaves registries without two variables of one name such
/// registries.
pub proof fn lemma_step_distinct(outs: Seq<VarView>, ins: Seq<VarView>, b: Binding)
    requires
        distinct_names(outs),
        distinct_names(ins),
    ensures
        distinct_names(outputs_after(outs, b)),
        distinct_names(inputs_after(outs, ins, b)),
{
    lemma_pushed_distinct(outs, b.output());
    lemma_pushed_distinct(ins, b.input());
    lemma_pushed_distinct(ins, b.link(slot(outs, b.name)));
    match position(outs, b.name) {
        Some(i) => {
            lemma_unlinked_distinct(ins, b.name, decimal(i as nat));
        },
        None => {},
    }
}

/// One declaration leaves the variables of every other name where and what
/// they were among the outputs, and what they were among the inputs.
pub proof fn lemma_step_keeps_others(
    outs: Seq<VarView>,
    ins: Seq<VarView>,
    b: Binding,
    other: Seq<char>,
)
    requires
        distinct_names(outs),
        distinct_names(ins),
        other != b.name,
    ensures
        position(outputs_after(outs, b), other) == position(outs, other),
        entry(inputs_after(outs, ins, b), other) == entry(ins, other),
{
    lemma_pushed_others(outs, b.output(), other);
    lemma_pushed_others(ins, b.input(), other);
    lemma_pushed_others(ins, b.link(slot(outs, b.name)), other);
    match position(outs, b.name) {
        Some(i) => {
            lemma_unlinked_others(ins, b.name, decimal(i as nat), other);
        },
        None => {},
    }
}

/// Declaring a variable once more with the direction it was declared with
/// overwrites it in the registry of that direction where it stands: the
/// registry keeps its length, and the variable its position.
pub proof fn lemma_redeclared_in_place(
    outs: Seq<VarView>,
    ins: Seq<VarView>,
    first: Binding,
    second: Binding,
)
    requires
        first.name == second.name,
        first.direction == second.direction,
    ensures
        ({
            let outs1 = outputs_after(outs, first);
            let ins1 = inputs_after(outs, ins, first);
            let outs2 = outputs_after(outs1, second);
            let ins2 = inputs_after(outs1, ins1, second);
            &&& first.direction != ConstraintKeyword::In ==> {
                &&& outs2.len() == outs1.len()
                &&& position(outs2, first.name) == position(outs1, first.name)
                &&& position(outs1, first.name) matches Some(i) && outs2 == outs1.update(
                    i,
                    second.output(),
                )
            }
            &&& first.direction == ConstraintKeyword::In ==> outs2 == outs
            &&& first.direction != ConstraintKeyword::Out ==> {
                &&& ins2.len() == ins1.len()
                &&& position(ins2, first.name) == position(ins1, first.name)
                &&& position(ins1, first.name) is Some
            }
            &&& first.direction == ConstraintKeyword::In ==> ins2 == ins1.update(
                position(ins1, first.name)->0,
                second.input(),
            )
            &&& first.direction == ConstraintKeyword::InOut ==> ins2 == ins1.update(
                position(ins1, first.name)->0,
                second.link(position(outs1, first.name)->0),
            )
        }),
{
    let outs1 = outputs_after(outs, first);
    let ins1 = inputs_after(outs, ins, first);
    lemma_pushed_position(outs, first.output());
    lemma_pushed_position(outs1, second.output());
    lemma_pushed_position(ins, first.input());
    lemma_pushed_position(ins1, second.input());
    lemma_pushed_position(ins, first.link(slot(outs, first.name)));
    lemma_pushed_position(ins1, second.link(slot(outs1, second.name)));
}

/// How many of `diagnostics` say that the variable `name` is not used.
pub open spec fn unused_reports(diagnostics: Seq<DiagnosticView>, name: Seq<char>) -> nat
    decreases diagnostics.len(),
{
    if diagnostics.len() == 0 {
        0
    } else {
        unused_reports(diagnostics.drop_last(), name) + if diagnostics.last().message
            == MessageView::UnusedVariable(name) {
            1nat
        } else {
            0nat
        }
    }
}

/// The reports in two runs of diagnostics add up.
pub proof fn lemma_unused_reports_add(
    a: Seq<DiagnosticView>,
    b: Seq<DiagnosticView>,
    name: Seq<char>,
)
    ensures
        unused_reports(a + b, name) == unused_reports(a, name) + unused_reports(b, name),
    decreases b.len(),
{
    if b.len() == 0 {
        assert(a + b =~= a);
    } else {
        lemma_unused_reports_add(a, b.drop_last(), name);
        assert((a + b).drop_last() =~= a + b.drop_last());
    }
}

/// The two diagnostics for an unused variable hold one report, of that
/// variable.
pub proof fn lemma_unused_pair(var: VarView, block: Span, name: Seq<char>)
    ensures
        unused_reports(unused(var, block), name) == if var.name == name {
            1nat
        } else {
            0nat
        },
{
    let pair = unused(var, block);
    assert(pair.drop_last() =~= seq![pair[0]]);
    assert(pair.drop_last().drop_last() =~= Seq::<DiagnosticView>::empty());
    reveal_with_fuel(unused_reports, 3);
}

/// Among the diagnostics for the outputs from `k` on, an output that nothing
/// refers to is reported once, where it is found under its name at `k` or
/// behind; no other name is reported.
pub proof fn lemma_unused_outputs(
    outs: Seq<VarView>,
    k: int,
    used: Seq<Seq<char>>,
    block: Span,
    name: Seq<char>,
)
    requires
        0 <= k,
    ensures
        unused_reports(unused_outputs_from(outs, k, used, block), name) == if !used.contains(name)
            && position(outs, name) is Some && position(outs, name)->0 >= k {
            1nat
        } else {
            0nat
        },
    decreases outs.len() - k,
{
    lemma_position(outs, name);
    if k < outs.len() {
        lemma_unused_outputs(outs, k + 1, used, block, name);
        lemma_position(outs, outs[k].name);
        let here = if unused_output(outs, k, used) {
            unused(outs[k], block)
        } else {
            seq![]
        };
        lemma_unused_pair(outs[k], block, name);
        lemma_unused_reports_add(here, unused_outputs_from(outs, k + 1, used, block), name);
    }
}

/// Among the diagnostics for the inputs from `k` on, an input that nothing
/// refers to and that is no output is reported once, where it is found under
/// its name at `k` or behind; no other name is reported.
pub proof fn lemma_unused_inputs(
    outs: Seq<VarView>,
    ins: Seq<VarView>,
    k: int,
    used: Seq<Seq<char>>,
    block: Span,
    name: Seq<char>,
)
    requires
        0 <= k,
    ensures
        unused_reports(unused_inputs_from(outs, ins, k, used, block), name) == if !used.contains(
            name,
        ) && position(outs, name) is None && position(ins, name) is Some && position(
            ins,
            name,
        )->0 >= k {
            1nat
        } else {
            0nat
        },
    decreases ins.len() - k,
{
    lemma_position(ins, name);
    if k < ins.len() {
        lemma_unused_inputs(outs, ins, k + 1, used, block, name);
        lemma_position(ins, ins[k].name);
        let here = if unused_input(outs, ins, k, used) {
            unused(ins[k], block)
        } else {
            seq![]
        };
        lemma_unused_pair(ins[k], block, name);
        lemma_unused_reports_add(here, unused_inputs_from(outs, ins, k + 1, used, block), name);
    }
}

/// A variable in scope that the instruction text does not refer to is
/// reported as unused exactly once, whether it is an output, an input or
/// both. A variable that is referred to, or that is not in scope, is not
/// reported.
pub proof fn lemma_unused_reported_once(
    outs: Seq<VarView>,
    ins: Seq<VarView>,
    used: Seq<Seq<char>>,
    block: Span,
    name: Seq<char>,
)
    ensures
        unused_reports(unused_diagnostics(outs, ins, used, block), name) == if !used.contains(
            name,
        ) && (position(outs, name) is Some || position(ins, name) is Some) {
            1nat
        } else {
            0nat
        },
{
    lemma_position(outs, name);
    lemma_position(ins, name);
    lemma_unused_outputs(outs, 0, used, block, name);
    lemma_unused_inputs(outs, ins, 0, used, block, name);
    lemma_unused_reports_add(
        unused_outputs_from(outs, 0, used, block),
        unused_inputs_from(outs, ins, 0, used, block),
        name,
    );
}

/// In the registries of a scope no two outputs have the same name, no two
/// inputs have the same name, and no two clobbers have the same text.
pub open spec fn sound(scope: ScopeView) -> bool {
    distinct_names(scope.outputs) && distinct_names(scope.inputs) && distinct_clobbers(
        scope.clobbers,
    )
}

/// Whatever piece is read, it leaves sound registries sound.
pub proof fn lemma_pieces_keep_scope_sound(
    tokens: Seq<TokenView>,
    hints: Seq<Hint>,
    pos: int,
    scope: ScopeView,
    nested: Result<Reading, Failure>,
)
    requires
        sound(scope),
    ensures
        piece_at(tokens, hints, pos, scope, nested) matches Ok(step) ==> sound(step.scope),
{
    match piece_at(tokens, hints, pos, scope, nested) {
        Ok(step) => {
            if step.scope != scope {
                if is_word(tokens, pos, "let"@) {
                    match parsed_decl(tokens, hints, pos) {
                        Some((decl, _)) => {
                            lemma_step_distinct(scope.outputs, scope.inputs, decl.binding());
                        },
                        None => {},
                    }
                } else {
                    match parsed_clobber(tokens, pos) {
                        Some((decl, _)) => {
                            lemma_clobbers_stay_distinct(scope.clobbers, decl);
                        },
                        None => {},
                    }
                }
            }
        },
        Err(_) => {},
    }
}

} // verus!
