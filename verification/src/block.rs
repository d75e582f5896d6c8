//! Blocks: a sequence of statements is read piece by piece. Declarations
//! change the registries of the scope they stand in; a nested block starts
//! from a copy of them and hands nothing back.

use crate::decl::clobbers_after;
use crate::decl::inputs_after;
use crate::decl::outputs_after;
use crate::decl::BridgeVarDecl;
use crate::decl::ClobberDecl;
use crate::decl::DeclView;
use crate::diag::Diagnostic;
use crate::diag::DiagnosticView;
use crate::grammar::group_at;
use crate::grammar::group_contents;
use crate::grammar::is_word;
use crate::grammar::parsed_asm;
use crate::grammar::parsed_clobber;
use crate::grammar::parsed_decl;
use crate::grammar::word_at;
use crate::host::inner_hints;
use crate::host::survey;
use crate::host::Hint;
use crate::instruction::AsmBlock;
use crate::instruction::AsmBlockView;
use crate::operand::BridgeVar;
use crate::operand::Clobber;
use crate::operand::ClobberView;
use crate::operand::VarView;
use crate::resolve::diagnostics_of_outputs;
use crate::resolve::resolved;
use crate::token::clone_range;
use crate::token::Delimiter;
use crate::token::Token;
use crate::token::TokenView;
use proc_macro2::Span;
use vstd::prelude::*;

verus! {

/// One piece of a block.
#[derive(Debug)]
pub enum RustyAsmPiece {
    /// A nested block, with the place of its braces.
    RustyAsmBlock(Span, RustyAsmBlock),
    BridgeVarDecl(BridgeVarDecl),
    ClobberDecl(ClobberDecl),
    AsmBlock(AsmBlock),
    /// Ordinary code, passed through as it is.
    TokenTrees(Vec<Token>),
}

/// A block: what stands between a pair of braces, or the whole input.
#[derive(Debug)]
pub struct RustyAsmBlock {
    pub contents: Vec<RustyAsmPiece>,
}

/// Why the input cannot be read as a block.
#[derive(Clone, Copy, Debug)]
pub enum ParseError {
    /// The input ends behind the head of a conditional or a loop that begins
    /// at this place, before the block that belongs to it.
    UnexpectedEnd(Span),
    /// A piece was asked for where the input has ended.
    EndOfInput,
}

/// What a piece holds, in views.
pub ghost enum PieceView {
    Block(Span, Seq<PieceView>),
    Decl(DeclView),
    Clobber(ClobberView),
    Asm(AsmBlockView),
    Tokens(Seq<TokenView>),
}

/// The view of a piece.
pub open spec fn piece_view(piece: RustyAsmPiece) -> PieceView
    decreases piece,
{
    match piece {
        RustyAsmPiece::RustyAsmBlock(span, block) => PieceView::Block(
            span,
            Seq::new(
                block.contents.len() as nat,
                |i: int|
                    if 0 <= i < block.contents.len() {
                        piece_view(block.contents[i])
                    } else {
                        arbitrary()
                    },
            ),
        ),
        RustyAsmPiece::BridgeVarDecl(decl) => PieceView::Decl(decl@),
        RustyAsmPiece::ClobberDecl(decl) => PieceView::Clobber(decl@),
        RustyAsmPiece::AsmBlock(block) => PieceView::Asm(block@),
        RustyAsmPiece::TokenTrees(tokens) => PieceView::Tokens(tokens.deep_view()),
    }
}

impl View for RustyAsmPiece {
    type V = PieceView;

    open spec fn view(&self) -> PieceView {
        piece_view(*self)
    }
}

impl DeepView for RustyAsmPiece {
    type V = PieceView;

    open spec fn deep_view(&self) -> PieceView {
        self@
    }
}

impl View for RustyAsmBlock {
    type V = Seq<PieceView>;

    open spec fn view(&self) -> Seq<PieceView> {
        self.contents.deep_view()
    }
}

/// The view of a nested block holds the views of its pieces.
pub proof fn lemma_block_view(span: Span, block: RustyAsmBlock)
    ensures
        RustyAsmPiece::RustyAsmBlock(span, block)@ == PieceView::Block(span, block@),
{
    let inner = piece_view(RustyAsmPiece::RustyAsmBlock(span, block))->Block_1;
    assert(inner =~= block@);
}

/// The registries of a scope.
pub ghost struct ScopeView {
    pub outputs: Seq<VarView>,
    pub inputs: Seq<VarView>,
    pub clobbers: Seq<ClobberView>,
}

/// What was read: the pieces, and the diagnostics that came up.
pub ghost struct Reading {
    pub pieces: Seq<PieceView>,
    pub diagnostics: Seq<DiagnosticView>,
}

/// A reading that failed: the error, and the diagnostics that came up before
/// it.
pub ghost struct Failure {
    pub error: ParseError,
    pub diagnostics: Seq<DiagnosticView>,
}

/// What reading one piece gives.
pub ghost struct PieceStep {
    pub piece: PieceView,
    /// Where the next piece begins.
    pub next: int,
    /// The registries behind the piece.
    pub scope: ScopeView,
    pub diagnostics: Seq<DiagnosticView>,
}

/// Where the token at `pos` was written.
pub open spec fn span_at(tokens: Seq<TokenView>, pos: int) -> Span {
    match tokens[pos] {
        TokenView::Ident(_, span) => span,
        TokenView::Punct(_, _, span) => span,
        TokenView::Str(_, span) => span,
        TokenView::Literal(_, span) => span,
        TokenView::Group(_, _, span) => span,
    }
}

/// The position of the first group in braces from `from` on.
pub open spec fn next_brace(tokens: Seq<TokenView>, from: int) -> Option<int>
    decreases tokens.len() - from,
{
    if 0 <= from < tokens.len() {
        if group_at(tokens, from, Delimiter::Brace) is Some {
            Some(from)
        } else {
            next_brace(tokens, from + 1)
        }
    } else {
        None
    }
}

/// The instruction block `block` after its clobbers were reconciled with its
/// operands.
pub open spec fn reconciled(block: AsmBlockView) -> AsmBlockView {
    let r = resolved(block.bridge_vars_out, block.bridge_vars_in, block.clobbers);
    AsmBlockView {
        options: block.options,
        asm_unchanged: block.asm_unchanged,
        bridge_vars_out: r.outputs,
        bridge_vars_in: r.kept + r.linked,
        clobbers: r.clobbers,
    }
}

/// The token at `pos` as ordinary code, with the registries as they are.
pub open spec fn passed_through(tokens: Seq<TokenView>, pos: int, scope: ScopeView) -> PieceStep {
    PieceStep {
        piece: PieceView::Tokens(seq![tokens[pos]]),
        next: pos + 1,
        scope,
        diagnostics: seq![],
    }
}

/// The piece that begins at `pos`, a position inside `tokens`, read with the
/// registries `scope`. Where the token at `pos` is a group in braces,
/// `nested` is what reading the inside of that group gave.
///
/// A group in braces is a nested block: it leaves the registries as they
/// are. `let`, `clobber` and `asm` begin a declaration or an instruction
/// block where one can be read there, and are ordinary code where none can.
/// `if` and `while` pass everything up to the next group in braces through,
/// and fail where none follows. Any other token is ordinary code. Behind the
/// last token there is no piece. A failure inside a nested block is the
/// failure of the piece. `hints` says where types and expressions end.
pub open spec fn piece_at(
    tokens: Seq<TokenView>,
    hints: Seq<Hint>,
    pos: int,
    scope: ScopeView,
    nested: Result<Reading, Failure>,
) -> Result<PieceStep, Failure> {
    if !(0 <= pos < tokens.len()) {
        Err(Failure { error: ParseError::EndOfInput, diagnostics: seq![] })
    } else if group_at(tokens, pos, Delimiter::Brace) is Some {
        match nested {
            Ok(inner) => Ok(
                PieceStep {
                    piece: PieceView::Block(span_at(tokens, pos), inner.pieces),
                    next: pos + 1,
                    scope,
                    diagnostics: inner.diagnostics,
                },
            ),
            Err(error) => Err(error),
        }
    } else if is_word(tokens, pos, "let"@) {
        match parsed_decl(tokens, hints, pos) {
            Some((decl, end)) => Ok(
                PieceStep {
                    piece: PieceView::Decl(decl),
                    next: end,
                    scope: ScopeView {
                        outputs: outputs_after(scope.outputs, decl.binding()),
                        inputs: inputs_after(scope.outputs, scope.inputs, decl.binding()),
                        clobbers: scope.clobbers,
                    },
                    diagnostics: seq![],
                },
            ),
            None => Ok(passed_through(tokens, pos, scope)),
        }
    } else if is_word(tokens, pos, "clobber"@) {
        match parsed_clobber(tokens, pos) {
            Some((decl, end)) => Ok(
                PieceStep {
                    piece: PieceView::Clobber(decl),
                    next: end,
                    scope: ScopeView {
                        outputs: scope.outputs,
                        inputs: scope.inputs,
                        clobbers: clobbers_after(scope.clobbers, decl),
                    },
                    diagnostics: seq![],
                },
            ),
            None => Ok(passed_through(tokens, pos, scope)),
        }
    } else if is_word(tokens, pos, "asm"@) {
        match parsed_asm(tokens, pos, scope.outputs, scope.inputs, scope.clobbers) {
            Some((block, end)) => Ok(
                PieceStep {
                    piece: PieceView::Asm(reconciled(block)),
                    next: end,
                    scope,
                    diagnostics: diagnostics_of_outputs(scope.outputs, 0, scope.clobbers),
                },
            ),
            None => Ok(passed_through(tokens, pos, scope)),
        }
    } else if is_word(tokens, pos, "if"@) || is_word(tokens, pos, "while"@) {
        match next_brace(tokens, pos) {
            Some(brace) => Ok(
                PieceStep {
                    piece: PieceView::Tokens(tokens.subrange(pos, brace)),
                    next: brace,
                    scope,
                    diagnostics: seq![],
                },
            ),
            None => Err(
                Failure {
                    error: ParseError::UnexpectedEnd(span_at(tokens, pos)),
                    diagnostics: seq![],
                },
            ),
        }
    } else {
        Ok(passed_through(tokens, pos, scope))
    }
}

/// Every piece ends behind the place it begins at, and inside the tokens.
pub proof fn lemma_piece_advances(
    tokens: Seq<TokenView>,
    hints: Seq<Hint>,
    pos: int,
    scope: ScopeView,
)
    requires
        0 <= pos < tokens.len(),
    ensures
        forall|nested: Result<Reading, Failure>|
            (#[trigger] piece_at(tokens, hints, pos, scope, nested)) matches Ok(step) ==> pos
                < step.next <= tokens.len(),
{
    lemma_next_brace(tokens, pos);
    lemma_decl_advances(tokens, hints, pos);
}

/// The next group in braces from `from` on stands at `from` or behind it,
/// and no group in braces stands between.
pub proof fn lemma_next_brace(tokens: Seq<TokenView>, from: int)
    requires
        0 <= from,
    ensures
        match next_brace(tokens, from) {
            Some(brace) => from <= brace < tokens.len() && group_at(
                tokens,
                brace,
                Delimiter::Brace,
            ) is Some && forall|k: int|
                from <= k < brace ==> group_at(tokens, k, Delimiter::Brace) is None,
            None => forall|k: int|
                from <= k < tokens.len() ==> group_at(tokens, k, Delimiter::Brace) is None,
        },
    decreases tokens.len() - from,
{
    if from < tokens.len() {
        lemma_next_brace(tokens, from + 1);
    }
}

/// A declaration or an instruction block that was read ends behind the place
/// it begins at, and inside the tokens.
pub proof fn lemma_decl_advances(tokens: Seq<TokenView>, hints: Seq<Hint>, pos: int)
    requires
        0 <= pos < tokens.len(),
    ensures
        parsed_decl(tokens, hints, pos) matches Some((_, end)) ==> pos < end <= tokens.len(),
        parsed_clobber(tokens, pos) matches Some((_, end)) ==> pos < end <= tokens.len(),
        forall|outs: Seq<VarView>, ins: Seq<VarView>, clobbers: Seq<ClobberView>|
            (#[trigger] parsed_asm(tokens, pos, outs, ins, clobbers)) matches Some((_, end))
                ==> pos < end <= tokens.len(),
{
}

/// `rest` with `pieces` and `diagnostics` put before what it holds. Where
/// `rest` failed, the pieces are lost and the diagnostics stay.
pub open spec fn extended(
    pieces: Seq<PieceView>,
    diagnostics: Seq<DiagnosticView>,
    rest: Result<Reading, Failure>,
) -> Result<Reading, Failure> {
    match rest {
        Ok(reading) => Ok(
            Reading {
                pieces: pieces + reading.pieces,
                diagnostics: diagnostics + reading.diagnostics,
            },
        ),
        Err(failure) => Err(
            Failure { error: failure.error, diagnostics: diagnostics + failure.diagnostics },
        ),
    }
}

/// The pieces from position `pos` on, read with the registries `scope` and
/// with the types and expressions that `hints` marks, and the diagnostics
/// that come up; or the failure that ends the reading.
pub open spec fn parsed_block(
    tokens: Seq<TokenView>,
    hints: Seq<Hint>,
    pos: int,
    scope: ScopeView,
) -> Result<Reading, Failure>
    decreases tokens, tokens.len() - pos,
    via parsed_block_decreases
{
    if 0 <= pos < tokens.len() {
        let nested = match group_at(tokens, pos, Delimiter::Brace) {
            Some(inner) => parsed_block(inner, inner_hints(hints, pos), 0, scope),
            None => Ok(Reading { pieces: seq![], diagnostics: seq![] }),
        };
        match piece_at(tokens, hints, pos, scope, nested) {
            Ok(step) => extended(
                seq![step.piece],
                step.diagnostics,
                parsed_block(tokens, hints, step.next, step.scope),
            ),
            Err(failure) => Err(failure),
        }
    } else {
        Ok(Reading { pieces: seq![], diagnostics: seq![] })
    }
}

#[via_fn]
proof fn parsed_block_decreases(
    tokens: Seq<TokenView>,
    hints: Seq<Hint>,
    pos: int,
    scope: ScopeView,
) {
    if 0 <= pos < tokens.len() {
        lemma_piece_advances(tokens, hints, pos, scope);
        if group_at(tokens, pos, Delimiter::Brace) is Some {
            assert(decreases_to!(tokens => tokens[pos]));
            assert(decreases_to!(tokens[pos] => tokens[pos]->Group_1));
        }
    }
}

/// Reading from `pos` on is reading the piece at `pos` and then reading from
/// behind it on, with the registries that the piece leaves.
pub proof fn lemma_block_step(
    tokens: Seq<TokenView>,
    hints: Seq<Hint>,
    pos: int,
    scope: ScopeView,
)
    requires
        0 <= pos < tokens.len(),
    ensures
        parsed_block(tokens, hints, pos, scope) == match piece_at(
            tokens,
            hints,
            pos,
            scope,
            nested_at(tokens, hints, pos, scope),
        ) {
            Ok(step) => extended(
                seq![step.piece],
                step.diagnostics,
                parsed_block(tokens, hints, step.next, step.scope),
            ),
            Err(failure) => Err(failure),
        },
{
}

/// Putting two runs of pieces before a reading, one after the other, is
/// putting both before it at once.
pub proof fn lemma_extended_twice(
    pieces: Seq<PieceView>,
    diagnostics: Seq<DiagnosticView>,
    piece: PieceView,
    more: Seq<DiagnosticView>,
    rest: Result<Reading, Failure>,
)
    ensures
        extended(pieces, diagnostics, extended(seq![piece], more, rest)) == extended(
            pieces.push(piece),
            diagnostics + more,
            rest,
        ),
{
    match rest {
        Ok(reading) => {
            assert(pieces + (seq![piece] + reading.pieces) =~= pieces.push(piece)
                + reading.pieces);
            assert(diagnostics + (more + reading.diagnostics) =~= (diagnostics + more)
                + reading.diagnostics);
        },
        Err(failure) => {
            assert(diagnostics + (more + failure.diagnostics) =~= (diagnostics + more)
                + failure.diagnostics);
        },
    }
}

/// What reading the inside of the group at `pos` gives, where the token
/// there is a group in braces.
pub open spec fn nested_at(
    tokens: Seq<TokenView>,
    hints: Seq<Hint>,
    pos: int,
    scope: ScopeView,
) -> Result<Reading, Failure> {
    match group_at(tokens, pos, Delimiter::Brace) {
        Some(inner) => parsed_block(inner, inner_hints(hints, pos), 0, scope),
        None => Ok(Reading { pieces: seq![], diagnostics: seq![] }),
    }
}

/// The registries `outs`, `ins` and `clobbers` as one scope.
pub open spec fn scope_of(
    outs: Seq<VarView>,
    ins: Seq<VarView>,
    clobbers: Seq<ClobberView>,
) -> ScopeView {
    ScopeView { outputs: outs, inputs: ins, clobbers }
}

/// A copy of `vars`.
pub fn clone_vars(vars: &Vec<BridgeVar>) -> (r: Vec<BridgeVar>)
    ensures
        r.deep_view() == vars.deep_view(),
{
    let mut copy: Vec<BridgeVar> = Vec::new();
    let mut i: usize = 0;
    while i < vars.len()
        invariant
            i <= vars.len(),
            copy.len() == i,
            forall|j: int| 0 <= j < i ==> copy[j]@ == vars[j]@,
        decreases vars.len() - i,
    {
        copy.push(vars[i].clone());
        i = i + 1;
    }
    assert(copy.deep_view() =~= vars.deep_view());
    copy
}

/// A copy of `clobbers`.
pub fn clone_clobbers(clobbers: &Vec<Clobber>) -> (r: Vec<Clobber>)
    ensures
        r.deep_view() == clobbers.deep_view(),
{
    let mut copy: Vec<Clobber> = Vec::new();
    let mut i: usize = 0;
    while i < clobbers.len()
        invariant
            i <= clobbers.len(),
            copy.len() == i,
            forall|j: int| 0 <= j < i ==> copy[j]@ == clobbers[j]@,
        decreases clobbers.len() - i,
    {
        copy.push(clobbers[i].clone());
        i = i + 1;
    }
    assert(copy.deep_view() =~= clobbers.deep_view());
    copy
}

/// Where `token` was written.
pub fn token_span(token: &Token) -> (r: Span)
    ensures
        r == span_at(seq![token@], 0),
{
    match token {
        Token::Ident(_, span) => *span,
        Token::Punct(_, _, span) => *span,
        Token::Str(_, span) => *span,
        Token::Literal(_, span) => *span,
        Token::Group(delimiter, inner, span) => {
            proof {
                crate::token::lemma_group_view(*delimiter, *inner, *span);
            }
            *span
        },
    }
}

/// The position of the first group in braces from `from` on.
pub fn find_brace(tokens: &Vec<Token>, from: usize) -> (r: Option<usize>)
    ensures
        match next_brace(tokens.deep_view(), from as int) {
            Some(brace) => r == Some(brace as usize) && from <= brace < tokens.len(),
            None => r is None,
        },
{
    let ghost all = tokens.deep_view();
    let mut k: usize = from;
    while k < tokens.len()
        invariant
            from <= k,
            all == tokens.deep_view(),
            next_brace(all, k as int) == next_brace(all, from as int),
        decreases tokens.len() - k,
    {
        if group_contents(tokens, k, Delimiter::Brace).is_some() {
            return Some(k);
        }
        k = k + 1;
    }
    None
}

impl RustyAsmPiece {
    /// Reads the piece that begins at `pos`. Declarations are entered into
    /// the registries; a nested block is read with copies of them. Where the
    /// reading fails, the registries stay as they were, and `sink` holds what
    /// came up before the failure.
    pub fn parse(
        tokens: &Vec<Token>,
        hints: &Vec<Hint>,
        pos: usize,
        bridge_vars_out: &mut Vec<BridgeVar>,
        bridge_vars_in: &mut Vec<BridgeVar>,
        clobbers: &mut Vec<Clobber>,
        sink: &mut Vec<Diagnostic>,
    ) -> (r: Result<(RustyAsmPiece, usize), ParseError>)
        ensures
            match piece_at(
                tokens.deep_view(),
                hints@,
                pos as int,
                scope_of(
                    old(bridge_vars_out).deep_view(),
                    old(bridge_vars_in).deep_view(),
                    old(clobbers).deep_view(),
                ),
                nested_at(
                    tokens.deep_view(),
                    hints@,
                    pos as int,
                    scope_of(
                        old(bridge_vars_out).deep_view(),
                        old(bridge_vars_in).deep_view(),
                        old(clobbers).deep_view(),
                    ),
                ),
            ) {
                Ok(step) => r matches Ok((piece, next)) && {
                    &&& piece@ == step.piece
                    &&& next == step.next
                    &&& pos < next <= tokens.len()
                    &&& final(bridge_vars_out).deep_view() == step.scope.outputs
                    &&& final(bridge_vars_in).deep_view() == step.scope.inputs
                    &&& final(clobbers).deep_view() == step.scope.clobbers
                    &&& final(sink).deep_view() == old(sink).deep_view() + step.diagnostics
                },
                Err(failure) => {
                    &&& r == Err::<(RustyAsmPiece, usize), ParseError>(failure.error)
                    &&& final(bridge_vars_out).deep_view() == old(bridge_vars_out).deep_view()
                    &&& final(bridge_vars_in).deep_view() == old(bridge_vars_in).deep_view()
                    &&& final(clobbers).deep_view() == old(clobbers).deep_view()
                    &&& final(sink).deep_view() == old(sink).deep_view() + failure.diagnostics
                },
            },
        decreases tokens, 0nat,
    {
        let ghost all = tokens.deep_view();
        let ghost scope = scope_of(
            bridge_vars_out.deep_view(),
            bridge_vars_in.deep_view(),
            clobbers.deep_view(),
        );
        let ghost before = sink.deep_view();
        assert(all.len() == tokens.len());
        if pos >= tokens.len() {
            assert(sink.deep_view() =~= before + Seq::<DiagnosticView>::empty());
            return Err(ParseError::EndOfInput);
        }
        proof {
            lemma_piece_advances(all, hints@, pos as int, scope);
        }
        if let Some(inner) = group_contents(tokens, pos, Delimiter::Brace) {
            proof {
                vstd::std_specs::vec::axiom_vec_index_decreases(*tokens, pos as int);
                assert(decreases_to!(tokens[pos as int] => tokens[pos as int]->Group_1));
            }
            let span = token_span(&tokens[pos]);
            assert(span == span_at(all, pos as int));
            let none: Vec<Hint> = Vec::new();
            let inside = if pos < hints.len() {
                &hints[pos].inner
            } else {
                &none
            };
            assert(inside@ =~= inner_hints(hints@, pos as int));
            let nested = RustyAsmBlock::parse_subblock(
                inner,
                inside,
                clone_vars(bridge_vars_out),
                clone_vars(bridge_vars_in),
                clone_clobbers(clobbers),
                sink,
            );
            match nested {
                Ok(block) => {
                    proof {
                        lemma_block_view(span, block);
                    }
                    Ok((RustyAsmPiece::RustyAsmBlock(span, block), pos + 1))
                },
                Err(error) => Err(error),
            }
        } else if word_at(tokens, pos, "let") {
            match BridgeVarDecl::parse(tokens, hints, pos) {
                Some((decl, end)) => {
                    decl.push_bridge_var(bridge_vars_out, bridge_vars_in);
                    assert(sink.deep_view() =~= before + Seq::<DiagnosticView>::empty());
                    Ok((RustyAsmPiece::BridgeVarDecl(decl), end))
                },
                None => {
                    assert(sink.deep_view() =~= before + Seq::<DiagnosticView>::empty());
                    let tts = clone_range(tokens, pos, pos + 1);
                    assert(tts.deep_view() =~= seq![all[pos as int]]);
                    Ok((RustyAsmPiece::TokenTrees(tts), pos + 1))
                },
            }
        } else if word_at(tokens, pos, "clobber") {
            match ClobberDecl::parse(tokens, pos) {
                Some((decl, end)) => {
                    decl.push_clobber(clobbers);
                    assert(sink.deep_view() =~= before + Seq::<DiagnosticView>::empty());
                    Ok((RustyAsmPiece::ClobberDecl(decl), end))
                },
                None => {
                    assert(sink.deep_view() =~= before + Seq::<DiagnosticView>::empty());
                    let tts = clone_range(tokens, pos, pos + 1);
                    assert(tts.deep_view() =~= seq![all[pos as int]]);
                    Ok((RustyAsmPiece::TokenTrees(tts), pos + 1))
                },
            }
        } else if word_at(tokens, pos, "asm") {
            match AsmBlock::parse(
                tokens,
                pos,
                clone_vars(bridge_vars_out),
                clone_vars(bridge_vars_in),
                clone_clobbers(clobbers),
            ) {
                Some((block, end)) => {
                    let mut block = block;
                    let ghost read = block@;
                    block.fix_overlapping_clobbers(sink);
                    assert(block@ == reconciled(read));
                    Ok((RustyAsmPiece::AsmBlock(block), end))
                },
                None => {
                    assert(sink.deep_view() =~= before + Seq::<DiagnosticView>::empty());
                    let tts = clone_range(tokens, pos, pos + 1);
                    assert(tts.deep_view() =~= seq![all[pos as int]]);
                    Ok((RustyAsmPiece::TokenTrees(tts), pos + 1))
                },
            }
        } else if word_at(tokens, pos, "if") || word_at(tokens, pos, "while") {
            assert(sink.deep_view() =~= before + Seq::<DiagnosticView>::empty());
            match find_brace(tokens, pos) {
                Some(brace) => {
                    Ok((RustyAsmPiece::TokenTrees(clone_range(tokens, pos, brace)), brace))
                },
                None => {
                    let span = token_span(&tokens[pos]);
                    assert(span == span_at(all, pos as int));
                    Err(ParseError::UnexpectedEnd(span))
                },
            }
        } else {
            assert(sink.deep_view() =~= before + Seq::<DiagnosticView>::empty());
            let tts = clone_range(tokens, pos, pos + 1);
            assert(tts.deep_view() =~= seq![all[pos as int]]);
            Ok((RustyAsmPiece::TokenTrees(tts), pos + 1))
        }
    }
}

/// Whether `r` and what was added to the diagnostics are what the reading
/// `read` gives: the block with its pieces and diagnostics, or the error
/// with the diagnostics that came up before it.
pub open spec fn block_read(
    r: Result<RustyAsmBlock, ParseError>,
    before: Seq<DiagnosticView>,
    after: Seq<DiagnosticView>,
    read: Result<Reading, Failure>,
) -> bool {
    match read {
        Ok(reading) => r matches Ok(block) && {
            &&& block@ == reading.pieces
            &&& after == before + reading.diagnostics
        },
        Err(failure) => {
            &&& r == Err::<RustyAsmBlock, ParseError>(failure.error)
            &&& after == before + failure.diagnostics
        },
    }
}

impl RustyAsmBlock {
    /// Reads `tokens`, all that a macro was given, as a block: no variable
    /// and no clobber is in scope at its beginning. The surrounding
    /// language's parser is asked where types and expressions end; whatever
    /// it answers, the result is the reading of the tokens with some hints.
    pub fn parse(tokens: &Vec<Token>, sink: &mut Vec<Diagnostic>) -> (r: Result<
        RustyAsmBlock,
        ParseError,
    >)
        ensures
            exists|hints: Seq<Hint>|
                block_read(
                    r,
                    old(sink).deep_view(),
                    final(sink).deep_view(),
                    #[trigger] parsed_block(
                        tokens.deep_view(),
                        hints,
                        0,
                        scope_of(seq![], seq![], seq![]),
                    ),
                ),
    {
        let hints = survey(tokens);
        Self::parse_with(tokens, &hints, sink)
    }

    /// Reads `tokens`, all that a macro was given, as a block, with the
    /// types and expressions that `hints` marks: no variable and no clobber
    /// is in scope at its beginning.
    pub fn parse_with(tokens: &Vec<Token>, hints: &Vec<Hint>, sink: &mut Vec<Diagnostic>) -> (r:
        Result<RustyAsmBlock, ParseError>)
        ensures
            block_read(
                r,
                old(sink).deep_view(),
                final(sink).deep_view(),
                parsed_block(tokens.deep_view(), hints@, 0, scope_of(seq![], seq![], seq![])),
            ),
    {
        let bridge_vars_out: Vec<BridgeVar> = Vec::new();
        let bridge_vars_in: Vec<BridgeVar> = Vec::new();
        let clobbers: Vec<Clobber> = Vec::new();
        assert(bridge_vars_out.deep_view() =~= Seq::<VarView>::empty());
        assert(bridge_vars_in.deep_view() =~= Seq::<VarView>::empty());
        assert(clobbers.deep_view() =~= Seq::<ClobberView>::empty());
        Self::parse_subblock(tokens, hints, bridge_vars_out, bridge_vars_in, clobbers, sink)
    }

    /// Reads `tokens`, the inside of a block, with the variables and clobbers
    /// of the scopes around it and with the types and expressions that
    /// `hints` marks.
    pub fn parse_subblock(
        tokens: &Vec<Token>,
        hints: &Vec<Hint>,
        bridge_vars_out: Vec<BridgeVar>,
        bridge_vars_in: Vec<BridgeVar>,
        clobbers: Vec<Clobber>,
        sink: &mut Vec<Diagnostic>,
    ) -> (r: Result<RustyAsmBlock, ParseError>)
        ensures
            block_read(
                r,
                old(sink).deep_view(),
                final(sink).deep_view(),
                parsed_block(
                    tokens.deep_view(),
                    hints@,
                    0,
                    scope_of(
                        bridge_vars_out.deep_view(),
                        bridge_vars_in.deep_view(),
                        clobbers.deep_view(),
                    ),
                ),
            ),
        decreases tokens, 1nat,
    {
        let ghost all = tokens.deep_view();
        let ghost start = scope_of(
            bridge_vars_out.deep_view(),
            bridge_vars_in.deep_view(),
            clobbers.deep_view(),
        );
        let ghost before = sink.deep_view();
        let ghost mut emitted = Seq::<DiagnosticView>::empty();
        let mut outs = bridge_vars_out;
        let mut ins = bridge_vars_in;
        let mut destroyed = clobbers;
        let mut contents: Vec<RustyAsmPiece> = Vec::new();
        let mut pos: usize = 0;
        assert(all.len() == tokens.len());
        assert(contents.deep_view() =~= Seq::<PieceView>::empty());
        assert(sink.deep_view() =~= before + emitted);
        assert(extended(contents.deep_view(), emitted, parsed_block(all, hints@, 0, start))
            == parsed_block(all, hints@, 0, start)) by {
            match parsed_block(all, hints@, 0, start) {
                Ok(reading) => {
                    assert(contents.deep_view() + reading.pieces =~= reading.pieces);
                    assert(emitted + reading.diagnostics =~= reading.diagnostics);
                },
                Err(failure) => {
                    assert(emitted + failure.diagnostics =~= failure.diagnostics);
                },
            }
        }
        while pos < tokens.len()
            invariant
                pos <= tokens.len(),
                all == tokens.deep_view(),
                all.len() == tokens.len(),
                start == scope_of(
                    bridge_vars_out.deep_view(),
                    bridge_vars_in.deep_view(),
                    clobbers.deep_view(),
                ),
                before == old(sink).deep_view(),
                sink.deep_view() == before + emitted,
                extended(
                    contents.deep_view(),
                    emitted,
                    parsed_block(
                        all,
                        hints@,
                        pos as int,
                        scope_of(outs.deep_view(), ins.deep_view(), destroyed.deep_view()),
                    ),
                ) == parsed_block(all, hints@, 0, start),
            decreases tokens.len() - pos,
        {
            let ghost scope = scope_of(outs.deep_view(), ins.deep_view(), destroyed.deep_view());
            let ghost contents0 = contents.deep_view();
            let ghost emitted0 = emitted;
            let ghost step = piece_at(
                all,
                hints@,
                pos as int,
                scope,
                nested_at(all, hints@, pos as int, scope),
            );
            proof {
                lemma_block_step(all, hints@, pos as int, scope);
            }
            match RustyAsmPiece::parse(
                tokens,
                hints,
                pos,
                &mut outs,
                &mut ins,
                &mut destroyed,
                sink,
            ) {
                Ok((piece, next)) => {
                    contents.push(piece);
                    pos = next;
                    proof {
                        let found = step->Ok_0;
                        emitted = emitted0 + found.diagnostics;
                        assert(contents.deep_view() =~= contents0.push(found.piece));
                        assert(sink.deep_view() =~= before + emitted);
                        lemma_extended_twice(
                            contents0,
                            emitted0,
                            found.piece,
                            found.diagnostics,
                            parsed_block(all, hints@, found.next, found.scope),
                        );
                    }
                },
                Err(error) => {
                    proof {
                        let failure = step->Err_0;
                        assert(sink.deep_view() =~= before + (emitted0 + failure.diagnostics));
                    }
                    return Err(error);
                },
            }
        }
        proof {
            assert(contents.deep_view() + Seq::<PieceView>::empty() =~= contents.deep_view());
            assert(emitted + Seq::<DiagnosticView>::empty() =~= emitted);
        }
        Ok(RustyAsmBlock { contents })
    }
}

} // verus!
