//! Writing a block out again: ordinary code as it was, a declaration of a
//! bridge variable as a plain `let`, nothing for a clobber, and an instruction
//! block as one invocation of the compiler's own instruction macro.

use crate::block::lemma_block_view;
use crate::block::PieceView;
use crate::block::RustyAsmBlock;
use crate::block::RustyAsmPiece;
use crate::decl::BridgeVarDecl;
use crate::decl::ClobberDecl;
use crate::decl::DeclView;
use crate::diag::Diagnostic;
use crate::diag::DiagnosticView;
use crate::instruction::diagnostics_from;
use crate::instruction::rewritten_from;
use crate::instruction::unused_diagnostics;
use crate::instruction::used_from;
use crate::instruction::AsmBlock;
use crate::instruction::AsmBlockView;
use crate::operand::BridgeVar;
use crate::operand::Clobber;
use crate::operand::ClobberView;
use crate::operand::VarView;
use crate::token::clone_token;
use crate::token::lemma_group_view;
use crate::token::Delimiter;
use crate::token::Token;
use crate::token::TokenView;
use proc_macro2::Span;
use vstd::prelude::*;
use vstd::string::*;

verus! {

/// The string literal that says `value`, as a token at `span`.
pub open spec fn literal(value: Seq<char>, span: Span) -> TokenView {
    TokenView::Str(value, span)
}

/// The punctuation character `ch`, standing alone, as a token at `site`.
pub open spec fn punct(ch: char, site: Span) -> TokenView {
    TokenView::Punct(ch, false, site)
}

/// One operand of the instruction macro: the constraint, and the variable in
/// parentheses.
pub open spec fn operand_tokens(var: VarView, site: Span) -> Seq<TokenView> {
    seq![
        literal(var.constraint, var.constraint_span),
        TokenView::Group(
            Delimiter::Parenthesis,
            seq![TokenView::Ident(var.name, var.name_span)],
            site,
        ),
    ]
}

/// The comma that stands before the item at `k` of a list, but for the
/// first.
pub open spec fn separator(k: int, site: Span) -> Seq<TokenView> {
    if k > 0 {
        seq![punct(',', site)]
    } else {
        seq![]
    }
}

/// The operands `vars` from position `k` on, with a comma between each two.
pub open spec fn operands_from(vars: Seq<VarView>, k: int, site: Span) -> Seq<TokenView>
    decreases vars.len() - k,
{
    if 0 <= k < vars.len() {
        separator(k, site) + operand_tokens(vars[k], site) + operands_from(vars, k + 1, site)
    } else {
        seq![]
    }
}

/// The clobbers from position `k` on, each a string literal, with a comma
/// between each two.
pub open spec fn clobbers_from(clobbers: Seq<ClobberView>, k: int, site: Span) -> Seq<TokenView>
    decreases clobbers.len() - k,
{
    if 0 <= k < clobbers.len() {
        separator(k, site) + seq![literal(clobbers[k].constraint, clobbers[k].span)]
            + clobbers_from(clobbers, k + 1, site)
    } else {
        seq![]
    }
}

/// The options from position `k` on, with a comma between each two.
pub open spec fn options_from(options: Seq<TokenView>, k: int, site: Span) -> Seq<TokenView>
    decreases options.len() - k,
{
    if 0 <= k < options.len() {
        separator(k, site) + seq![options[k]] + options_from(options, k + 1, site)
    } else {
        seq![]
    }
}

/// The instruction text of `block` with its placeholders rewritten, where
/// the block has instruction text `text` written at `span`.
pub open spec fn template(block: AsmBlockView, text: Seq<char>, span: Span) -> Seq<char> {
    rewritten_from(text, 0, block.bridge_vars_out, block.bridge_vars_in, span)
}

/// What stands in the parentheses of the instruction macro: the rewritten
/// instruction text, then the outputs, the inputs, the clobbers and the
/// options, each group behind a colon.
pub open spec fn macro_arguments(
    block: AsmBlockView,
    text: Seq<char>,
    span: Span,
    site: Span,
) -> Seq<TokenView> {
    seq![literal(template(block, text, span), span), punct(':', site)] + operands_from(
        block.bridge_vars_out,
        0,
        site,
    ) + seq![punct(':', site)] + operands_from(block.bridge_vars_in, 0, site) + seq![
        punct(':', site),
    ] + clobbers_from(block.clobbers, 0, site) + seq![punct(':', site)] + options_from(
        block.options,
        0,
        site,
    )
}

/// The tokens that an instruction block is written out as: nothing where it
/// has no instruction text, and else `asm!( ... );`.
pub open spec fn asm_tokens(block: AsmBlockView, site: Span) -> Seq<TokenView> {
    match block.asm_unchanged {
        Some((text, span)) => seq![
            TokenView::Ident("asm"@, site),
            punct('!', site),
            TokenView::Group(
                Delimiter::Parenthesis,
                macro_arguments(block, text, span, site),
                site,
            ),
            punct(';', site),
        ],
        None => seq![],
    }
}

/// The diagnostics that come up when an instruction block is written out:
/// those of the placeholders, then those of the variables that no placeholder
/// refers to.
pub open spec fn asm_diagnostics(block: AsmBlockView) -> Seq<DiagnosticView> {
    match block.asm_unchanged {
        Some((text, span)) => diagnostics_from(
            text,
            0,
            block.bridge_vars_out,
            block.bridge_vars_in,
            span,
        ) + unused_diagnostics(
            block.bridge_vars_out,
            block.bridge_vars_in,
            used_from(text, 0, block.bridge_vars_out, block.bridge_vars_in, span),
            span,
        ),
        None => seq![],
    }
}

/// A mark and what follows it, or nothing.
pub open spec fn optional_tokens(part: Option<(TokenView, Seq<TokenView>)>) -> Seq<TokenView> {
    match part {
        Some((mark, tokens)) => seq![mark] + tokens,
        None => seq![],
    }
}

/// The token `token`, standing alone where it is a punctuation character.
pub open spec fn alone(token: TokenView) -> TokenView {
    match token {
        TokenView::Punct(ch, _, span) => TokenView::Punct(ch, false, span),
        _ => token,
    }
}

/// The tokens `tokens`, the last of them standing alone: whatever comes to
/// stand behind them forms no operator with it.
pub open spec fn detached(tokens: Seq<TokenView>) -> Seq<TokenView> {
    if tokens.len() > 0 {
        tokens.drop_last().push(alone(tokens.last()))
    } else {
        tokens
    }
}

/// The colon and the type of a declaration as they are written out, the type
/// detached from what follows it.
pub open spec fn type_tokens(part: Option<(TokenView, Seq<TokenView>)>) -> Seq<TokenView> {
    match part {
        Some((colon, tokens)) => seq![colon] + detached(tokens),
        None => seq![],
    }
}

/// The tokens that a declaration of a bridge variable is written out as: the
/// plain `let` statement that is left when direction and constraint are taken
/// out.
pub open spec fn decl_tokens(decl: DeclView) -> Seq<TokenView> {
    seq![decl.let_keyword] + (match decl.mut_keyword {
        Some(token) => seq![token],
        None => seq![],
    }) + seq![TokenView::Ident(decl.ident, decl.ident_span)] + type_tokens(decl.explicit_type)
        + optional_tokens(decl.assignment) + seq![decl.semicolon]
}

/// The tokens that the pieces from position `k` on are written out as.
pub open spec fn emitted_from(pieces: Seq<PieceView>, k: int, site: Span) -> Seq<TokenView>
    decreases pieces, pieces.len() - k,
{
    if 0 <= k < pieces.len() {
        let here = match pieces[k] {
            PieceView::Block(span, inner) => seq![
                TokenView::Group(Delimiter::Brace, emitted_from(inner, 0, site), span),
            ],
            PieceView::Decl(decl) => decl_tokens(decl),
            PieceView::Clobber(_) => seq![],
            PieceView::Asm(block) => asm_tokens(block, site),
            PieceView::Tokens(tokens) => tokens,
        };
        here + emitted_from(pieces, k + 1, site)
    } else {
        seq![]
    }
}

/// The diagnostics that come up when the pieces from position `k` on are
/// written out.
pub open spec fn emission_diagnostics_from(pieces: Seq<PieceView>, k: int) -> Seq<DiagnosticView>
    decreases pieces, pieces.len() - k,
{
    if 0 <= k < pieces.len() {
        let here = match pieces[k] {
            PieceView::Block(_, inner) => emission_diagnostics_from(inner, 0),
            PieceView::Asm(block) => asm_diagnostics(block),
            _ => seq![],
        };
        here + emission_diagnostics_from(pieces, k + 1)
    } else {
        seq![]
    }
}

/// Appends `token` to `out`.
pub fn put(out: &mut Vec<Token>, token: Token)
    ensures
        final(out).deep_view() == old(out).deep_view().push(token@),
{
    out.push(token);
    assert(out.deep_view() =~= old(out).deep_view().push(token@));
}

/// Appends copies of `tokens` to `out`.
pub fn put_all(out: &mut Vec<Token>, tokens: &Vec<Token>)
    ensures
        final(out).deep_view() == old(out).deep_view() + tokens.deep_view(),
{
    let ghost before = out.deep_view();
    let mut i: usize = 0;
    assert(out.deep_view() =~= before + tokens.deep_view().subrange(0, 0));
    while i < tokens.len()
        invariant
            i <= tokens.len(),
            out.deep_view() == before + tokens.deep_view().subrange(0, i as int),
        decreases tokens.len() - i,
    {
        put(out, clone_token(&tokens[i]));
        i = i + 1;
        assert(out.deep_view() =~= before + tokens.deep_view().subrange(0, i as int));
    }
    assert(tokens.deep_view().subrange(0, i as int) =~= tokens.deep_view());
}

/// Appends copies of `tokens` to `out`, the last of them standing alone.
pub fn put_detached(out: &mut Vec<Token>, tokens: &Vec<Token>)
    ensures
        final(out).deep_view() == old(out).deep_view() + detached(tokens.deep_view()),
{
    let ghost before = out.deep_view();
    let ghost all = tokens.deep_view();
    if tokens.len() == 0 {
        assert(out.deep_view() =~= before + detached(all));
        return ;
    }
    let last = tokens.len() - 1;
    let mut i: usize = 0;
    assert(out.deep_view() =~= before + all.subrange(0, 0));
    while i < last
        invariant
            i <= last,
            last == tokens.len() - 1,
            all == tokens.deep_view(),
            out.deep_view() == before + all.subrange(0, i as int),
        decreases last - i,
    {
        put(out, clone_token(&tokens[i]));
        i = i + 1;
        assert(out.deep_view() =~= before + all.subrange(0, i as int));
    }
    match &tokens[last] {
        Token::Punct(ch, _, span) => {
            put(out, Token::Punct(*ch, false, *span));
        },
        other => {
            put(out, clone_token(other));
        },
    }
    assert(all.subrange(0, last as int) =~= all.drop_last());
    assert(out.deep_view() =~= before + detached(all));
}

/// Appends a comma to `out` where `k` is not the first position of a list.
fn put_separator(out: &mut Vec<Token>, k: usize, site: Span)
    ensures
        final(out).deep_view() == old(out).deep_view() + separator(k as int, site),
{
    if k > 0 {
        put(out, Token::Punct(',', false, site));
        assert(out.deep_view() =~= old(out).deep_view() + separator(k as int, site));
    } else {
        assert(out.deep_view() =~= old(out).deep_view() + separator(k as int, site));
    }
}

impl BridgeVar {
    /// Appends the variable to `tokens` as an operand of the instruction
    /// macro: its constraint as a string literal, and its name in
    /// parentheses.
    pub fn constraint_as_tokens(&self, tokens: &mut Vec<Token>, site: Span)
        ensures
            final(tokens).deep_view() == old(tokens).deep_view() + operand_tokens(self@, site),
    {
        put(tokens, Token::Str(self.constraint.clone(), self.constraint_span));
        let mut inner: Vec<Token> = Vec::new();
        put(&mut inner, Token::Ident(self.name.clone(), self.name_span));
        proof {
            lemma_group_view(Delimiter::Parenthesis, inner, site);
            assert(inner.deep_view() =~= seq![TokenView::Ident(self@.name, self@.name_span)]);
        }
        put(tokens, Token::Group(Delimiter::Parenthesis, inner, site));
        assert(tokens.deep_view() =~= old(tokens).deep_view() + operand_tokens(self@, site));
    }
}

impl Clobber {
    /// The clobber as a string literal.
    pub fn constraint_as_lit_str(&self) -> (r: Token)
        ensures
            r@ == literal(self@.constraint, self@.span),
    {
        Token::Str(self.constraint.clone(), self.span)
    }
}

impl BridgeVarDecl {
    /// Appends to `tokens` the plain `let` statement that the declaration
    /// stands for.
    pub fn to_tokens(&self, tokens: &mut Vec<Token>)
        ensures
            final(tokens).deep_view() == old(tokens).deep_view() + decl_tokens(self@),
    {
        let ghost before = tokens.deep_view();
        put(tokens, clone_token(&self.let_keyword));
        if let Some(mut_keyword) = &self.mut_keyword {
            put(tokens, clone_token(mut_keyword));
        }
        put(tokens, Token::Ident(self.ident.clone(), self.ident_span));
        if let Some((colon, explicit_type)) = &self.explicit_type {
            put(tokens, clone_token(colon));
            put_detached(tokens, explicit_type);
        }
        if let Some((assign_op, init_expr)) = &self.assignment {
            put(tokens, clone_token(assign_op));
            put_all(tokens, init_expr);
        }
        put(tokens, clone_token(&self.semicolon));
        assert(tokens.deep_view() =~= before + decl_tokens(self@));
    }
}

impl ClobberDecl {
    /// A clobber stands for no statement: `tokens` stays as it is.
    pub fn to_tokens(&self, tokens: &mut Vec<Token>)
        ensures
            final(tokens).deep_view() == old(tokens).deep_view(),
    {
    }
}

/// Appends the operands `vars` to `out`, with a comma between each two.
pub fn put_operands(out: &mut Vec<Token>, vars: &Vec<BridgeVar>, site: Span)
    ensures
        final(out).deep_view() == old(out).deep_view() + operands_from(
            vars.deep_view(),
            0,
            site,
        ),
{
    let ghost before = out.deep_view();
    let ghost all = vars.deep_view();
    let mut k: usize = 0;
    while k < vars.len()
        invariant
            k <= vars.len(),
            all == vars.deep_view(),
            out.deep_view() + operands_from(all, k as int, site) == before + operands_from(
                all,
                0,
                site,
            ),
        decreases vars.len() - k,
    {
        let ghost out0 = out.deep_view();
        put_separator(out, k, site);
        vars[k].constraint_as_tokens(out, site);
        k = k + 1;
        assert(out.deep_view() + operands_from(all, k as int, site) =~= out0 + operands_from(
            all,
            k - 1,
            site,
        ));
    }
    assert(out.deep_view() =~= before + operands_from(all, 0, site));
}

/// Appends the clobbers to `out` as string literals, with a comma between
/// each two.
pub fn put_clobbers(out: &mut Vec<Token>, clobbers: &Vec<Clobber>, site: Span)
    ensures
        final(out).deep_view() == old(out).deep_view() + clobbers_from(
            clobbers.deep_view(),
            0,
            site,
        ),
{
    let ghost before = out.deep_view();
    let ghost all = clobbers.deep_view();
    let mut k: usize = 0;
    while k < clobbers.len()
        invariant
            k <= clobbers.len(),
            all == clobbers.deep_view(),
            out.deep_view() + clobbers_from(all, k as int, site) == before + clobbers_from(
                all,
                0,
                site,
            ),
        decreases clobbers.len() - k,
    {
        let ghost out0 = out.deep_view();
        put_separator(out, k, site);
        put(out, clobbers[k].constraint_as_lit_str());
        k = k + 1;
        assert(out.deep_view() + clobbers_from(all, k as int, site) =~= out0 + clobbers_from(
            all,
            k - 1,
            site,
        ));
    }
    assert(out.deep_view() =~= before + clobbers_from(all, 0, site));
}

/// Appends the options to `out`, with a comma between each two.
pub fn put_options(out: &mut Vec<Token>, options: &Vec<Token>, site: Span)
    ensures
        final(out).deep_view() == old(out).deep_view() + options_from(
            options.deep_view(),
            0,
            site,
        ),
{
    let ghost before = out.deep_view();
    let ghost all = options.deep_view();
    let mut k: usize = 0;
    while k < options.len()
        invariant
            k <= options.len(),
            all == options.deep_view(),
            out.deep_view() + options_from(all, k as int, site) == before + options_from(
                all,
                0,
                site,
            ),
        decreases options.len() - k,
    {
        let ghost out0 = out.deep_view();
        put_separator(out, k, site);
        put(out, clone_token(&options[k]));
        k = k + 1;
        assert(out.deep_view() + options_from(all, k as int, site) =~= out0 + options_from(
            all,
            k - 1,
            site,
        ));
    }
    assert(out.deep_view() =~= before + options_from(all, 0, site));
}

impl AsmBlock {
    /// Appends to `tokens` the invocation of the instruction macro that the
    /// block stands for, with the placeholders of its text rewritten, and
    /// reports what the text refers to wrongly or not at all. A block without
    /// instruction text stands for nothing. Tokens that the block did not
    /// hold are placed at `site`.
    pub fn to_tokens(&self, tokens: &mut Vec<Token>, site: Span, sink: &mut Vec<Diagnostic>)
        ensures
            final(tokens).deep_view() == old(tokens).deep_view() + asm_tokens(self@, site),
            final(sink).deep_view() == old(sink).deep_view() + asm_diagnostics(self@),
    {
        let ghost before = tokens.deep_view();
        let ghost reported = sink.deep_view();
        match &self.asm_unchanged {
            Some((asm_unchanged, asm_span)) => {
                let (llvm_asm, used_idents) = self.replace_identifiers(
                    asm_unchanged.as_str(),
                    *asm_span,
                    sink,
                );
                self.report_unused(&used_idents, *asm_span, sink);
                assert(sink.deep_view() =~= reported + asm_diagnostics(self@));
                let mut inner: Vec<Token> = Vec::new();
                assert(inner.deep_view() =~= Seq::<TokenView>::empty());
                put(&mut inner, Token::Str(llvm_asm, *asm_span));
                put(&mut inner, Token::Punct(':', false, site));
                put_operands(&mut inner, &self.bridge_vars_out, site);
                put(&mut inner, Token::Punct(':', false, site));
                put_operands(&mut inner, &self.bridge_vars_in, site);
                put(&mut inner, Token::Punct(':', false, site));
                put_clobbers(&mut inner, &self.clobbers, site);
                put(&mut inner, Token::Punct(':', false, site));
                put_options(&mut inner, &self.options, site);
                proof {
                    assert(inner.deep_view() =~= macro_arguments(
                        self@,
                        asm_unchanged@,
                        *asm_span,
                        site,
                    ));
                    lemma_group_view(Delimiter::Parenthesis, inner, site);
                }
                put(tokens, Token::Ident(String::from_str("asm"), site));
                put(tokens, Token::Punct('!', false, site));
                put(tokens, Token::Group(Delimiter::Parenthesis, inner, site));
                put(tokens, Token::Punct(';', false, site));
                assert(tokens.deep_view() =~= before + asm_tokens(self@, site));
            },
            None => {
                assert(tokens.deep_view() =~= before + asm_tokens(self@, site));
                assert(sink.deep_view() =~= reported + asm_diagnostics(self@));
            },
        }
    }
}

impl RustyAsmPiece {
    /// Appends to `tokens` what the piece is written out as.
    pub fn to_tokens(&self, tokens: &mut Vec<Token>, site: Span, sink: &mut Vec<Diagnostic>)
        ensures
            final(tokens).deep_view() == old(tokens).deep_view() + emitted_from(
                seq![self@],
                0,
                site,
            ),
            final(sink).deep_view() == old(sink).deep_view() + emission_diagnostics_from(
                seq![self@],
                0,
            ),
        decreases self,
    {
        let ghost before = tokens.deep_view();
        let ghost reported = sink.deep_view();
        let ghost one = seq![self@];
        assert(emitted_from(one, 1, site) =~= Seq::<TokenView>::empty());
        assert(emission_diagnostics_from(one, 1) =~= Seq::<DiagnosticView>::empty());
        match self {
            RustyAsmPiece::RustyAsmBlock(span, block) => {
                proof {
                    lemma_block_view(*span, *block);
                }
                let mut inner: Vec<Token> = Vec::new();
                assert(inner.deep_view() =~= Seq::<TokenView>::empty());
                block.contents_to_tokens(&mut inner, site, sink);
                proof {
                    assert(inner.deep_view() =~= emitted_from(block@, 0, site));
                    lemma_group_view(Delimiter::Brace, inner, *span);
                }
                put(tokens, Token::Group(Delimiter::Brace, inner, *span));
                assert(tokens.deep_view() =~= before + emitted_from(one, 0, site));
                assert(sink.deep_view() =~= reported + emission_diagnostics_from(one, 0));
            },
            RustyAsmPiece::BridgeVarDecl(decl) => {
                decl.to_tokens(tokens);
                assert(tokens.deep_view() =~= before + emitted_from(one, 0, site));
                assert(sink.deep_view() =~= reported + emission_diagnostics_from(one, 0));
            },
            RustyAsmPiece::ClobberDecl(decl) => {
                decl.to_tokens(tokens);
                assert(tokens.deep_view() =~= before + emitted_from(one, 0, site));
                assert(sink.deep_view() =~= reported + emission_diagnostics_from(one, 0));
            },
            RustyAsmPiece::AsmBlock(block) => {
                block.to_tokens(tokens, site, sink);
                assert(tokens.deep_view() =~= before + emitted_from(one, 0, site));
                assert(sink.deep_view() =~= reported + emission_diagnostics_from(one, 0));
            },
            RustyAsmPiece::TokenTrees(tts) => {
                put_all(tokens, tts);
                assert(tokens.deep_view() =~= before + emitted_from(one, 0, site));
                assert(sink.deep_view() =~= reported + emission_diagnostics_from(one, 0));
            },
        }
    }
}

/// Writing out one piece alone gives what it adds to a block.
pub proof fn lemma_emitted_piece(pieces: Seq<PieceView>, k: int, site: Span)
    requires
        0 <= k < pieces.len(),
    ensures
        emitted_from(pieces, k, site) == emitted_from(seq![pieces[k]], 0, site) + emitted_from(
            pieces,
            k + 1,
            site,
        ),
        emission_diagnostics_from(pieces, k) == emission_diagnostics_from(seq![pieces[k]], 0)
            + emission_diagnostics_from(pieces, k + 1),
{
    let one = seq![pieces[k]];
    assert(emitted_from(one, 1, site) =~= Seq::<TokenView>::empty());
    assert(emission_diagnostics_from(one, 1) =~= Seq::<DiagnosticView>::empty());
    assert(emitted_from(pieces, k, site) =~= emitted_from(one, 0, site) + emitted_from(
        pieces,
        k + 1,
        site,
    ));
    assert(emission_diagnostics_from(pieces, k) =~= emission_diagnostics_from(one, 0)
        + emission_diagnostics_from(pieces, k + 1));
}

impl RustyAsmBlock {
    /// Appends to `tokens` what the pieces of the block are written out as,
    /// one after the other.
    pub fn contents_to_tokens(
        &self,
        tokens: &mut Vec<Token>,
        site: Span,
        sink: &mut Vec<Diagnostic>,
    )
        ensures
            final(tokens).deep_view() == old(tokens).deep_view() + emitted_from(self@, 0, site),
            final(sink).deep_view() == old(sink).deep_view() + emission_diagnostics_from(
                self@,
                0,
            ),
        decreases self,
    {
        let ghost before = tokens.deep_view();
        let ghost reported = sink.deep_view();
        let ghost all = self@;
        let mut k: usize = 0;
        while k < self.contents.len()
            invariant
                k <= self.contents.len(),
                all == self@,
                all.len() == self.contents.len(),
                tokens.deep_view() + emitted_from(all, k as int, site) == before + emitted_from(
                    all,
                    0,
                    site,
                ),
                sink.deep_view() + emission_diagnostics_from(all, k as int) == reported
                    + emission_diagnostics_from(all, 0),
            decreases self.contents.len() - k,
        {
            let ghost tokens0 = tokens.deep_view();
            let ghost sink0 = sink.deep_view();
            proof {
                vstd::std_specs::vec::axiom_vec_index_decreases(self.contents, k as int);
                lemma_emitted_piece(all, k as int, site);
            }
            self.contents[k].to_tokens(tokens, site, sink);
            k = k + 1;
            assert(tokens.deep_view() + emitted_from(all, k as int, site) =~= tokens0
                + emitted_from(all, k - 1, site));
            assert(sink.deep_view() + emission_diagnostics_from(all, k as int) =~= sink0
                + emission_diagnostics_from(all, k - 1));
        }
        assert(tokens.deep_view() =~= before + emitted_from(all, 0, site));
        assert(sink.deep_view() =~= reported + emission_diagnostics_from(all, 0));
    }

    /// Appends the whole block to `tokens`, in braces placed at `site`.
    pub fn to_tokens(&self, tokens: &mut Vec<Token>, site: Span, sink: &mut Vec<Diagnostic>)
        ensures
            final(tokens).deep_view() == old(tokens).deep_view().push(
                TokenView::Group(Delimiter::Brace, emitted_from(self@, 0, site), site),
            ),
            final(sink).deep_view() == old(sink).deep_view() + emission_diagnostics_from(
                self@,
                0,
            ),
    {
        let mut inner: Vec<Token> = Vec::new();
        assert(inner.deep_view() =~= Seq::<TokenView>::empty());
        self.contents_to_tokens(&mut inner, site, sink);
        proof {
            assert(inner.deep_view() =~= emitted_from(self@, 0, site));
            lemma_group_view(Delimiter::Brace, inner, site);
        }
        put(tokens, Token::Group(Delimiter::Brace, inner, site));
    }
}

} // verus!
