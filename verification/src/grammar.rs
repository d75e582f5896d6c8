//! The grammar of the three constructs that stand among ordinary code: the
//! declaration of a bridge variable, the declaration of a clobber, and the
//! instruction block. Each reader either reads its construct whole or reads
//! nothing.

use crate::decl::BridgeVarDecl;
use crate::decl::ClobberDecl;
use crate::decl::ConstraintKeyword;
use crate::decl::DeclView;
use crate::host::expr_end_at;
use crate::host::expr_len;
use crate::host::type_end_at;
use crate::host::Hint;
use crate::host::type_len;
use crate::instruction::AsmBlock;
use crate::instruction::AsmBlockView;
use crate::operand::same_text;
use crate::operand::BridgeVar;
use crate::operand::Clobber;
use crate::operand::ClobberView;
use crate::operand::VarView;
use crate::token::clone_range;
use crate::token::lemma_group_view;
use crate::token::Delimiter;
use crate::token::Token;
use crate::token::TokenView;
use crate::words::is_reserved;
use crate::words::reserved;
use proc_macro2::Span;
use vstd::prelude::*;
use vstd::string::*;

verus! {

/// The token at `pos` is the word `word`.
pub open spec fn is_word(tokens: Seq<TokenView>, pos: int, word: Seq<char>) -> bool {
    0 <= pos < tokens.len() && match tokens[pos] {
        TokenView::Ident(name, _) => name == word,
        _ => false,
    }
}

/// The token at `pos` is the punctuation character `ch`.
pub open spec fn is_punct(tokens: Seq<TokenView>, pos: int, ch: char) -> bool {
    0 <= pos < tokens.len() && match tokens[pos] {
        TokenView::Punct(found, _, _) => found == ch,
        _ => false,
    }
}

/// What the string literal at `pos` says and where it stands, if the token
/// there is a string literal.
pub open spec fn string_at(tokens: Seq<TokenView>, pos: int) -> Option<(Seq<char>, Span)> {
    if 0 <= pos < tokens.len() {
        match tokens[pos] {
            TokenView::Str(value, span) => Some((value, span)),
            _ => None,
        }
    } else {
        None
    }
}

/// The tokens inside the group at `pos`, if the token there is a group with
/// the brackets `delimiter`.
pub open spec fn group_at(tokens: Seq<TokenView>, pos: int, delimiter: Delimiter) -> Option<
    Seq<TokenView>,
> {
    if 0 <= pos < tokens.len() {
        match tokens[pos] {
            TokenView::Group(found, inner, _) => if found == delimiter {
                Some(inner)
            } else {
                None
            },
            _ => None,
        }
    } else {
        None
    }
}

/// What the one string literal in the parentheses at `pos` says, if the
/// token there is such a group.
pub open spec fn parenthesized_string(tokens: Seq<TokenView>, pos: int) -> Option<
    (Seq<char>, Span),
> {
    match group_at(tokens, pos, Delimiter::Parenthesis) {
        Some(inner) => if inner.len() == 1 {
            string_at(inner, 0)
        } else {
            None
        },
        None => None,
    }
}

/// Whether the token at `pos` is the word `word`.
pub fn word_at(tokens: &Vec<Token>, pos: usize, word: &str) -> (r: bool)
    ensures
        r == is_word(tokens.deep_view(), pos as int, word@),
{
    if pos >= tokens.len() {
        return false;
    }
    match &tokens[pos] {
        Token::Ident(name, _) => same_text(name.as_str(), word),
        _ => false,
    }
}

/// Whether the token at `pos` is the punctuation character `ch`.
pub fn punct_at(tokens: &Vec<Token>, pos: usize, ch: char) -> (r: bool)
    ensures
        r == is_punct(tokens.deep_view(), pos as int, ch),
{
    if pos >= tokens.len() {
        return false;
    }
    match &tokens[pos] {
        Token::Punct(found, _, _) => *found == ch,
        _ => false,
    }
}

/// What the string literal at `pos` says, and where it stands.
pub fn string_literal_at(tokens: &Vec<Token>, pos: usize) -> (r: Option<(String, Span)>)
    ensures
        match string_at(tokens.deep_view(), pos as int) {
            Some((value, span)) => r matches Some((found, place)) && found@ == value && place
                == span,
            None => r is None,
        },
{
    if pos >= tokens.len() {
        return None;
    }
    match &tokens[pos] {
        Token::Str(value, span) => Some((value.clone(), *span)),
        _ => None,
    }
}

/// The tokens inside the group at `pos`, if the token there is a group with
/// the brackets `delimiter`.
pub fn group_contents(tokens: &Vec<Token>, pos: usize, delimiter: Delimiter) -> (r: Option<
    &Vec<Token>,
>)
    ensures
        match group_at(tokens.deep_view(), pos as int, delimiter) {
            Some(inner) => pos < tokens.len() && tokens[pos as int] is Group && r == Some(
                &tokens[pos as int]->Group_1,
            ) && tokens[pos as int]->Group_1.deep_view() == inner,
            None => r is None,
        },
{
    if pos >= tokens.len() {
        return None;
    }
    match &tokens[pos] {
        Token::Group(found, inner, span) => {
            proof {
                lemma_group_view(*found, *inner, *span);
            }
            if *found == delimiter {
                Some(inner)
            } else {
                None
            }
        },
        _ => None,
    }
}

/// What the one string literal in the parentheses at `pos` says, and where
/// it stands.
pub fn parenthesized_string_at(tokens: &Vec<Token>, pos: usize) -> (r: Option<(String, Span)>)
    ensures
        match parenthesized_string(tokens.deep_view(), pos as int) {
            Some((value, span)) => r matches Some((found, place)) && found@ == value && place
                == span,
            None => r is None,
        },
{
    match group_contents(tokens, pos, Delimiter::Parenthesis) {
        Some(inner) => if inner.len() == 1 {
            string_literal_at(inner, 0)
        } else {
            None
        },
        None => None,
    }
}

/// The direction that the word at `pos` names.
pub open spec fn direction_at(tokens: Seq<TokenView>, pos: int) -> Option<ConstraintKeyword> {
    if is_word(tokens, pos, "in"@) {
        Some(ConstraintKeyword::In)
    } else if is_word(tokens, pos, "out"@) {
        Some(ConstraintKeyword::Out)
    } else if is_word(tokens, pos, "inout"@) {
        Some(ConstraintKeyword::InOut)
    } else {
        None
    }
}

/// Where the name of a declaration stands: behind `let` at `pos`, and behind
/// `mut` where that follows.
pub open spec fn name_pos(tokens: Seq<TokenView>, pos: int) -> int {
    if is_word(tokens, pos + 1, "mut"@) {
        pos + 2
    } else {
        pos + 1
    }
}

/// The name at `pos` and where it stands, if the token there is an
/// identifier.
pub open spec fn identifier_at(tokens: Seq<TokenView>, pos: int) -> Option<(Seq<char>, Span)> {
    if 0 <= pos < tokens.len() {
        match tokens[pos] {
            TokenView::Ident(name, span) => if reserved(name) {
                None
            } else {
                Some((name, span))
            },
            _ => None,
        }
    } else {
        None
    }
}

/// How many tokens the type of a declaration takes, whose first colon is at
/// `colon`: a type is written where `hints` has a type begin behind that
/// colon and a second colon follows it.
pub open spec fn typed(tokens: Seq<TokenView>, hints: Seq<Hint>, colon: int) -> Option<int> {
    match type_len(tokens, hints, colon + 1) {
        Some(n) => if is_punct(tokens, colon + 1 + n, ':') {
            Some(n)
        } else {
            None
        },
        None => None,
    }
}

/// Where the direction of a declaration stands, whose first colon is at
/// `colon`: behind the type and the second colon, where a type is written,
/// and else right behind the first colon.
pub open spec fn direction_pos(tokens: Seq<TokenView>, hints: Seq<Hint>, colon: int) -> int {
    match typed(tokens, hints, colon) {
        Some(n) => colon + n + 2,
        None => colon + 1,
    }
}

/// Where the semicolon of a declaration stands, whose constraint is at
/// `constraint`: behind `=` and an expression, where `=` follows the
/// constraint, and else right behind the constraint. Nothing where `=`
/// follows and `hints` has no expression begin behind it.
pub open spec fn semicolon_pos(
    tokens: Seq<TokenView>,
    hints: Seq<Hint>,
    constraint: int,
) -> Option<int> {
    if is_punct(tokens, constraint + 1, '=') {
        match expr_len(tokens, hints, constraint + 2) {
            Some(n) => Some(constraint + 2 + n),
            None => None,
        }
    } else {
        Some(constraint + 1)
    }
}

/// The colon and the type of a declaration whose first colon is at `colon`,
/// where a type follows that colon.
pub open spec fn explicit_type(tokens: Seq<TokenView>, hints: Seq<Hint>, colon: int) -> Option<
    (TokenView, Seq<TokenView>),
> {
    match typed(tokens, hints, colon) {
        Some(n) => Some((tokens[colon], tokens.subrange(colon + 1, colon + 1 + n))),
        None => None,
    }
}

/// The `=` and the initial value of a declaration whose constraint is at
/// `constraint`, where `=` and an expression follow the constraint.
pub open spec fn assignment(
    tokens: Seq<TokenView>,
    hints: Seq<Hint>,
    constraint: int,
) -> Option<
    (TokenView, Seq<TokenView>),
> {
    if is_punct(tokens, constraint + 1, '=') {
        match expr_len(tokens, hints, constraint + 2) {
            Some(n) => Some(
                (tokens[constraint + 1], tokens.subrange(constraint + 2, constraint + 2 + n)),
            ),
            None => None,
        }
    } else {
        None
    }
}

/// The declaration of a bridge variable that begins at `pos`, and the
/// position behind it:
/// `let [mut] NAME [: TYPE] : DIRECTION ("CONSTRAINT") [= EXPR] ;`
/// The parentheses hold one string literal and nothing else.
pub open spec fn parsed_decl(tokens: Seq<TokenView>, hints: Seq<Hint>, pos: int) -> Option<
    (DeclView, int),
> {
    let name = name_pos(tokens, pos);
    if !is_word(tokens, pos, "let"@) || !is_punct(tokens, name + 1, ':') {
        None
    } else {
        match identifier_at(tokens, name) {
            None => None,
            Some((ident, ident_span)) => {
                let direction = direction_pos(tokens, hints, name + 1);
                match (
                    direction_at(tokens, direction),
                    parenthesized_string(tokens, direction + 1),
                    semicolon_pos(tokens, hints, direction + 1),
                ) {
                    (Some(keyword), Some((constraint, constraint_span)), Some(semicolon)) => if is_punct(
                        tokens,
                        semicolon,
                        ';',
                    ) {
                        Some(
                            (
                                DeclView {
                                    let_keyword: tokens[pos],
                                    mut_keyword: if is_word(tokens, pos + 1, "mut"@) {
                                        Some(tokens[pos + 1])
                                    } else {
                                        None
                                    },
                                    ident,
                                    ident_span,
                                    explicit_type: explicit_type(tokens, hints, name + 1),
                                    constraint_keyword: keyword,
                                    constraint_string: constraint,
                                    constraint_span,
                                    assignment: assignment(tokens, hints, direction + 1),
                                    semicolon: tokens[semicolon],
                                },
                                semicolon + 1,
                            ),
                        )
                    } else {
                        None
                    },
                    _ => None,
                }
            },
        }
    }
}

/// The declaration of a clobber that begins at `pos`, and the position
/// behind it: `clobber ("CONSTRAINT") ;`
pub open spec fn parsed_clobber(tokens: Seq<TokenView>, pos: int) -> Option<(ClobberView, int)> {
    if is_word(tokens, pos, "clobber"@) && is_punct(tokens, pos + 2, ';') {
        match parenthesized_string(tokens, pos + 1) {
            Some((constraint, span)) => Some((ClobberView { constraint, span }, pos + 3)),
            None => None,
        }
    } else {
        None
    }
}

/// Whether `tokens` from position `k` on are string literals with a comma
/// between each two of them, and end with a literal.
pub open spec fn separated_strings(tokens: Seq<TokenView>, k: int) -> bool
    decreases tokens.len() - k,
{
    if 0 <= k < tokens.len() {
        string_at(tokens, k) is Some && (k + 1 == tokens.len() || (is_punct(tokens, k + 1, ',')
            && separated_strings(tokens, k + 2)))
    } else {
        false
    }
}

/// Every second token of `tokens`, from position `k` on.
pub open spec fn every_second(tokens: Seq<TokenView>, k: int) -> Seq<TokenView>
    decreases tokens.len() - k,
{
    if 0 <= k && k + 1 < tokens.len() {
        seq![tokens[k]] + every_second(tokens, k + 2)
    } else if 0 <= k < tokens.len() {
        seq![tokens[k]]
    } else {
        seq![]
    }
}

/// The options of an instruction block whose keyword is at `pos`, and the
/// position behind them. Options are string literals in parentheses, with a
/// comma between each two; the parentheses may be empty or missing. Nothing
/// where the parentheses hold anything else.
pub open spec fn parsed_options(tokens: Seq<TokenView>, pos: int) -> Option<
    (Seq<TokenView>, int),
> {
    match group_at(tokens, pos + 1, Delimiter::Parenthesis) {
        Some(inner) => if inner.len() == 0 {
            Some((seq![], pos + 2))
        } else if separated_strings(inner, 0) {
            Some((every_second(inner, 0), pos + 2))
        } else {
            None
        },
        None => Some((seq![], pos + 1)),
    }
}

/// The instruction text in the braces at `pos`: nothing where the braces are
/// empty, the text where they hold one string literal. The outer `Option` is
/// empty where the token is no such group.
pub open spec fn parsed_body(tokens: Seq<TokenView>, pos: int) -> Option<
    Option<(Seq<char>, Span)>,
> {
    match group_at(tokens, pos, Delimiter::Brace) {
        Some(inner) => if inner.len() == 0 {
            Some(None)
        } else if inner.len() == 1 && string_at(inner, 0) is Some {
            Some(string_at(inner, 0))
        } else {
            None
        },
        None => None,
    }
}

/// The instruction block that begins at `pos`, with the operands in scope
/// there, and the position behind it:
/// `asm [("OPTION", ...)] { "INSTRUCTIONS" }`
pub open spec fn parsed_asm(
    tokens: Seq<TokenView>,
    pos: int,
    outs: Seq<VarView>,
    ins: Seq<VarView>,
    clobbers: Seq<ClobberView>,
) -> Option<(AsmBlockView, int)> {
    if !is_word(tokens, pos, "asm"@) {
        None
    } else {
        match parsed_options(tokens, pos) {
            Some((options, body)) => match parsed_body(tokens, body) {
                Some(text) => Some(
                    (
                        AsmBlockView {
                            options,
                            asm_unchanged: text,
                            bridge_vars_out: outs,
                            bridge_vars_in: ins,
                            clobbers,
                        },
                        body + 1,
                    ),
                ),
                None => None,
            },
            None => None,
        }
    }
}

/// The name at `pos` and where it stands, if the token there is an
/// identifier.
pub fn identifier_name_at(tokens: &Vec<Token>, pos: usize) -> (r: Option<(String, Span)>)
    ensures
        match identifier_at(tokens.deep_view(), pos as int) {
            Some((name, span)) => r matches Some((found, place)) && found@ == name && place
                == span,
            None => r is None,
        },
{
    if pos >= tokens.len() {
        return None;
    }
    match &tokens[pos] {
        Token::Ident(name, span) => if is_reserved(name.as_str()) {
            None
        } else {
            Some((name.clone(), *span))
        },
        _ => None,
    }
}

/// The direction that the word at `pos` names.
pub fn direction_keyword_at(tokens: &Vec<Token>, pos: usize) -> (r: Option<ConstraintKeyword>)
    ensures
        r == direction_at(tokens.deep_view(), pos as int),
{
    if word_at(tokens, pos, "in") {
        Some(ConstraintKeyword::In)
    } else if word_at(tokens, pos, "out") {
        Some(ConstraintKeyword::Out)
    } else if word_at(tokens, pos, "inout") {
        Some(ConstraintKeyword::InOut)
    } else {
        None
    }
}

impl BridgeVarDecl {
    /// Reads the declaration of a bridge variable that begins at `pos`, with
    /// the type and the initial value where `hints` has them. Returns it
    /// with the position behind it, or nothing where no such declaration
    /// begins there.
    pub fn parse(tokens: &Vec<Token>, hints: &Vec<Hint>, pos: usize) -> (r: Option<
        (BridgeVarDecl, usize),
    >)
        ensures
            match parsed_decl(tokens.deep_view(), hints@, pos as int) {
                Some((decl, end)) => r matches Some((found, next)) && found@ == decl && next
                    == end && pos < end <= tokens.len(),
                None => r is None,
            },
    {
        assert(tokens.deep_view().len() == tokens.len());
        if !word_at(tokens, pos, "let") {
            return None;
        }
        let has_mut = word_at(tokens, pos + 1, "mut");
        let name = if has_mut {
            pos + 2
        } else {
            pos + 1
        };
        let (ident, ident_span) = match identifier_name_at(tokens, name) {
            Some(found) => found,
            None => {
                return None;
            },
        };
        let colon = name + 1;
        if !punct_at(tokens, colon, ':') {
            return None;
        }
        let mut explicit_type: Option<(Token, Vec<Token>)> = None;
        let mut direction = colon + 1;
        match type_end_at(tokens, hints, colon + 1) {
            Some(end) => {
                if punct_at(tokens, end, ':') {
                    explicit_type = Some(
                        (tokens[colon].clone(), clone_range(tokens, colon + 1, end)),
                    );
                    direction = end + 1;
                }
            },
            None => {},
        }
        let constraint_keyword = match direction_keyword_at(tokens, direction) {
            Some(keyword) => keyword,
            None => {
                return None;
            },
        };
        let constraint = direction + 1;
        let (constraint_string, constraint_span) = match parenthesized_string_at(
            tokens,
            constraint,
        ) {
            Some(found) => found,
            None => {
                return None;
            },
        };
        let mut assignment: Option<(Token, Vec<Token>)> = None;
        let mut semicolon = constraint + 1;
        if punct_at(tokens, constraint + 1, '=') {
            match expr_end_at(tokens, hints, constraint + 2) {
                Some(end) => {
                    assignment = Some(
                        (tokens[constraint + 1].clone(), clone_range(tokens, constraint + 2, end)),
                    );
                    semicolon = end;
                },
                None => {
                    return None;
                },
            }
        }
        if !punct_at(tokens, semicolon, ';') {
            return None;
        }
        let decl = BridgeVarDecl {
            let_keyword: tokens[pos].clone(),
            mut_keyword: if has_mut {
                Some(tokens[pos + 1].clone())
            } else {
                None
            },
            ident,
            ident_span,
            explicit_type,
            constraint_keyword,
            constraint_string,
            constraint_span,
            assignment,
            semicolon: tokens[semicolon].clone(),
        };
        Some((decl, semicolon + 1))
    }
}

impl ClobberDecl {
    /// Reads the declaration of a clobber that begins at `pos`. Returns it
    /// with the position behind it, or nothing where no such declaration
    /// begins there.
    pub fn parse(tokens: &Vec<Token>, pos: usize) -> (r: Option<(ClobberDecl, usize)>)
        ensures
            match parsed_clobber(tokens.deep_view(), pos as int) {
                Some((decl, end)) => r matches Some((found, next)) && found@ == decl && next
                    == end && pos < end <= tokens.len(),
                None => r is None,
            },
    {
        assert(tokens.deep_view().len() == tokens.len());
        if !word_at(tokens, pos, "clobber") {
            return None;
        }
        match parenthesized_string_at(tokens, pos + 1) {
            Some((constraint_string, span)) => {
                if !punct_at(tokens, pos + 2, ';') {
                    return None;
                }
                Some((ClobberDecl { constraint_string, span }, pos + 3))
            },
            None => None,
        }
    }
}

/// Reads the options that `inner`, the tokens inside the parentheses of an
/// instruction block, holds: string literals with a comma between each two.
pub fn parse_options(inner: &Vec<Token>) -> (r: Option<Vec<Token>>)
    ensures
        match r {
            Some(options) => separated_strings(inner.deep_view(), 0) && options.deep_view()
                == every_second(inner.deep_view(), 0),
            None => !separated_strings(inner.deep_view(), 0),
        },
{
    let ghost all = inner.deep_view();
    assert(all.len() == inner.len());
    if inner.len() == 0 {
        return None;
    }
    let mut options: Vec<Token> = Vec::new();
    let mut k: usize = 0;
    assert(options.deep_view() =~= Seq::<TokenView>::empty());
    loop
        invariant
            k < inner.len(),
            all == inner.deep_view(),
            separated_strings(all, k as int) == separated_strings(all, 0),
            options.deep_view() + every_second(all, k as int) == every_second(all, 0),
        decreases inner.len() - k,
    {
        let ghost options0 = options.deep_view();
        if string_literal_at(inner, k).is_none() {
            return None;
        }
        options.push(inner[k].clone());
        assert(options.deep_view() =~= options0.push(all[k as int]));
        if k + 1 == inner.len() {
            assert(options.deep_view() =~= every_second(all, 0));
            return Some(options);
        }
        if !punct_at(inner, k + 1, ',') {
            return None;
        }
        if k + 2 >= inner.len() {
            assert(!separated_strings(all, k + 2));
            return None;
        }
        k = k + 2;
        assert(options.deep_view() + every_second(all, k as int) =~= options0 + every_second(
            all,
            k - 2,
        ));
    }
}

impl AsmBlock {
    /// Reads the instruction block that begins at `pos`, and gives it the
    /// operands in scope. Returns it with the position behind it, or nothing
    /// where no instruction block begins there.
    pub fn parse(
        tokens: &Vec<Token>,
        pos: usize,
        bridge_vars_out: Vec<BridgeVar>,
        bridge_vars_in: Vec<BridgeVar>,
        clobbers: Vec<Clobber>,
    ) -> (r: Option<(AsmBlock, usize)>)
        ensures
            match parsed_asm(
                tokens.deep_view(),
                pos as int,
                bridge_vars_out.deep_view(),
                bridge_vars_in.deep_view(),
                clobbers.deep_view(),
            ) {
                Some((block, end)) => r matches Some((found, next)) && found@ == block && next
                    == end && pos < end <= tokens.len(),
                None => r is None,
            },
    {
        assert(tokens.deep_view().len() == tokens.len());
        if !word_at(tokens, pos, "asm") {
            return None;
        }
        let mut options: Vec<Token> = Vec::new();
        let mut body = pos + 1;
        assert(options.deep_view() =~= Seq::<TokenView>::empty());
        match group_contents(tokens, pos + 1, Delimiter::Parenthesis) {
            Some(inner) => {
                if inner.len() > 0 {
                    match parse_options(inner) {
                        Some(found) => {
                            options = found;
                        },
                        None => {
                            return None;
                        },
                    }
                }
                body = pos + 2;
            },
            None => {},
        }
        let asm_unchanged = match group_contents(tokens, body, Delimiter::Brace) {
            Some(inner) => {
                if inner.len() == 0 {
                    None
                } else if inner.len() == 1 {
                    match string_literal_at(inner, 0) {
                        Some(found) => Some(found),
                        None => {
                            return None;
                        },
                    }
                } else {
                    return None;
                }
            },
            None => {
                return None;
            },
        };
        Some((AsmBlock { options, asm_unchanged, bridge_vars_out, bridge_vars_in, clobbers }, body + 1))
    }
}

} // verus!
