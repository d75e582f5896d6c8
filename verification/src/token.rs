//! The tokens that the lowering reads and writes: a tree of identifiers,
//! punctuation, literals and delimited groups.

use proc_macro2::Span;
use vstd::prelude::*;

verus! {

/// The brackets around a group of tokens.
#[derive(Clone, Copy, Debug, PartialEq, Eq, Structural)]
pub enum Delimiter {
    Parenthesis,
    Brace,
    Bracket,
    /// A group without written brackets.
    Invisible,
}

/// One token with the place it was written at.
#[derive(Debug)]
pub enum Token {
    /// A word: an identifier or a keyword.
    Ident(String, Span),
    /// One punctuation character; the flag says that the next token follows
    /// it without a gap and forms one operator with it.
    Punct(char, bool, Span),
    /// A string literal, held as what it says.
    Str(String, Span),
    /// Any other literal, as it is written in the source.
    Literal(String, Span),
    /// A delimited group and the tokens inside it.
    Group(Delimiter, Vec<Token>, Span),
}

/// What a token holds, with its text as a sequence of characters.
pub ghost enum TokenView {
    Ident(Seq<char>, Span),
    Punct(char, bool, Span),
    Str(Seq<char>, Span),
    Literal(Seq<char>, Span),
    Group(Delimiter, Seq<TokenView>, Span),
}

/// The view of a token: its texts as sequences of characters, and the views
/// of the tokens inside a group.
pub open spec fn token_view(token: Token) -> TokenView
    decreases token,
{
    match token {
        Token::Ident(name, span) => TokenView::Ident(name@, span),
        Token::Punct(ch, joint, span) => TokenView::Punct(ch, joint, span),
        Token::Str(value, span) => TokenView::Str(value@, span),
        Token::Literal(text, span) => TokenView::Literal(text@, span),
        Token::Group(delimiter, tokens, span) => TokenView::Group(
            delimiter,
            Seq::new(
                tokens.len() as nat,
                |i: int|
                    if 0 <= i < tokens.len() {
                        token_view(tokens[i])
                    } else {
                        arbitrary()
                    },
            ),
            span,
        ),
    }
}

impl View for Token {
    type V = TokenView;

    open spec fn view(&self) -> TokenView {
        token_view(*self)
    }
}

impl DeepView for Token {
    type V = TokenView;

    open spec fn deep_view(&self) -> TokenView {
        self@
    }
}

/// The view of a group holds the views of the tokens inside it.
pub proof fn lemma_group_view(delimiter: Delimiter, tokens: Vec<Token>, span: Span)
    ensures
        Token::Group(delimiter, tokens, span)@ == TokenView::Group(
            delimiter,
            tokens.deep_view(),
            span,
        ),
{
    let inner = token_view(Token::Group(delimiter, tokens, span))->Group_1;
    assert(inner =~= tokens.deep_view());
}

/// A copy of `token`.
pub fn clone_token(token: &Token) -> (r: Token)
    ensures
        r@ == token@,
    decreases token,
{
    match token {
        Token::Ident(name, span) => Token::Ident(name.clone(), *span),
        Token::Punct(ch, joint, span) => Token::Punct(*ch, *joint, *span),
        Token::Str(value, span) => Token::Str(value.clone(), *span),
        Token::Literal(text, span) => Token::Literal(text.clone(), *span),
        Token::Group(delimiter, tokens, span) => {
            let mut copy: Vec<Token> = Vec::new();
            let mut i: usize = 0;
            while i < tokens.len()
                invariant
                    i <= tokens.len(),
                    copy.len() == i,
                    *token == Token::Group(*delimiter, *tokens, *span),
                    forall|j: int| 0 <= j < i ==> copy[j]@ == tokens[j]@,
                decreases tokens.len() - i,
            {
                proof {
                    vstd::std_specs::vec::axiom_vec_index_decreases(*tokens, i as int);
                    assert(decreases_to!(*token => token->Group_1));
                }
                copy.push(clone_token(&tokens[i]));
                i = i + 1;
            }
            proof {
                assert(copy.deep_view() =~= tokens.deep_view());
                lemma_group_view(*delimiter, copy, *span);
                lemma_group_view(*delimiter, *tokens, *span);
            }
            Token::Group(*delimiter, copy, *span)
        },
    }
}

impl Clone for Token {
    fn clone(&self) -> (r: Self)
        ensures
            r@ == self@,
    {
        clone_token(self)
    }
}

/// A copy of `tokens[from..to]`.
pub fn clone_range(tokens: &Vec<Token>, from: usize, to: usize) -> (r: Vec<Token>)
    requires
        from <= to <= tokens.len(),
    ensures
        r.deep_view() == tokens.deep_view().subrange(from as int, to as int),
{
    let mut copy: Vec<Token> = Vec::new();
    let mut i: usize = from;
    while i < to
        invariant
            from <= i <= to <= tokens.len(),
            copy.len() == i - from,
            forall|j: int| 0 <= j < i - from ==> copy[j]@ == tokens[from + j]@,
        decreases to - i,
    {
        copy.push(tokens[i].clone());
        i = i + 1;
    }
    assert(copy.deep_view() =~= tokens.deep_view().subrange(from as int, to as int));
    copy
}

} // verus!
