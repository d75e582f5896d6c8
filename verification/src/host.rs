//! What is asked of the surrounding language's own parser: whether a run of
//! tokens is a type, or an expression. The tokens in question are handed
//! over as text, and what was found is kept beside the tokens as hints.
//! Nothing is known of an answer beforehand: whoever reads the tokens takes
//! the hints as they are.

use crate::grammar::is_punct;
use crate::grammar::punct_at;
use crate::text::chars_of;
use crate::token::clone_range;
use crate::token::lemma_group_view;
use crate::token::Delimiter;
use crate::token::Token;
use crate::token::TokenView;
use vstd::prelude::*;
use vstd::string::*;

verus! {

/// The text that opens a group.
pub open spec fn open_text(delimiter: Delimiter) -> char {
    match delimiter {
        Delimiter::Parenthesis => '(',
        Delimiter::Brace => '{',
        Delimiter::Bracket => '[',
        Delimiter::Invisible => '(',
    }
}

/// The text that closes a group.
pub open spec fn close_text(delimiter: Delimiter) -> char {
    match delimiter {
        Delimiter::Parenthesis => ')',
        Delimiter::Brace => '}',
        Delimiter::Bracket => ']',
        Delimiter::Invisible => ')',
    }
}

/// How the character `c` is written inside a string literal.
pub open spec fn escaped(c: char) -> Seq<char> {
    if c == '"' {
        seq!['\\', '"']
    } else if c == '\\' {
        seq!['\\', '\\']
    } else if c == '\n' {
        seq!['\\', 'n']
    } else if c == '\r' {
        seq!['\\', 'r']
    } else if c == '\t' {
        seq!['\\', 't']
    } else if c == '\0' {
        seq!['\\', '0']
    } else {
        seq![c]
    }
}

/// The characters of `value` from position `k` on, as they are written
/// inside a string literal.
pub open spec fn escaped_from(value: Seq<char>, k: int) -> Seq<char>
    decreases value.len() - k,
{
    if 0 <= k < value.len() {
        escaped(value[k]) + escaped_from(value, k + 1)
    } else {
        seq![]
    }
}

/// A string literal that says `value`: in double quotes, with the quote, the
/// backslash and the characters for line end, carriage return, tab and zero
/// written with a backslash.
pub open spec fn quoted(value: Seq<char>) -> Seq<char> {
    seq!['"'] + escaped_from(value, 0) + seq!['"']
}

/// The tokens from position `k` on, written out as text. Every token is
/// followed by a blank, but for a punctuation character that forms one
/// operator with the token after it. A group without written brackets is
/// written in parentheses, so that it stays one token.
pub open spec fn rendered_from(tokens: Seq<TokenView>, k: int) -> Seq<char>
    decreases tokens, tokens.len() - k,
{
    if 0 <= k < tokens.len() {
        let here = match tokens[k] {
            TokenView::Ident(name, _) => name.push(' '),
            TokenView::Punct(ch, joint, _) => if joint {
                seq![ch]
            } else {
                seq![ch, ' ']
            },
            TokenView::Str(value, _) => quoted(value).push(' '),
            TokenView::Literal(text, _) => text.push(' '),
            TokenView::Group(delimiter, inner, _) => seq![open_text(delimiter)] + rendered_from(
                inner,
                0,
            ) + seq![close_text(delimiter), ' '],
        };
        here + rendered_from(tokens, k + 1)
    } else {
        seq![]
    }
}

fn open_char(delimiter: Delimiter) -> (c: char)
    ensures
        c == open_text(delimiter),
{
    match delimiter {
        Delimiter::Parenthesis => '(',
        Delimiter::Brace => '{',
        Delimiter::Bracket => '[',
        Delimiter::Invisible => '(',
    }
}

fn close_char(delimiter: Delimiter) -> (c: char)
    ensures
        c == close_text(delimiter),
{
    match delimiter {
        Delimiter::Parenthesis => ')',
        Delimiter::Brace => '}',
        Delimiter::Bracket => ']',
        Delimiter::Invisible => ')',
    }
}

/// Appends to `out` a string literal that says `value`.
pub fn push_quoted(out: &mut String, value: &str)
    ensures
        final(out)@ == old(out)@ + quoted(value@),
{
    let ghost before = out@;
    let chars = chars_of(value);
    out.push('"');
    let mut k: usize = 0;
    while k < chars.len()
        invariant
            k <= chars.len(),
            chars@ == value@,
            out@ + escaped_from(chars@, k as int) == before + seq!['"'] + escaped_from(
                chars@,
                0,
            ),
        decreases chars.len() - k,
    {
        let ghost out0 = out@;
        let c = chars[k];
        if c == '"' {
            out.push('\\');
            out.push('"');
        } else if c == '\\' {
            out.push('\\');
            out.push('\\');
        } else if c == '\n' {
            out.push('\\');
            out.push('n');
        } else if c == '\r' {
            out.push('\\');
            out.push('r');
        } else if c == '\t' {
            out.push('\\');
            out.push('t');
        } else if c == '\0' {
            out.push('\\');
            out.push('0');
        } else {
            out.push(c);
        }
        assert(out@ =~= out0 + escaped(c));
        k = k + 1;
        assert(out@ + escaped_from(chars@, k as int) =~= out0 + escaped_from(chars@, k - 1));
    }
    out.push('"');
    assert(out@ =~= before + quoted(value@));
}

/// Writes the tokens from position `from` on to the end of `out`.
pub fn render_from(out: &mut String, tokens: &Vec<Token>, from: usize)
    ensures
        final(out)@ == old(out)@ + rendered_from(tokens.deep_view(), from as int),
    decreases tokens,
{
    let ghost all = tokens.deep_view();
    let ghost before = out@;
    let mut k: usize = from;
    if from >= tokens.len() {
        assert(out@ =~= before + rendered_from(all, from as int));
        return ;
    }
    while k < tokens.len()
        invariant
            from <= k <= tokens.len(),
            all == tokens.deep_view(),
            out@ + rendered_from(all, k as int) == before + rendered_from(all, from as int),
        decreases tokens.len() - k,
    {
        let ghost out0 = out@;
        match &tokens[k] {
            Token::Ident(name, _) => {
                out.append(name.as_str());
                out.push(' ');
                assert(out@ =~= out0 + name@.push(' '));
            },
            Token::Punct(ch, joint, _) => {
                out.push(*ch);
                if !*joint {
                    out.push(' ');
                    assert(out@ =~= out0 + seq![*ch, ' ']);
                } else {
                    assert(out@ =~= out0 + seq![*ch]);
                }
            },
            Token::Str(value, _) => {
                push_quoted(out, value.as_str());
                out.push(' ');
                assert(out@ =~= out0 + quoted(value@).push(' '));
            },
            Token::Literal(text, _) => {
                out.append(text.as_str());
                out.push(' ');
                assert(out@ =~= out0 + text@.push(' '));
            },
            Token::Group(delimiter, inner, span) => {
                proof {
                    vstd::std_specs::vec::axiom_vec_index_decreases(*tokens, k as int);
                    assert(decreases_to!(tokens[k as int] => tokens[k as int]->Group_1));
                    lemma_group_view(*delimiter, *inner, *span);
                }
                out.push(open_char(*delimiter));
                render_from(out, inner, 0);
                out.push(close_char(*delimiter));
                out.push(' ');
                assert(out@ =~= out0 + (seq![open_text(*delimiter)] + rendered_from(
                    inner.deep_view(),
                    0,
                ) + seq![close_text(*delimiter), ' ']));
            },
        }
        k = k + 1;
        assert(out@ + rendered_from(all, k as int) =~= out0 + rendered_from(all, k - 1));
    }
    assert(out@ =~= before + rendered_from(all, from as int));
}

/// `syn::parse_str` for a `syn::Type`: whether it takes `text` for a type.
/// The answer is handed on as it comes; nothing is claimed of it.
#[verifier::external_body]
pub(crate) fn is_type(text: &str) -> (r: bool) {
    syn::parse_str::<syn::Type>(text).is_ok()
}

/// `syn::parse_str` for a `syn::Expr`: whether it takes `text` for an
/// expression. The answer is handed on as it comes; nothing is claimed of it.
#[verifier::external_body]
pub(crate) fn is_expr(text: &str) -> (r: bool) {
    syn::parse_str::<syn::Expr>(text).is_ok()
}

/// What was found of one token with the help of the surrounding language's
/// parser: where the type ends that begins at it, and where the expression
/// ends that begins at it, each as the position behind its last token, if
/// one was looked for and found; and, for a block in braces, what was found
/// of the tokens inside.
#[derive(Debug)]
pub struct Hint {
    pub type_end: Option<usize>,
    pub expr_end: Option<usize>,
    pub inner: Vec<Hint>,
}

/// How many tokens from position `pos` on make up a type, as far as `hints`
/// says that one begins there and ends inside the tokens.
pub open spec fn type_len(tokens: Seq<TokenView>, hints: Seq<Hint>, pos: int) -> Option<int> {
    if 0 <= pos < hints.len() {
        match hints[pos].type_end {
            Some(end) => if pos <= end <= tokens.len() {
                Some(end - pos)
            } else {
                None
            },
            None => None,
        }
    } else {
        None
    }
}

/// How many tokens from position `pos` on make up an expression, as far as
/// `hints` says that one begins there and ends inside the tokens.
pub open spec fn expr_len(tokens: Seq<TokenView>, hints: Seq<Hint>, pos: int) -> Option<int> {
    if 0 <= pos < hints.len() {
        match hints[pos].expr_end {
            Some(end) => if pos <= end <= tokens.len() {
                Some(end - pos)
            } else {
                None
            },
            None => None,
        }
    } else {
        None
    }
}

/// The hints for the tokens inside the group at `pos`.
pub open spec fn inner_hints(hints: Seq<Hint>, pos: int) -> Seq<Hint> {
    if 0 <= pos < hints.len() {
        hints[pos].inner@
    } else {
        seq![]
    }
}

/// The position behind the type that `hints` says begins at `pos`.
pub fn type_end_at(tokens: &Vec<Token>, hints: &Vec<Hint>, pos: usize) -> (r: Option<usize>)
    ensures
        match type_len(tokens.deep_view(), hints@, pos as int) {
            Some(n) => r == Some((pos + n) as usize) && pos + n <= tokens.len(),
            None => r is None,
        },
{
    if pos >= hints.len() {
        return None;
    }
    match hints[pos].type_end {
        Some(end) => if pos <= end && end <= tokens.len() {
            Some(end)
        } else {
            None
        },
        None => None,
    }
}

/// The position behind the expression that `hints` says begins at `pos`.
pub fn expr_end_at(tokens: &Vec<Token>, hints: &Vec<Hint>, pos: usize) -> (r: Option<usize>)
    ensures
        match expr_len(tokens.deep_view(), hints@, pos as int) {
            Some(n) => r == Some((pos + n) as usize) && pos + n <= tokens.len(),
            None => r is None,
        },
{
    if pos >= hints.len() {
        return None;
    }
    match hints[pos].expr_end {
        Some(end) => if pos <= end && end <= tokens.len() {
            Some(end)
        } else {
            None
        },
        None => None,
    }
}

/// The tokens from `from` up to `to`, written out as text.
pub fn render_range(tokens: &Vec<Token>, from: usize, to: usize) -> (text: String)
    requires
        from <= to <= tokens.len(),
    ensures
        text@ == rendered_from(tokens.deep_view().subrange(from as int, to as int), 0),
{
    let part = clone_range(tokens, from, to);
    let mut text = String::new();
    render_from(&mut text, &part, 0);
    assert(text@ =~= rendered_from(part.deep_view(), 0));
    text
}

/// Asks the surrounding language's parser where the type ends that begins at
/// `pos`: at the last colon behind `pos` up to which the tokens are a type.
/// Whatever the parser says, an end that is returned is the position of a
/// colon behind `pos`.
pub fn ask_type(tokens: &Vec<Token>, pos: usize) -> (r: Option<usize>)
    ensures
        r matches Some(end) ==> pos < end < tokens.len() && is_punct(
            tokens.deep_view(),
            end as int,
            ':',
        ),
{
    if pos >= tokens.len() {
        return None;
    }
    let mut end: usize = tokens.len();
    while end > pos + 1
        invariant
            pos < end <= tokens.len(),
        decreases end,
    {
        end = end - 1;
        if punct_at(tokens, end, ':') {
            let text = render_range(tokens, pos, end);
            if is_type(text.as_str()) {
                return Some(end);
            }
        }
    }
    None
}

/// Asks the surrounding language's parser where the expression ends that
/// begins at `pos`: at the first semicolon behind `pos` up to which the
/// tokens are an expression. Whatever the parser says, an end that is
/// returned is the position of a semicolon behind `pos`.
pub fn ask_expr(tokens: &Vec<Token>, pos: usize) -> (r: Option<usize>)
    ensures
        r matches Some(end) ==> pos < end < tokens.len() && is_punct(
            tokens.deep_view(),
            end as int,
            ';',
        ),
{
    if pos >= tokens.len() {
        return None;
    }
    let mut end: usize = pos + 1;
    while end < tokens.len()
        invariant
            pos < end <= tokens.len(),
        decreases tokens.len() - end,
    {
        if punct_at(tokens, end, ';') {
            let text = render_range(tokens, pos, end);
            if is_expr(text.as_str()) {
                return Some(end);
            }
        }
        end = end + 1;
    }
    None
}

/// Gathers the hints for `tokens`: a type is asked for behind every colon,
/// an expression behind every `=`, and the inside of every group in braces
/// is gone through in the same way. There is one hint for each token. A type
/// is noted only behind a colon, and ends at a colon; an expression is noted
/// only behind `=`, and ends at a semicolon.
pub fn survey(tokens: &Vec<Token>) -> (hints: Vec<Hint>)
    ensures
        hints.len() == tokens.len(),
        forall|p: int|
            0 <= p < hints.len() ==> ((#[trigger] hints[p]).type_end matches Some(end) ==> p
                < end < tokens.len() && is_punct(tokens.deep_view(), p - 1, ':') && is_punct(
                tokens.deep_view(),
                end as int,
                ':',
            )),
        forall|p: int|
            0 <= p < hints.len() ==> ((#[trigger] hints[p]).expr_end matches Some(end) ==> p
                < end < tokens.len() && is_punct(tokens.deep_view(), p - 1, '=') && is_punct(
                tokens.deep_view(),
                end as int,
                ';',
            )),
    decreases tokens,
{
    let ghost all = tokens.deep_view();
    let mut hints: Vec<Hint> = Vec::new();
    let mut p: usize = 0;
    while p < tokens.len()
        invariant
            p <= tokens.len(),
            hints.len() == p,
            all == tokens.deep_view(),
            forall|q: int|
                0 <= q < p ==> ((#[trigger] hints[q]).type_end matches Some(end) ==> q < end
                    < tokens.len() && is_punct(all, q - 1, ':') && is_punct(all, end as int, ':')),
            forall|q: int|
                0 <= q < p ==> ((#[trigger] hints[q]).expr_end matches Some(end) ==> q < end
                    < tokens.len() && is_punct(all, q - 1, '=') && is_punct(all, end as int, ';')),
        decreases tokens.len() - p,
    {
        let type_end = if p > 0 && punct_at(tokens, p - 1, ':') {
            ask_type(tokens, p)
        } else {
            None
        };
        let expr_end = if p > 0 && punct_at(tokens, p - 1, '=') {
            ask_expr(tokens, p)
        } else {
            None
        };
        let inner = match &tokens[p] {
            Token::Group(Delimiter::Brace, inside, _) => {
                proof {
                    vstd::std_specs::vec::axiom_vec_index_decreases(*tokens, p as int);
                    assert(decreases_to!(tokens[p as int] => tokens[p as int]->Group_1));
                }
                survey(inside)
            },
            _ => Vec::new(),
        };
        hints.push(Hint { type_end, expr_end, inner });
        p = p + 1;
    }
    hints
}

} // verus!
