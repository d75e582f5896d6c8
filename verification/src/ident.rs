//! Recognising a bare identifier inside instruction text.

use unicode_xid::UnicodeXID;
use vstd::prelude::*;

verus! {

/// Whether `c` has the Unicode property XID_Start.
pub uninterp spec fn xid_start(c: char) -> bool;

/// Whether `c` has the Unicode property XID_Continue.
pub uninterp spec fn xid_continue(c: char) -> bool;

/// An ASCII letter, upper or lower case.
pub open spec fn ascii_letter(c: char) -> bool {
    ('a' <= c && c <= 'z') || ('A' <= c && c <= 'Z')
}

/// An ASCII letter, an ASCII digit or the underscore.
pub open spec fn ascii_word(c: char) -> bool {
    ascii_letter(c) || ('0' <= c && c <= '9') || c == '_'
}

/// `UnicodeXID::is_xid_start` of `unicode_xid` on a `char`: the result is the
/// property XID_Start of `c`; among the ASCII characters it holds of the
/// letters and of nothing else.
#[verifier::external_body]
fn is_xid_start(c: char) -> (r: bool)
    ensures
        r == xid_start(c),
        c <= '\x7f' ==> r == ascii_letter(c),
{
    UnicodeXID::is_xid_start(c)
}

/// `UnicodeXID::is_xid_continue` of `unicode_xid` on a `char`: the result is
/// the property XID_Continue of `c`; among the ASCII characters it holds of
/// the letters, the digits and the underscore, and of nothing else.
#[verifier::external_body]
fn is_xid_continue(c: char) -> (r: bool)
    ensures
        r == xid_continue(c),
        c <= '\x7f' ==> r == ascii_word(c),
{
    UnicodeXID::is_xid_continue(c)
}

/// A character that may begin an identifier.
pub open spec fn ident_start(c: char) -> bool {
    c == '_' || xid_start(c)
}

/// How many characters from `from` on continue an identifier.
pub open spec fn continue_run(text: Seq<char>, from: int) -> nat
    decreases text.len() - from,
{
    if 0 <= from < text.len() && xid_continue(text[from]) {
        1 + continue_run(text, from + 1)
    } else {
        0
    }
}

/// The length of the identifier that begins at `start`, if one begins there.
/// An underscore that stands alone is no identifier.
pub open spec fn ident_len(text: Seq<char>, start: int) -> Option<nat> {
    if 0 <= start < text.len() && ident_start(text[start]) {
        let n = 1 + continue_run(text, start + 1);
        if n == 1 && text[start] == '_' {
            None
        } else {
            Some(n)
        }
    } else {
        None
    }
}

/// A run of continuing characters ends inside the text.
pub proof fn lemma_continue_run_bound(text: Seq<char>, from: int)
    requires
        0 <= from <= text.len(),
    ensures
        from + continue_run(text, from) <= text.len(),
    decreases text.len() - from,
{
    if from < text.len() && xid_continue(text[from]) {
        lemma_continue_run_bound(text, from + 1);
    }
}

/// The run of continuing characters from `from` ends where `to` says, once
/// every character between them continues and the one at `to` does not.
pub proof fn lemma_continue_run(text: Seq<char>, from: int, to: int)
    requires
        0 <= from <= to <= text.len(),
        forall|k: int| from <= k < to ==> xid_continue(#[trigger] text[k]),
        to < text.len() ==> !xid_continue(text[to]),
    ensures
        continue_run(text, from) == to - from,
    decreases to - from,
{
    if from < to {
        lemma_continue_run(text, from + 1, to);
    }
}

/// Reads the identifier that begins at `start` in `text` and returns it with
/// its length in characters. No identifier holds a `$`.
pub fn parse_ident_at_start(text: &Vec<char>, start: usize) -> (r: Option<(String, usize)>)
    ensures
        match ident_len(text@, start as int) {
            Some(n) => r matches Some((name, len)) && len == n && name@ == text@.subrange(
                start as int,
                start + n,
            ),
            None => r is None,
        },
        r matches Some((name, _)) ==> !name@.contains('$'),
{
    if start >= text.len() {
        return None;
    }
    let first = text[start];
    if first != '_' && !is_xid_start(first) {
        return None;
    }
    let mut name = String::new();
    name.push(first);
    assert(name@ =~= text@.subrange(start as int, start + 1));
    let mut end: usize = start + 1;
    while end < text.len() && is_xid_continue(text[end])
        invariant
            start < end <= text.len(),
            name@ == text@.subrange(start as int, end as int),
            forall|k: int| start < k < end ==> xid_continue(#[trigger] text@[k]),
            forall|k: int| start <= k < end ==> #[trigger] text@[k] != '$',
        decreases text.len() - end,
    {
        name.push(text[end]);
        end = end + 1;
        assert(name@ =~= text@.subrange(start as int, end as int));
    }
    proof {
        lemma_continue_run(text@, start + 1, end as int);
    }
    if end - start == 1 && first == '_' {
        None
    } else {
        Some((name, end - start))
    }
}

} // verus!
