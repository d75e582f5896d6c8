//! The words that the surrounding language keeps for itself.

use crate::operand::same_text;
use vstd::prelude::*;

verus! {

/// Whether `name` is a word that cannot name a variable: the underscore
/// alone, or a keyword of the language, in use or set aside.
pub open spec fn reserved(name: Seq<char>) -> bool {
    name == "_"@
        || name == "abstract"@
        || name == "as"@
        || name == "async"@
        || name == "await"@
        || name == "become"@
        || name == "box"@
        || name == "break"@
        || name == "const"@
        || name == "continue"@
        || name == "crate"@
        || name == "do"@
        || name == "dyn"@
        || name == "else"@
        || name == "enum"@
        || name == "extern"@
        || name == "false"@
        || name == "final"@
        || name == "fn"@
        || name == "for"@
        || name == "if"@
        || name == "impl"@
        || name == "in"@
        || name == "let"@
        || name == "loop"@
        || name == "macro"@
        || name == "match"@
        || name == "mod"@
        || name == "move"@
        || name == "mut"@
        || name == "override"@
        || name == "priv"@
        || name == "pub"@
        || name == "ref"@
        || name == "return"@
        || name == "Self"@
        || name == "self"@
        || name == "static"@
        || name == "struct"@
        || name == "super"@
        || name == "trait"@
        || name == "true"@
        || name == "try"@
        || name == "type"@
        || name == "typeof"@
        || name == "unsafe"@
        || name == "unsized"@
        || name == "use"@
        || name == "virtual"@
        || name == "where"@
        || name == "while"@
        || name == "yield"@
}

/// Whether `name` is a word that cannot name a variable.
pub fn is_reserved(name: &str) -> (r: bool)
    ensures
        r == reserved(name@),
{
    same_text(name, "_")
        || same_text(name, "abstract")
        || same_text(name, "as")
        || same_text(name, "async")
        || same_text(name, "await")
        || same_text(name, "become")
        || same_text(name, "box")
        || same_text(name, "break")
        || same_text(name, "const")
        || same_text(name, "continue")
        || same_text(name, "crate")
        || same_text(name, "do")
        || same_text(name, "dyn")
        || same_text(name, "else")
        || same_text(name, "enum")
        || same_text(name, "extern")
        || same_text(name, "false")
        || same_text(name, "final")
        || same_text(name, "fn")
        || same_text(name, "for")
        || same_text(name, "if")
        || same_text(name, "impl")
        || same_text(name, "in")
        || same_text(name, "let")
        || same_text(name, "loop")
        || same_text(name, "macro")
        || same_text(name, "match")
        || same_text(name, "mod")
        || same_text(name, "move")
        || same_text(name, "mut")
        || same_text(name, "override")
        || same_text(name, "priv")
        || same_text(name, "pub")
        || same_text(name, "ref")
        || same_text(name, "return")
        || same_text(name, "Self")
        || same_text(name, "self")
        || same_text(name, "static")
        || same_text(name, "struct")
        || same_text(name, "super")
        || same_text(name, "trait")
        || same_text(name, "true")
        || same_text(name, "try")
        || same_text(name, "type")
        || same_text(name, "typeof")
        || same_text(name, "unsafe")
        || same_text(name, "unsized")
        || same_text(name, "use")
        || same_text(name, "virtual")
        || same_text(name, "where")
        || same_text(name, "while")
        || same_text(name, "yield")
}

} // verus!
