//! Operands of an instruction block: bridge variables and clobbers.

use proc_macro2::Span;
use vstd::prelude::*;
use vstd::string::*;

verus! {

/// Whether two pieces of text hold the same characters.
pub fn same_text(a: &str, b: &str) -> (r: bool)
    ensures
        r == (a@ == b@),
{
    let x = a.to_owned();
    let y = b.to_owned();
    x == y
}

/// The register that a constraint pins its operand to: the text between the
/// braces, where the constraint is written in braces.
pub open spec fn register_of(constraint: Seq<char>) -> Option<Seq<char>> {
    if constraint.len() >= 2 && constraint[0] == '{' && constraint[constraint.len() - 1] == '}' {
        Some(constraint.subrange(1, constraint.len() - 1))
    } else {
        None
    }
}

/// The register named by `constraint`, if it is written in braces.
pub fn explicit_register_of(constraint: &str) -> (r: Option<&str>)
    ensures
        match register_of(constraint@) {
            Some(reg) => r matches Some(found) && found@ == reg,
            None => r is None,
        },
{
    let len = constraint.unicode_len();
    if len >= 2 && constraint.get_char(0) == '{' && constraint.get_char(len - 1) == '}' {
        Some(constraint.substring_char(1, len - 1))
    } else {
        None
    }
}

/// A variable of the surrounding code that an instruction block reads,
/// writes or both, with the constraint that places it.
#[derive(Debug)]
pub struct BridgeVar {
    pub name: String,
    pub name_span: Span,
    pub constraint: String,
    pub constraint_span: Span,
}

/// What a bridge variable holds, with its texts as sequences of characters.
pub ghost struct VarView {
    pub name: Seq<char>,
    pub name_span: Span,
    pub constraint: Seq<char>,
    pub constraint_span: Span,
}

impl View for BridgeVar {
    type V = VarView;

    open spec fn view(&self) -> VarView {
        VarView {
            name: self.name@,
            name_span: self.name_span,
            constraint: self.constraint@,
            constraint_span: self.constraint_span,
        }
    }
}

impl DeepView for BridgeVar {
    type V = VarView;

    open spec fn deep_view(&self) -> VarView {
        self@
    }
}

impl Clone for BridgeVar {
    fn clone(&self) -> (r: Self)
        ensures
            r@ == self@,
    {
        BridgeVar {
            name: self.name.clone(),
            name_span: self.name_span,
            constraint: self.constraint.clone(),
            constraint_span: self.constraint_span,
        }
    }
}

impl BridgeVar {
    /// A bridge variable from its parts.
    pub fn new(name: String, name_span: Span, constraint: String, constraint_span: Span) -> (r:
        Self)
        ensures
            r@ == (VarView {
                name: name@,
                name_span,
                constraint: constraint@,
                constraint_span,
            }),
    {
        BridgeVar { name, name_span, constraint, constraint_span }
    }

    /// Two variables collide when they have the same name: one registry never
    /// holds both.
    pub open spec fn collides_with(self, other: Self) -> bool {
        self@.name == other@.name
    }

    /// Whether `self` and `other` have the same name.
    pub fn bad_duplicate_of(&self, other: &Self) -> (r: bool)
        ensures
            r == self.collides_with(*other),
    {
        self.name == other.name
    }

    /// The register this variable is pinned to, if its constraint names one:
    /// for the constraint `{eax}` it is `eax`.
    pub fn explicit_register(&self) -> (r: Option<&str>)
        ensures
            match register_of(self.constraint@) {
                Some(reg) => r matches Some(found) && found@ == reg,
                None => r is None,
            },
    {
        explicit_register_of(self.constraint.as_str())
    }

    /// The constraint as text.
    pub fn constraint_as_str(&self) -> (r: &str)
        ensures
            r@ == self.constraint@,
    {
        self.constraint.as_str()
    }

    /// Where the constraint was written.
    pub fn constraint_span(&self) -> (r: Span)
        ensures
            r == self.constraint_span,
    {
        self.constraint_span
    }
}

/// A register that an instruction block destroys without binding it to a
/// variable. Two clobbers are the same when their text is the same; where
/// they were written does not count.
#[derive(Debug)]
pub struct Clobber {
    pub constraint: String,
    pub span: Span,
}

/// What a clobber holds, with its text as a sequence of characters.
pub ghost struct ClobberView {
    pub constraint: Seq<char>,
    pub span: Span,
}

impl View for Clobber {
    type V = ClobberView;

    open spec fn view(&self) -> ClobberView {
        ClobberView { constraint: self.constraint@, span: self.span }
    }
}

impl DeepView for Clobber {
    type V = ClobberView;

    open spec fn deep_view(&self) -> ClobberView {
        self@
    }
}

impl Clone for Clobber {
    fn clone(&self) -> (r: Self)
        ensures
            r@ == self@,
    {
        Clobber { constraint: self.constraint.clone(), span: self.span }
    }
}

impl Clobber {
    /// A clobber from its parts.
    pub fn new(constraint: String, span: Span) -> (r: Self)
        ensures
            r@ == (ClobberView { constraint: constraint@, span }),
    {
        Clobber { constraint, span }
    }

    /// The constraint as text.
    pub fn constraint_as_str(&self) -> (r: &str)
        ensures
            r@ == self.constraint@,
    {
        self.constraint.as_str()
    }

    /// Where the clobber was written.
    pub fn span(&self) -> (r: Span)
        ensures
            r == self.span,
    {
        self.span
    }

    /// Whether `self` and `other` name the same register.
    pub fn eq(&self, other: &Self) -> (r: bool)
        ensures
            r == (self.constraint@ == other.constraint@),
    {
        self.constraint == other.constraint
    }
}

} // verus!
