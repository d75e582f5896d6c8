//! Declarations: what a bridge variable declaration and a clobber
//! declaration hold, and what each does to the registries of its scope.

use crate::operand::BridgeVar;
use crate::operand::Clobber;
use crate::operand::ClobberView;
use crate::operand::VarView;
use crate::registry::position;
use crate::registry::push_var;
use crate::registry::pushed;
use crate::registry::swap_remove_var;
use crate::registry::unlinked;
use crate::text::decimal;
use crate::text::decimal_string;
use crate::token::Token;
use crate::token::TokenView;
use proc_macro2::Span;
use vstd::prelude::*;
use vstd::string::*;

verus! {

/// The direction of a bridge variable.
#[derive(Clone, Copy, Debug, PartialEq, Eq, Structural)]
pub enum ConstraintKeyword {
    In,
    Out,
    InOut,
}

/// A declaration of a bridge variable:
/// `let [mut] NAME [: TYPE] : DIRECTION ("CONSTRAINT") [= EXPR] ;`
#[derive(Debug)]
pub struct BridgeVarDecl {
    pub let_keyword: Token,
    pub mut_keyword: Option<Token>,
    pub ident: String,
    pub ident_span: Span,
    /// The colon before the type, and the tokens of the type.
    pub explicit_type: Option<(Token, Vec<Token>)>,
    pub constraint_keyword: ConstraintKeyword,
    pub constraint_string: String,
    pub constraint_span: Span,
    /// The equals sign, and the tokens of the initial value.
    pub assignment: Option<(Token, Vec<Token>)>,
    pub semicolon: Token,
}

/// What a declaration of a bridge variable holds, in views.
pub ghost struct DeclView {
    pub let_keyword: TokenView,
    pub mut_keyword: Option<TokenView>,
    pub ident: Seq<char>,
    pub ident_span: Span,
    pub explicit_type: Option<(TokenView, Seq<TokenView>)>,
    pub constraint_keyword: ConstraintKeyword,
    pub constraint_string: Seq<char>,
    pub constraint_span: Span,
    pub assignment: Option<(TokenView, Seq<TokenView>)>,
    pub semicolon: TokenView,
}

impl View for BridgeVarDecl {
    type V = DeclView;

    open spec fn view(&self) -> DeclView {
        DeclView {
            let_keyword: self.let_keyword@,
            mut_keyword: match self.mut_keyword {
                Some(token) => Some(token@),
                None => None,
            },
            ident: self.ident@,
            ident_span: self.ident_span,
            explicit_type: match self.explicit_type {
                Some((colon, tokens)) => Some((colon@, tokens.deep_view())),
                None => None,
            },
            constraint_keyword: self.constraint_keyword,
            constraint_string: self.constraint_string@,
            constraint_span: self.constraint_span,
            assignment: match self.assignment {
                Some((equals, tokens)) => Some((equals@, tokens.deep_view())),
                None => None,
            },
            semicolon: self.semicolon@,
        }
    }
}

impl DeclView {
    /// What the declaration binds.
    pub open spec fn binding(self) -> Binding {
        Binding {
            name: self.ident,
            name_span: self.ident_span,
            direction: self.constraint_keyword,
            constraint: self.constraint_string,
            constraint_span: self.constraint_span,
        }
    }
}

/// What a declaration binds: the variable, its direction and its constraint.
pub ghost struct Binding {
    pub name: Seq<char>,
    pub name_span: Span,
    pub direction: ConstraintKeyword,
    pub constraint: Seq<char>,
    pub constraint_span: Span,
}

impl Binding {
    /// The variable with the constraint as it was written.
    pub open spec fn input(self) -> VarView {
        VarView {
            name: self.name,
            name_span: self.name_span,
            constraint: self.constraint,
            constraint_span: self.constraint_span,
        }
    }

    /// The variable with the constraint marked as an output's.
    pub open spec fn output(self) -> VarView {
        VarView {
            name: self.name,
            name_span: self.name_span,
            constraint: "="@ + self.constraint,
            constraint_span: self.constraint_span,
        }
    }

    /// The variable as an input tied to the output at `index`.
    pub open spec fn link(self, index: int) -> VarView {
        VarView {
            name: self.name,
            name_span: self.name_span,
            constraint: decimal(index as nat),
            constraint_span: self.constraint_span,
        }
    }
}

/// Where an output called `name` stands once it is put into `outs`: where one
/// of that name stands already, or at the end.
pub open spec fn slot(outs: Seq<VarView>, name: Seq<char>) -> int {
    match position(outs, name) {
        Some(i) => i,
        None => outs.len() as int,
    }
}

/// The outputs of a scope after the declaration `b`.
pub open spec fn outputs_after(outs: Seq<VarView>, b: Binding) -> Seq<VarView> {
    match b.direction {
        ConstraintKeyword::In => outs,
        ConstraintKeyword::Out => pushed(outs, b.output()),
        ConstraintKeyword::InOut => pushed(outs, b.output()),
    }
}

/// The inputs of a scope after the declaration `b`, where `outs` are the
/// outputs before it. An input goes in as written. An output that takes the
/// place of an earlier one drops the input that was tied to that place. A
/// variable of both directions goes in as an input tied to its output.
pub open spec fn inputs_after(outs: Seq<VarView>, ins: Seq<VarView>, b: Binding) -> Seq<VarView> {
    match b.direction {
        ConstraintKeyword::In => pushed(ins, b.input()),
        ConstraintKeyword::Out => match position(outs, b.name) {
            Some(i) => unlinked(ins, b.name, decimal(i as nat)),
            None => ins,
        },
        ConstraintKeyword::InOut => pushed(ins, b.link(slot(outs, b.name))),
    }
}

impl BridgeVarDecl {
    /// What the declaration binds.
    pub open spec fn binding(self) -> Binding {
        self@.binding()
    }

    fn var_with(&self, constraint: String) -> (r: BridgeVar)
        ensures
            r@ == (VarView {
                name: self.ident@,
                name_span: self.ident_span,
                constraint: constraint@,
                constraint_span: self.constraint_span,
            }),
    {
        BridgeVar::new(self.ident.clone(), self.ident_span, constraint, self.constraint_span)
    }

    /// Enters the declared variable into the registries of its scope.
    pub fn push_bridge_var(
        &self,
        bridge_vars_out: &mut Vec<BridgeVar>,
        bridge_vars_in: &mut Vec<BridgeVar>,
    )
        ensures
            final(bridge_vars_out).deep_view() == outputs_after(
                old(bridge_vars_out).deep_view(),
                self.binding(),
            ),
            final(bridge_vars_in).deep_view() == inputs_after(
                old(bridge_vars_out).deep_view(),
                old(bridge_vars_in).deep_view(),
                self.binding(),
            ),
    {
        match self.constraint_keyword {
            ConstraintKeyword::In => {
                let _ = push_var(bridge_vars_in, self.var_with(self.constraint_string.clone()));
            },
            ConstraintKeyword::Out => {
                let marked = String::from_str("=").concat(self.constraint_string.as_str());
                let duplicate_index = push_var(bridge_vars_out, self.var_with(marked));
                if let Some(index) = duplicate_index {
                    let stale = self.var_with(decimal_string(index as u128));
                    swap_remove_var(bridge_vars_in, &stale);
                }
            },
            ConstraintKeyword::InOut => {
                let mut index = bridge_vars_out.len();
                let marked = String::from_str("=").concat(self.constraint_string.as_str());
                if let Some(found) = push_var(bridge_vars_out, self.var_with(marked)) {
                    index = found;
                }
                let _ = push_var(bridge_vars_in, self.var_with(decimal_string(index as u128)));
            },
        }
    }
}

/// A declaration of a clobber: `clobber ("CONSTRAINT") ;`
#[derive(Debug)]
pub struct ClobberDecl {
    pub constraint_string: String,
    pub span: Span,
}

impl View for ClobberDecl {
    type V = ClobberView;

    open spec fn view(&self) -> ClobberView {
        ClobberView { constraint: self.constraint_string@, span: self.span }
    }
}

/// Whether one of `clobbers` has the text `constraint`.
pub open spec fn has_clobber(clobbers: Seq<ClobberView>, constraint: Seq<char>) -> bool {
    exists|k: int| 0 <= k < clobbers.len() && (#[trigger] clobbers[k]).constraint == constraint
}

/// No two of `clobbers` have the same text.
pub open spec fn distinct_clobbers(clobbers: Seq<ClobberView>) -> bool {
    forall|i: int, j: int|
        0 <= i < j < clobbers.len() ==> (#[trigger] clobbers[i]).constraint != (
        #[trigger] clobbers[j]).constraint
}

/// The clobbers of a scope after `clobber` was declared: a clobber whose text
/// is there already changes nothing.
pub open spec fn clobbers_after(clobbers: Seq<ClobberView>, clobber: ClobberView) -> Seq<
    ClobberView,
> {
    if has_clobber(clobbers, clobber.constraint) {
        clobbers
    } else {
        clobbers.push(clobber)
    }
}

impl ClobberDecl {
    /// Enters the declared clobber into the clobbers of its scope. The
    /// clobbers are a set by their text; they are kept in the order in which
    /// they were first declared, which is the order they are written out in.
    pub fn push_clobber(&self, clobbers: &mut Vec<Clobber>)
        ensures
            final(clobbers).deep_view() == clobbers_after(old(clobbers).deep_view(), self@),
    {
        let mut k: usize = 0;
        while k < clobbers.len()
            invariant
                k <= clobbers.len(),
                clobbers.deep_view() == old(clobbers).deep_view(),
                forall|j: int|
                    0 <= j < k ==> (#[trigger] clobbers.deep_view()[j]).constraint
                        != self.constraint_string@,
            decreases clobbers.len() - k,
        {
            if clobbers[k].constraint == self.constraint_string {
                assert(clobbers.deep_view()[k as int].constraint == self.constraint_string@);
                return ;
            }
            k = k + 1;
        }
        clobbers.push(Clobber::new(self.constraint_string.clone(), self.span));
        assert(clobbers.deep_view() =~= old(clobbers).deep_view().push(self@));
    }
}

} // verus!
