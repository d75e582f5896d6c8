//! Advisory diagnostics. They are collected beside the result and never
//! change it.

use proc_macro2::Span;
use vstd::prelude::*;
use vstd::string::*;

verus! {

/// A region of the source text, as `proc_macro2` hands it out. The library
/// carries such values along and never looks inside one.
#[verifier::external_type_specification]
#[verifier::external_body]
pub struct ExSpan(proc_macro2::Span);

/// How a diagnostic is to be shown.
#[derive(Clone, Copy, Debug, PartialEq, Eq, Structural)]
pub enum Severity {
    Warning,
    Help,
}

/// What a diagnostic says.
#[derive(Debug)]
pub enum Message {
    /// A placeholder names a variable that no declaration in scope binds.
    UnrecognizedVariable(String),
    /// A `$` is followed by something that is no identifier, or by nothing.
    ExpectedIdentifier,
    /// A bridge variable in scope is not referred to by the instruction text.
    UnusedVariable(String),
    /// A clobber names the register of an output and is dropped.
    ClobberSharesOutput,
    /// Note: how to write a literal dollar sign.
    LiteralDollar,
    /// Note: how a bridge variable is declared.
    DeclareVariable,
    /// Note: points at the instruction block concerned.
    InThisBlock,
    /// Note: points at the declaration of the output concerned.
    OutputDeclaredHere,
}

/// One diagnostic: severity, message and the place it points at.
#[derive(Debug)]
pub struct Diagnostic {
    pub severity: Severity,
    pub message: Message,
    pub location: Span,
}

/// What a message says, with a variable's name as a sequence of characters.
pub ghost enum MessageView {
    UnrecognizedVariable(Seq<char>),
    ExpectedIdentifier,
    UnusedVariable(Seq<char>),
    ClobberSharesOutput,
    LiteralDollar,
    DeclareVariable,
    InThisBlock,
    OutputDeclaredHere,
}

/// What a diagnostic holds.
pub ghost struct DiagnosticView {
    pub severity: Severity,
    pub message: MessageView,
    pub location: Span,
}

impl View for Message {
    type V = MessageView;

    open spec fn view(&self) -> MessageView {
        match self {
            Message::UnrecognizedVariable(name) => MessageView::UnrecognizedVariable(name@),
            Message::ExpectedIdentifier => MessageView::ExpectedIdentifier,
            Message::UnusedVariable(name) => MessageView::UnusedVariable(name@),
            Message::ClobberSharesOutput => MessageView::ClobberSharesOutput,
            Message::LiteralDollar => MessageView::LiteralDollar,
            Message::DeclareVariable => MessageView::DeclareVariable,
            Message::InThisBlock => MessageView::InThisBlock,
            Message::OutputDeclaredHere => MessageView::OutputDeclaredHere,
        }
    }
}

impl View for Diagnostic {
    type V = DiagnosticView;

    open spec fn view(&self) -> DiagnosticView {
        DiagnosticView {
            severity: self.severity,
            message: self.message@,
            location: self.location,
        }
    }
}

impl DeepView for Diagnostic {
    type V = DiagnosticView;

    open spec fn deep_view(&self) -> DiagnosticView {
        self@
    }
}

impl MessageView {
    /// The wording of the message.
    pub open spec fn wording(self) -> Seq<char> {
        match self {
            MessageView::UnrecognizedVariable(name) => "unrecognized bridge variable `"@ + name
                + "`"@,
            MessageView::ExpectedIdentifier => "expected an identifier after `$`"@,
            MessageView::UnusedVariable(_) => "bridge variable not used"@,
            MessageView::ClobberSharesOutput =>
                "clobber points to same register as an output; ignoring clobber"@,
            MessageView::LiteralDollar => "you can include a literal dollar sign by using `$$`"@,
            MessageView::DeclareVariable =>
                "it must be declared in this `rusty_asm` block with `in`, `out`, or `inout`"@,
            MessageView::InThisBlock => "in this `asm` block"@,
            MessageView::OutputDeclaredHere => "output declared here"@,
        }
    }
}

impl Message {
    /// The wording of the message, as a string.
    pub fn text(&self) -> (s: String)
        ensures
            s@ == self@.wording(),
    {
        match self {
            Message::UnrecognizedVariable(name) => {
                let s = String::from_str("unrecognized bridge variable `");
                let s = s.concat(name.as_str());
                s.concat("`")
            },
            Message::ExpectedIdentifier => String::from_str("expected an identifier after `$`"),
            Message::UnusedVariable(_) => String::from_str("bridge variable not used"),
            Message::ClobberSharesOutput => String::from_str(
                "clobber points to same register as an output; ignoring clobber",
            ),
            Message::LiteralDollar => String::from_str(
                "you can include a literal dollar sign by using `$$`",
            ),
            Message::DeclareVariable => String::from_str(
                "it must be declared in this `rusty_asm` block with `in`, `out`, or `inout`",
            ),
            Message::InThisBlock => String::from_str("in this `asm` block"),
            Message::OutputDeclaredHere => String::from_str("output declared here"),
        }
    }
}

/// A warning with the given message and place.
pub open spec fn warning(message: MessageView, location: Span) -> DiagnosticView {
    DiagnosticView { severity: Severity::Warning, message, location }
}

/// A note with the given message and place.
pub open spec fn note(message: MessageView, location: Span) -> DiagnosticView {
    DiagnosticView { severity: Severity::Help, message, location }
}

/// Appends a warning to `sink`.
pub fn warn(sink: &mut Vec<Diagnostic>, location: Span, message: Message)
    ensures
        final(sink).deep_view() == old(sink).deep_view().push(warning(message@, location)),
{
    sink.push(Diagnostic { severity: Severity::Warning, message, location });
    assert(sink.deep_view() =~= old(sink).deep_view().push(warning(message@, location)));
}

/// Appends a note to `sink`.
pub fn help(sink: &mut Vec<Diagnostic>, location: Span, message: Message)
    ensures
        final(sink).deep_view() == old(sink).deep_view().push(note(message@, location)),
{
    sink.push(Diagnostic { severity: Severity::Help, message, location });
    assert(sink.deep_view() =~= old(sink).deep_view().push(note(message@, location)));
}

} // verus!
