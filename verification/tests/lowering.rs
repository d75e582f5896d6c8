use proc_macro2::{Span, TokenStream, TokenTree};
use rusty_asm::block::{ParseError, RustyAsmBlock, RustyAsmPiece};
use rusty_asm::diag::{Diagnostic, Message, Severity};
use rusty_asm::host::{render_from, survey, Hint};
use rusty_asm::operand::{BridgeVar, Clobber};
use rusty_asm::token::{Delimiter, Token};

fn convert(stream: TokenStream) -> Vec<Token> {
    let mut out = Vec::new();
    for tree in stream {
        out.push(match tree {
            TokenTree::Ident(ident) => Token::Ident(ident.to_string(), ident.span()),
            TokenTree::Punct(punct) => Token::Punct(
                punct.as_char(),
                punct.spacing() == proc_macro2::Spacing::Joint,
                punct.span(),
            ),
            TokenTree::Literal(literal) => {
                match syn::parse_str::<syn::LitStr>(&literal.to_string()) {
                    Ok(string) => Token::Str(string.value(), literal.span()),
                    Err(_) => Token::Literal(literal.to_string(), literal.span()),
                }
            }
            TokenTree::Group(group) => {
                let delimiter = match group.delimiter() {
                    proc_macro2::Delimiter::Parenthesis => Delimiter::Parenthesis,
                    proc_macro2::Delimiter::Brace => Delimiter::Brace,
                    proc_macro2::Delimiter::Bracket => Delimiter::Bracket,
                    proc_macro2::Delimiter::None => Delimiter::Invisible,
                };
                Token::Group(delimiter, convert(group.stream()), group.span())
            }
        });
    }
    out
}

fn tokens(source: &str) -> Vec<Token> {
    convert(source.parse::<TokenStream>().unwrap())
}

fn show(tokens: &Vec<Token>) -> String {
    let mut out = String::new();
    render_from(&mut out, tokens, 0);
    out
}

fn lower(source: &str) -> (String, Vec<Diagnostic>) {
    let input = tokens(source);
    let mut sink = Vec::new();
    let block = RustyAsmBlock::parse(&input, &mut sink).unwrap();
    let mut out = Vec::new();
    block.to_tokens(&mut out, Span::call_site(), &mut sink);
    (show(&out), sink)
}

fn warnings(sink: &Vec<Diagnostic>) -> Vec<String> {
    sink.iter()
        .filter(|d| d.severity == Severity::Warning)
        .map(|d| d.message.text())
        .collect()
}

#[test]
fn placeholders_become_operand_positions() {
    let (out, sink) = lower(
        "let dst: out(\"r\"); let src: in(\"r\") = 5; asm { \"mov $dst, $src\" }",
    );
    assert_eq!(
        out,
        "{let dst ; let src = 5 ; asm ! (\"mov $0, $1\" : \"=r\" (dst ) : \"r\" (src ) : : ) ; } "
    );
    assert!(sink.is_empty());
}

#[test]
fn ordinary_code_passes_through() {
    let (out, sink) = lower("let a = b + 1; foo(a, \"x\"); if a > 2 { bar(); } else { baz(); }");
    assert_eq!(
        out,
        "{let a = b + 1 ; foo (a , \"x\" ) ; if a > 2 {bar () ; } else {baz () ; } } "
    );
    assert!(sink.is_empty());
}

#[test]
fn declaration_keeps_mut_type_and_initial_value() {
    let (out, _) = lower("let mut x: u32: inout(\"r\") = 7; asm { \"inc $x\" }");
    assert_eq!(
        out,
        "{let mut x : u32 = 7 ; asm ! (\"inc $0\" : \"=r\" (x ) : \"0\" (x ) : : ) ; } "
    );
}

#[test]
fn clobber_declaration_emits_nothing_and_is_listed() {
    let (out, sink) = lower("clobber(\"memory\"); clobber(\"eax\"); clobber(\"memory\"); asm { \"nop\" }");
    assert_eq!(out, "{asm ! (\"nop\" : : : \"memory\" , \"eax\" : ) ; } ");
    assert!(sink.is_empty());
}

#[test]
fn options_are_emitted_last() {
    let (out, _) = lower("asm(\"volatile\", \"intel\") { \"nop\" }");
    assert_eq!(out, "{asm ! (\"nop\" : : : : \"volatile\" , \"intel\" ) ; } ");
}

#[test]
fn empty_option_list_is_accepted() {
    let (out, _) = lower("asm() { \"nop\" }");
    assert_eq!(out, "{asm ! (\"nop\" : : : : ) ; } ");
}

#[test]
fn block_without_text_emits_nothing() {
    let (out, sink) = lower("let x: in(\"r\"); asm { }");
    assert_eq!(out, "{let x ; } ");
    assert!(sink.is_empty());
}

#[test]
fn escaped_dollar_is_kept() {
    let (out, sink) = lower("let x: out(\"r\"); asm { \"mov $$5, $x $$$x$$\" }");
    assert_eq!(
        out,
        "{let x ; asm ! (\"mov $$5, $0 $$$0$$\" : \"=r\" (x ) : : : ) ; } "
    );
    assert!(sink.is_empty());
}

#[test]
fn unused_variable_is_reported_once() {
    let (out, sink) = lower(
        "let a: out(\"r\"); let b: in(\"r\"); let c: inout(\"r\"); asm { \"mov $a, 1\" }",
    );
    assert_eq!(
        out,
        "{let a ; let b ; let c ; asm ! (\"mov $0, 1\" : \"=r\" (a ) , \"=r\" (c ) : \"r\" (b ) , \"1\" (c ) : : ) ; } "
    );
    let unused: Vec<&Diagnostic> = sink
        .iter()
        .filter(|d| matches!(d.message, Message::UnusedVariable(_)))
        .collect();
    assert_eq!(unused.len(), 2);
    assert!(matches!(&unused[0].message, Message::UnusedVariable(name) if name == "c"));
    assert!(matches!(&unused[1].message, Message::UnusedVariable(name) if name == "b"));
    assert_eq!(sink.len(), 4);
    assert_eq!(sink[0].severity, Severity::Warning);
    assert_eq!(sink[0].message.text(), "bridge variable not used");
    assert_eq!(sink[1].severity, Severity::Help);
    assert_eq!(sink[1].message.text(), "in this `asm` block");
}

#[test]
fn unrecognized_placeholder_is_reported_and_left() {
    let (out, sink) = lower("asm { \"mov $nope, 1\" }");
    assert_eq!(out, "{asm ! (\"mov $nope, 1\" : : : : ) ; } ");
    assert_eq!(sink.len(), 2);
    assert_eq!(
        sink[0].message.text(),
        "unrecognized bridge variable `nope`"
    );
    assert_eq!(sink[0].severity, Severity::Warning);
    assert_eq!(
        sink[1].message.text(),
        "it must be declared in this `rusty_asm` block with `in`, `out`, or `inout`"
    );
    assert_eq!(sink[1].severity, Severity::Help);
}

#[test]
fn dollar_without_identifier_is_reported_and_left() {
    let (out, sink) = lower("asm { \"add $1, $_ $\" }");
    assert_eq!(out, "{asm ! (\"add $1, $_ $\" : : : : ) ; } ");
    assert_eq!(
        warnings(&sink),
        vec![
            "expected an identifier after `$`".to_string(),
            "expected an identifier after `$`".to_string(),
            "expected an identifier after `$`".to_string(),
        ]
    );
    assert_eq!(
        sink[1].message.text(),
        "you can include a literal dollar sign by using `$$`"
    );
}

#[test]
fn nested_scope_inherits_and_discards() {
    let (out, sink) = lower(
        "let a: out(\"r\"); { let b: in(\"r\"); clobber(\"cc\"); asm { \"mov $a, $b\" } } asm { \"mov $a, $b\" }",
    );
    assert_eq!(
        out,
        "{let a ; {let b ; asm ! (\"mov $0, $1\" : \"=r\" (a ) : \"r\" (b ) : \"cc\" : ) ; } asm ! (\"mov $0, $b\" : \"=r\" (a ) : : : ) ; } "
    );
    assert_eq!(
        warnings(&sink),
        vec!["unrecognized bridge variable `b`".to_string()]
    );
}

#[test]
fn malformed_instruction_block_is_ordinary_code() {
    let (out, sink) = lower("asm volatile; asm(1) { \"nop\" } asm { not_a_string } asm");
    assert_eq!(
        out,
        "{asm volatile ; asm (1 ) {\"nop\" } asm {not_a_string } asm } "
    );
    assert!(sink.is_empty());
}

#[test]
fn malformed_declarations_are_ordinary_code() {
    let (out, _) = lower("let x: in(r); let y: sideways(\"r\"); clobber(\"a\", \"b\"); clobber; let let: in(\"r\");");
    assert_eq!(
        out,
        "{let x : in (r ) ; let y : sideways (\"r\" ) ; clobber (\"a\" , \"b\" ) ; clobber ; let let : in (\"r\" ) ; } "
    );
}

#[test]
fn conditional_header_is_passed_through_unread() {
    let (out, _) = lower("while let x: in(\"r\"); { } if asm { \"nop\" }");
    assert_eq!(
        out,
        "{while let x : in (\"r\" ) ; {} if asm {\"nop\" } } "
    );
}

#[test]
fn conditional_header_without_block_fails() {
    let input = tokens("let a = 1; if a > 1");
    let mut sink = Vec::new();
    let result = RustyAsmBlock::parse(&input, &mut sink);
    assert!(matches!(result, Err(ParseError::UnexpectedEnd(_))));
    let input = tokens("{ { while true } }");
    assert!(matches!(
        RustyAsmBlock::parse(&input, &mut sink),
        Err(ParseError::UnexpectedEnd(_))
    ));
}

#[test]
fn piece_behind_the_end_fails() {
    let input = tokens("a b");
    let mut outs = Vec::new();
    let mut ins = Vec::new();
    let mut clobbers = Vec::new();
    let mut sink = Vec::new();
    let hints = survey(&input);
    let result =
        RustyAsmPiece::parse(&input, &hints, 2, &mut outs, &mut ins, &mut clobbers, &mut sink);
    assert!(matches!(result, Err(ParseError::EndOfInput)));
    let result =
        RustyAsmPiece::parse(&input, &hints, 1, &mut outs, &mut ins, &mut clobbers, &mut sink);
    assert!(matches!(result, Ok((RustyAsmPiece::TokenTrees(_), 2))));
}

#[test]
fn clobber_of_output_register_is_dropped() {
    let (out, sink) = lower("let x: out(\"{eax}\"); clobber(\"eax\"); clobber(\"ebx\"); asm { \"mov $x, 1\" }");
    assert_eq!(
        out,
        "{let x ; asm ! (\"mov $0, 1\" : \"={eax}\" (x ) : : \"ebx\" : ) ; } "
    );
    assert_eq!(sink.len(), 2);
    assert_eq!(
        sink[0].message.text(),
        "clobber points to same register as an output; ignoring clobber"
    );
    assert_eq!(sink[1].message.text(), "output declared here");
}

#[test]
fn clobber_of_input_register_makes_the_input_an_output_too() {
    let (out, sink) = lower("let x: in(\"{ebx}\"); clobber(\"{ebx}\"); asm { \"mov $x, 1\" }");
    assert_eq!(
        out,
        "{let x ; asm ! (\"mov $0, 1\" : \"={ebx}\" (x ) : \"0\" (x ) : : ) ; } "
    );
    assert!(sink.is_empty());
}

#[test]
fn string_literal_escapes_are_resolved_and_written_again() {
    let (out, _) = lower("let x: in(\"a\\\"b\"); asm { \"line\\n$x\" }");
    assert_eq!(
        out,
        "{let x ; asm ! (\"line\\n$0\" : : \"a\\\"b\" (x ) : : ) ; } "
    );
    let (out, _) = lower("let x: in(r\"raw\"); asm { r#\"$x\"# }");
    assert_eq!(out, "{let x ; asm ! (\"$0\" : : \"raw\" (x ) : : ) ; } ");
}

fn names(vars: &Vec<BridgeVar>) -> Vec<String> {
    vars.iter().map(|v| v.name.clone()).collect()
}

#[test]
fn failed_piece_leaves_the_registries_alone() {
    let site = Span::call_site();
    let mut outs = vec![BridgeVar::new("o".to_string(), site, "={eax}".to_string(), site)];
    let mut ins = vec![BridgeVar::new("i".to_string(), site, "r".to_string(), site)];
    let mut clobbers = vec![
        Clobber::new("eax".to_string(), site),
        Clobber::new("cc".to_string(), site),
    ];
    let mut sink = Vec::new();

    let input = tokens("if x");
    let hints = survey(&input);
    let result =
        RustyAsmPiece::parse(&input, &hints, 0, &mut outs, &mut ins, &mut clobbers, &mut sink);
    assert!(matches!(result, Err(ParseError::UnexpectedEnd(_))));
    assert_eq!(names(&outs), vec!["o"]);
    assert_eq!(names(&ins), vec!["i"]);
    assert_eq!(clobbers.len(), 2);
    assert!(sink.is_empty());

    // The nested block reports a dropped clobber and then fails: the report stays.
    let input = tokens("{ let y: in(\"r\"); clobber(\"memory\"); asm { \"nop\" } while y }");
    let hints = survey(&input);
    let result =
        RustyAsmPiece::parse(&input, &hints, 0, &mut outs, &mut ins, &mut clobbers, &mut sink);
    assert!(matches!(result, Err(ParseError::UnexpectedEnd(_))));
    assert_eq!(names(&outs), vec!["o"]);
    assert_eq!(names(&ins), vec!["i"]);
    assert_eq!(clobbers.len(), 2);
    assert_eq!(sink.len(), 2);
    assert_eq!(
        sink[0].message.text(),
        "clobber points to same register as an output; ignoring clobber"
    );
}

#[test]
fn block_is_read_with_the_hints_it_is_given() {
    let input = tokens("let x: u32: in(\"r\") = 1 + 2; asm { \"mov $x, 1\" }");
    // Without hints no type and no expression is seen: the statement is ordinary code.
    let none: Vec<Hint> = Vec::new();
    let mut sink = Vec::new();
    let block = RustyAsmBlock::parse_with(&input, &none, &mut sink).unwrap();
    let mut out = Vec::new();
    block.to_tokens(&mut out, Span::call_site(), &mut sink);
    assert_eq!(
        show(&out),
        "{let x : u32 : in (\"r\" ) = 1 + 2 ; asm ! (\"mov $x, 1\" : : : : ) ; } "
    );
    // With the hints of the survey the declaration is read.
    let hints = survey(&input);
    assert_eq!(hints.len(), input.len());
    assert_eq!(hints[3].type_end, Some(4));
    assert_eq!(hints[8].expr_end, Some(11));
    let mut sink = Vec::new();
    let block = RustyAsmBlock::parse_with(&input, &hints, &mut sink).unwrap();
    let mut out = Vec::new();
    block.to_tokens(&mut out, Span::call_site(), &mut sink);
    assert_eq!(
        show(&out),
        "{let x : u32 = 1 + 2 ; asm ! (\"mov $0, 1\" : : \"r\" (x ) : : ) ; } "
    );
    // A hint that points outside the tokens counts as none.
    let mut wrong = survey(&input);
    wrong[3].type_end = Some(100);
    let mut sink = Vec::new();
    let block = RustyAsmBlock::parse_with(&input, &wrong, &mut sink).unwrap();
    assert!(matches!(block.contents[0], RustyAsmPiece::TokenTrees(_)));
}
