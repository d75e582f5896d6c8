use proc_macro2::{Span, TokenStream, TokenTree};
use rusty_asm::decl::{BridgeVarDecl, ClobberDecl, ConstraintKeyword};
use rusty_asm::grammar::{
    direction_keyword_at, identifier_name_at, parenthesized_string_at, parse_options, punct_at,
    string_literal_at, word_at,
};
use rusty_asm::host::{
    ask_expr, ask_type, expr_end_at, push_quoted, render_from, survey, type_end_at, Hint,
};
use rusty_asm::words::is_reserved;
use rusty_asm::instruction::AsmBlock;
use rusty_asm::token::{clone_range, Delimiter, Token};

fn convert(stream: TokenStream) -> Vec<Token> {
    let mut out = Vec::new();
    for tree in stream {
        out.push(match tree {
            TokenTree::Ident(ident) => Token::Ident(ident.to_string(), ident.span()),
            TokenTree::Punct(punct) => Token::Punct(
                punct.as_char(),
                punct.spacing() == proc_macro2::Spacing::Joint,
                punct.span(),
            ),
            TokenTree::Literal(literal) => {
                match syn::parse_str::<syn::LitStr>(&literal.to_string()) {
                    Ok(string) => Token::Str(string.value(), literal.span()),
                    Err(_) => Token::Literal(literal.to_string(), literal.span()),
                }
            }
            TokenTree::Group(group) => {
                let delimiter = match group.delimiter() {
                    proc_macro2::Delimiter::Parenthesis => Delimiter::Parenthesis,
                    proc_macro2::Delimiter::Brace => Delimiter::Brace,
                    proc_macro2::Delimiter::Bracket => Delimiter::Bracket,
                    proc_macro2::Delimiter::None => Delimiter::Invisible,
                };
                Token::Group(delimiter, convert(group.stream()), group.span())
            }
        });
    }
    out
}

fn lex(source: &str) -> Vec<Token> {
    convert(source.parse::<TokenStream>().unwrap())
}

fn written(tokens: &Vec<Token>) -> String {
    let mut out = String::new();
    render_from(&mut out, tokens, 0);
    out
}

#[test]
fn rendering_writes_every_token_with_a_blank() {
    let tokens = lex("a::b<'c>(1, \"x\")[y]{ z += 2; }");
    assert_eq!(
        written(&tokens),
        "a :: b <'c > (1 , \"x\" ) [y ] {z += 2 ; } "
    );
    let mut tail = String::from(">");
    render_from(&mut tail, &tokens, 10);
    assert_eq!(tail, ">{z += 2 ; } ");
    let hidden = vec![Token::Group(
        Delimiter::Invisible,
        lex("1 + 2"),
        Span::call_site(),
    )];
    assert_eq!(written(&hidden), "(1 + 2 ) ");
    assert_eq!(written(&clone_range(&tokens, 1, 4)), ":: b ");
}

#[test]
fn string_literals_are_written_in_quotes() {
    let mut out = String::from("x");
    push_quoted(&mut out, "a\"b\\c\nd\re\tf\0g é");
    assert_eq!(out, "x\"a\\\"b\\\\c\\nd\\re\\tf\\0g é\"");
    let mut out = String::new();
    push_quoted(&mut out, "");
    assert_eq!(out, "\"\"");
    let tokens = vec![Token::Str("a \"b\"".to_string(), Span::call_site())];
    assert_eq!(written(&tokens), "\"a \\\"b\\\"\" ");
    assert_eq!(written(&lex(&written(&tokens))), written(&tokens));
}

#[test]
fn host_type_is_read_up_to_the_colon_behind_it() {
    let tokens = lex("Vec<u8>: in(\"r\")");
    assert_eq!(ask_type(&tokens, 0), Some(4));
    let tokens = lex("x: &'a mut [u32; 4]: out(\"r\") = y::z");
    assert_eq!(ask_type(&tokens, 2), Some(7));
    assert_eq!(ask_type(&tokens, 1), None);
    assert_eq!(ask_type(&tokens, 7), None);
    assert_eq!(ask_type(&tokens, 8), None);
    assert_eq!(ask_type(&tokens, 100), None);
    let tokens = lex("std::vec::Vec<u8>: in(\"r\")");
    assert_eq!(ask_type(&tokens, 0), Some(10));
    let tokens = lex("x: u32 = y");
    assert_eq!(ask_type(&tokens, 2), None);
    let tokens = lex("in(\"r\"): u8");
    assert_eq!(ask_type(&tokens, 0), None);
    let tokens = lex("out(\"r\") = a::b;");
    assert_eq!(ask_type(&tokens, 0), None);
    let tokens = lex("x: extern \"C\" fn(u8): y");
    assert_eq!(ask_type(&tokens, 2), Some(6));
}

#[test]
fn host_expression_is_read_up_to_the_semicolon_behind_it() {
    let tokens = lex("= a + b * 2; rest;");
    assert_eq!(ask_expr(&tokens, 1), Some(6));
    assert_eq!(ask_expr(&tokens, 0), None);
    assert_eq!(ask_expr(&tokens, 6), None);
    assert_eq!(ask_expr(&tokens, 7), Some(8));
    assert_eq!(ask_expr(&tokens, 100), None);
    let tokens = lex("foo(1, 2).bar ; x");
    assert_eq!(ask_expr(&tokens, 0), Some(4));
    assert_eq!(ask_expr(&tokens, 5), None);
    let tokens = lex("= concat(\"a\\\"b\", 'c', b\"d\") ; x");
    assert_eq!(ask_expr(&tokens, 1), Some(3));
    let tokens = lex("= ; 1 ;");
    assert_eq!(ask_expr(&tokens, 1), None);
}

#[test]
fn survey_asks_behind_colons_and_equals_signs() {
    let tokens = lex("let x: u32: y = 5; { z: u8: w } (v: u8: w)");
    let hints = survey(&tokens);
    assert_eq!(hints.len(), tokens.len());
    let types: Vec<Option<usize>> = hints.iter().map(|h| h.type_end).collect();
    let exprs: Vec<Option<usize>> = hints.iter().map(|h| h.expr_end).collect();
    assert_eq!(
        types,
        vec![None, None, None, Some(4), None, None, None, None, None, None, None]
    );
    assert_eq!(
        exprs,
        vec![None, None, None, None, None, None, None, Some(8), None, None, None]
    );
    assert_eq!(hints[9].inner.len(), 5);
    assert_eq!(hints[9].inner[2].type_end, Some(3));
    assert!(hints[10].inner.is_empty());
    assert_eq!(type_end_at(&tokens, &hints, 3), Some(4));
    assert_eq!(type_end_at(&tokens, &hints, 4), None);
    assert_eq!(type_end_at(&tokens, &hints, 100), None);
    assert_eq!(expr_end_at(&tokens, &hints, 7), Some(8));
    assert_eq!(expr_end_at(&tokens, &hints, 3), None);
    let wrong = vec![
        Hint { type_end: Some(0), expr_end: Some(12), inner: Vec::new() },
        Hint { type_end: Some(0), expr_end: Some(11), inner: Vec::new() },
    ];
    assert_eq!(type_end_at(&tokens, &wrong, 0), Some(0));
    assert_eq!(type_end_at(&tokens, &wrong, 1), None);
    assert_eq!(expr_end_at(&tokens, &wrong, 0), None);
    assert_eq!(expr_end_at(&tokens, &wrong, 1), Some(11));
}

#[test]
fn reserved_words_name_no_variable() {
    for word in [
        "_", "abstract", "as", "async", "await", "become", "box", "break", "const", "continue",
        "crate", "do", "dyn", "else", "enum", "extern", "false", "final", "fn", "for", "if",
        "impl", "in", "let", "loop", "macro", "match", "mod", "move", "mut", "override", "priv",
        "pub", "ref", "return", "Self", "self", "static", "struct", "super", "trait", "true",
        "try", "type", "typeof", "unsafe", "unsized", "use", "virtual", "where", "while", "yield",
    ] {
        assert!(is_reserved(word), "{}", word);
        assert!(syn::parse_str::<syn::Ident>(word).is_err(), "{}", word);
    }
    for word in ["x", "out", "inout", "clobber", "asm", "r#in", "__", "_x", "union", "selfish", ""] {
        assert!(!is_reserved(word), "{}", word);
    }
}

#[test]
fn token_questions() {
    let tokens = lex("let mut : \"s\" 5 (\"t\") (\"u\" 1) out r#in _");
    assert!(word_at(&tokens, 0, "let"));
    assert!(!word_at(&tokens, 0, "le"));
    assert!(!word_at(&tokens, 2, ":"));
    assert!(!word_at(&tokens, 50, "let"));
    assert!(punct_at(&tokens, 2, ':'));
    assert!(!punct_at(&tokens, 2, ';'));
    assert!(!punct_at(&tokens, 1, ':'));
    assert_eq!(
        string_literal_at(&tokens, 3).map(|(value, _)| value),
        Some("s".to_string())
    );
    assert!(string_literal_at(&tokens, 4).is_none());
    assert!(string_literal_at(&tokens, 0).is_none());
    assert_eq!(
        parenthesized_string_at(&tokens, 5).map(|(value, _)| value),
        Some("t".to_string())
    );
    assert!(parenthesized_string_at(&tokens, 6).is_none());
    assert!(parenthesized_string_at(&tokens, 3).is_none());
    assert_eq!(direction_keyword_at(&tokens, 7), Some(ConstraintKeyword::Out));
    assert_eq!(direction_keyword_at(&tokens, 0), None);
    assert_eq!(
        identifier_name_at(&tokens, 7).map(|(name, _)| name),
        Some("out".to_string())
    );
    assert!(identifier_name_at(&tokens, 0).is_none());
    assert!(identifier_name_at(&tokens, 1).is_none());
    assert_eq!(
        identifier_name_at(&tokens, 8).map(|(name, _)| name),
        Some("r#in".to_string())
    );
    assert!(identifier_name_at(&tokens, 9).is_none());
    assert!(identifier_name_at(&tokens, 2).is_none());
}

#[test]
fn string_literals_that_are_not_strings() {
    let tokens = lex("b\"bytes\" 'c' 1.5 \"ok\\t\" r#\"raw \"x\"\"#");
    assert!(string_literal_at(&tokens, 0).is_none());
    assert!(string_literal_at(&tokens, 1).is_none());
    assert!(string_literal_at(&tokens, 2).is_none());
    assert_eq!(
        string_literal_at(&tokens, 3).map(|(value, _)| value),
        Some("ok\t".to_string())
    );
    assert_eq!(
        string_literal_at(&tokens, 4).map(|(value, _)| value),
        Some("raw \"x\"".to_string())
    );
}

#[test]
fn bridge_variable_declaration_in_all_its_forms() {
    let tokens = lex("let x: in(\"r\"); rest");
    let (decl, end) = BridgeVarDecl::parse(&tokens, &survey(&tokens), 0).unwrap();
    assert_eq!(end, 6);
    assert_eq!(decl.ident, "x");
    assert_eq!(decl.constraint_keyword, ConstraintKeyword::In);
    assert_eq!(decl.constraint_string, "r");
    assert!(decl.mut_keyword.is_none());
    assert!(decl.explicit_type.is_none());
    assert!(decl.assignment.is_none());

    let tokens = lex("a; let mut y: Option<u8>: inout(\"{eax}\") = Some(1 + 2);");
    assert!(BridgeVarDecl::parse(&tokens, &survey(&tokens), 0).is_none());
    let (decl, end) = BridgeVarDecl::parse(&tokens, &survey(&tokens), 2).unwrap();
    assert_eq!(end, tokens.len());
    assert_eq!(decl.ident, "y");
    assert_eq!(decl.constraint_keyword, ConstraintKeyword::InOut);
    assert_eq!(decl.constraint_string, "{eax}");
    assert!(decl.mut_keyword.is_some());
    let (_, ty) = decl.explicit_type.as_ref().unwrap();
    assert_eq!(written(ty), "Option < u8 >");
    let (_, init) = decl.assignment.as_ref().unwrap();
    assert_eq!(written(init), "Some (1 + 2 ) ");
    let mut out = Vec::new();
    decl.to_tokens(&mut out);
    assert_eq!(written(&out), "let mut y : Option < u8 > = Some (1 + 2 ) ; ");

    let tokens = lex("let z: out(\"=m\") = 0;");
    let (decl, _) = BridgeVarDecl::parse(&tokens, &survey(&tokens), 0).unwrap();
    assert_eq!(decl.constraint_keyword, ConstraintKeyword::Out);
    assert!(decl.explicit_type.is_none());
}

#[test]
fn bridge_variable_declaration_that_is_none() {
    for source in [
        "let x = 5;",
        "let x: u32 = 5;",
        "let x: in(\"r\")",
        "let x: in(\"r\") = ;",
        "let x: in(\"r\", \"s\");",
        "let x: in();",
        "let x: in(5);",
        "let x: in[\"r\"];",
        "let x: into(\"r\");",
        "let x in(\"r\");",
        "let self: in(\"r\");",
        "let _: in(\"r\");",
        "let (a, b): in(\"r\");",
        "let mut mut x: in(\"r\");",
        "mut x: in(\"r\");",
        "let x: u32 in(\"r\");",
        "",
    ] {
        let tokens = lex(source);
        assert!(
            BridgeVarDecl::parse(&tokens, &survey(&tokens), 0).is_none(),
            "{}",
            source
        );
    }
}

#[test]
fn clobber_declaration() {
    let tokens = lex("x clobber(\"memory\"); y");
    let (decl, end) = ClobberDecl::parse(&tokens, 1).unwrap();
    assert_eq!(end, 4);
    assert_eq!(decl.constraint_string, "memory");
    let mut out = vec![Token::Ident("kept".to_string(), Span::call_site())];
    decl.to_tokens(&mut out);
    assert_eq!(out.len(), 1);
    assert!(ClobberDecl::parse(&tokens, 0).is_none());
    for source in [
        "clobber(\"memory\")",
        "clobber \"memory\";",
        "clobber(memory);",
        "clobber();",
        "clobber{\"memory\"};",
        "clobbers(\"memory\");",
    ] {
        assert!(ClobberDecl::parse(&lex(source), 0).is_none(), "{}", source);
    }
}

#[test]
fn instruction_block_grammar() {
    let tokens = lex("asm(\"volatile\", \"alignstack\") { \"nop\" } rest");
    let (block, end) =
        AsmBlock::parse(&tokens, 0, Vec::new(), Vec::new(), Vec::new()).unwrap();
    assert_eq!(end, 3);
    assert_eq!(written(&block.options), "\"volatile\" \"alignstack\" ");
    assert_eq!(block.asm_unchanged.as_ref().map(|(t, _)| t.as_str()), Some("nop"));

    let tokens = lex("asm { }");
    let (block, end) =
        AsmBlock::parse(&tokens, 0, Vec::new(), Vec::new(), Vec::new()).unwrap();
    assert_eq!(end, 2);
    assert!(block.options.is_empty());
    assert!(block.asm_unchanged.is_none());

    for source in [
        "asm",
        "asm;",
        "asm(\"volatile\")",
        "asm(\"volatile\",) { \"nop\" }",
        "asm(\"a\" \"b\") { \"nop\" }",
        "asm(, \"a\") { \"nop\" }",
        "asm(volatile) { \"nop\" }",
        "asm { \"nop\" \"nop\" }",
        "asm { nop }",
        "asm [ \"nop\" ]",
        "asm!(\"nop\");",
        "masm { \"nop\" }",
    ] {
        assert!(
            AsmBlock::parse(&lex(source), 0, Vec::new(), Vec::new(), Vec::new()).is_none(),
            "{}",
            source
        );
    }
}

#[test]
fn option_lists() {
    assert_eq!(parse_options(&lex("\"a\"")).map(|o| o.len()), Some(1));
    assert_eq!(
        parse_options(&lex("\"a\", \"b\", \"c\"")).map(|o| written(&o)),
        Some("\"a\" \"b\" \"c\" ".to_string())
    );
    assert!(parse_options(&lex("")).is_none());
    assert!(parse_options(&lex("\"a\",")).is_none());
    assert!(parse_options(&lex("\"a\" \"b\"")).is_none());
    assert!(parse_options(&lex("\"a\"; \"b\"")).is_none());
    assert!(parse_options(&lex("a")).is_none());
}
