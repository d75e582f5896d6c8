use proc_macro2::Span;
use rusty_asm::decl::{BridgeVarDecl, ClobberDecl, ConstraintKeyword};
use rusty_asm::ident::parse_ident_at_start;
use rusty_asm::instruction::AsmBlock;
use rusty_asm::operand::{explicit_register_of, BridgeVar, Clobber};
use rusty_asm::registry::{find_var_by_ident, push_var, swap_remove_var};
use rusty_asm::resolve::{clobber_names, output_register_of};
use rusty_asm::text::{chars_of, decimal_string};
use rusty_asm::token::Token;

fn var(name: &str, constraint: &str) -> BridgeVar {
    BridgeVar::new(
        name.to_string(),
        Span::call_site(),
        constraint.to_string(),
        Span::call_site(),
    )
}

fn decl(name: &str, keyword: ConstraintKeyword, constraint: &str) -> BridgeVarDecl {
    let site = Span::call_site();
    BridgeVarDecl {
        let_keyword: Token::Ident("let".to_string(), site),
        mut_keyword: None,
        ident: name.to_string(),
        ident_span: site,
        explicit_type: None,
        constraint_keyword: keyword,
        constraint_string: constraint.to_string(),
        constraint_span: site,
        assignment: None,
        semicolon: Token::Punct(';', false, site),
    }
}

fn listing(vars: &Vec<BridgeVar>) -> Vec<(String, String)> {
    vars.iter()
        .map(|v| (v.name.clone(), v.constraint_as_str().to_string()))
        .collect()
}

fn pairs(items: &[(&str, &str)]) -> Vec<(String, String)> {
    items
        .iter()
        .map(|(a, b)| (a.to_string(), b.to_string()))
        .collect()
}

fn block(outs: Vec<BridgeVar>, ins: Vec<BridgeVar>, clobbers: &[&str]) -> AsmBlock {
    AsmBlock {
        options: Vec::new(),
        asm_unchanged: None,
        bridge_vars_out: outs,
        bridge_vars_in: ins,
        clobbers: clobbers
            .iter()
            .map(|c| Clobber::new(c.to_string(), Span::call_site()))
            .collect(),
    }
}

fn clobber_texts(block: &AsmBlock) -> Vec<String> {
    block
        .clobbers
        .iter()
        .map(|c| c.constraint_as_str().to_string())
        .collect()
}

#[test]
fn decimal_numerals() {
    assert_eq!(decimal_string(0), "0");
    assert_eq!(decimal_string(7), "7");
    assert_eq!(decimal_string(10), "10");
    assert_eq!(decimal_string(1234567890), "1234567890");
    assert_eq!(
        decimal_string(u128::MAX),
        "340282366920938463463374607431768211455"
    );
}

#[test]
fn characters_of_a_string() {
    assert_eq!(chars_of(""), Vec::<char>::new());
    assert_eq!(chars_of("a$é"), vec!['a', '$', 'é']);
}

#[test]
fn identifier_scanner() {
    let text = chars_of("mov $dst_1, $_ $é2 $9 _x");
    assert_eq!(
        parse_ident_at_start(&text, 5),
        Some(("dst_1".to_string(), 5))
    );
    assert_eq!(parse_ident_at_start(&text, 13), None);
    assert_eq!(parse_ident_at_start(&text, 16), Some(("é2".to_string(), 2)));
    assert_eq!(parse_ident_at_start(&text, 20), None);
    assert_eq!(parse_ident_at_start(&text, 22), Some(("_x".to_string(), 2)));
    assert_eq!(parse_ident_at_start(&text, 4), None);
    assert_eq!(parse_ident_at_start(&text, 24), None);
    assert_eq!(parse_ident_at_start(&text, 1000), None);
    let alone = chars_of("_");
    assert_eq!(parse_ident_at_start(&alone, 0), None);
    let digits_after = chars_of("a1 1a");
    assert_eq!(
        parse_ident_at_start(&digits_after, 0),
        Some(("a1".to_string(), 2))
    );
    assert_eq!(parse_ident_at_start(&digits_after, 3), None);
}

#[test]
fn explicit_register_is_the_text_in_braces() {
    assert_eq!(explicit_register_of("{eax}"), Some("eax"));
    assert_eq!(explicit_register_of("{}"), Some(""));
    assert_eq!(explicit_register_of("{"), None);
    assert_eq!(explicit_register_of("}"), None);
    assert_eq!(explicit_register_of(""), None);
    assert_eq!(explicit_register_of("r"), None);
    assert_eq!(explicit_register_of("={eax}"), None);
    assert_eq!(explicit_register_of("{eax"), None);
    assert_eq!(var("x", "{ebx}").explicit_register(), Some("ebx"));
    assert_eq!(var("x", "r").explicit_register(), None);
    assert_eq!(var("x", "=r").constraint_as_str(), "=r");
    let _ = var("x", "r").constraint_span();
    let clobber = Clobber::new("cc".to_string(), Span::call_site());
    assert_eq!(clobber.constraint_as_str(), "cc");
    let _ = clobber.span();
    assert!(clobber.eq(&Clobber::new("cc".to_string(), Span::call_site())));
    assert!(!clobber.eq(&Clobber::new("memory".to_string(), Span::call_site())));
}

#[test]
fn output_register_ignores_the_output_mark() {
    assert_eq!(output_register_of("={eax}"), Some("eax"));
    assert_eq!(output_register_of("{eax}"), Some("eax"));
    assert_eq!(output_register_of("=r"), None);
    assert_eq!(output_register_of("="), None);
    assert_eq!(output_register_of(""), None);
    assert!(clobber_names("eax", "eax"));
    assert!(clobber_names("{eax}", "eax"));
    assert!(!clobber_names("ebx", "eax"));
    assert!(!clobber_names("{ebx}", "eax"));
    assert!(!clobber_names("={eax}", "eax"));
}

#[test]
fn push_var_appends_or_overwrites_in_place() {
    let mut vars = Vec::new();
    assert_eq!(push_var(&mut vars, var("a", "r")), None);
    assert_eq!(push_var(&mut vars, var("b", "m")), None);
    assert_eq!(push_var(&mut vars, var("c", "i")), None);
    assert_eq!(push_var(&mut vars, var("b", "x")), Some(1));
    assert_eq!(listing(&vars), pairs(&[("a", "r"), ("b", "x"), ("c", "i")]));
    assert_eq!(find_var_by_ident(&vars, &"c".to_string()), Some(2));
    assert_eq!(find_var_by_ident(&vars, &"d".to_string()), None);
    assert!(vars[1].bad_duplicate_of(&var("b", "other")));
    assert!(!vars[1].bad_duplicate_of(&var("a", "x")));
}

#[test]
fn swap_remove_var_needs_name_and_constraint() {
    let mut vars = vec![var("a", "0"), var("b", "1"), var("c", "2")];
    swap_remove_var(&mut vars, &var("a", "1"));
    assert_eq!(listing(&vars), pairs(&[("a", "0"), ("b", "1"), ("c", "2")]));
    swap_remove_var(&mut vars, &var("d", "0"));
    assert_eq!(vars.len(), 3);
    swap_remove_var(&mut vars, &var("a", "0"));
    assert_eq!(listing(&vars), pairs(&[("c", "2"), ("b", "1")]));
    swap_remove_var(&mut vars, &var("b", "1"));
    assert_eq!(listing(&vars), pairs(&[("c", "2")]));
}

#[test]
fn declarations_fill_the_registries() {
    let mut outs = Vec::new();
    let mut ins = Vec::new();
    decl("a", ConstraintKeyword::In, "r").push_bridge_var(&mut outs, &mut ins);
    decl("b", ConstraintKeyword::Out, "r").push_bridge_var(&mut outs, &mut ins);
    decl("c", ConstraintKeyword::InOut, "m").push_bridge_var(&mut outs, &mut ins);
    assert_eq!(listing(&outs), pairs(&[("b", "=r"), ("c", "=m")]));
    assert_eq!(listing(&ins), pairs(&[("a", "r"), ("c", "1")]));
}

#[test]
fn redeclaring_with_the_same_direction_overwrites_in_place() {
    let mut outs = Vec::new();
    let mut ins = Vec::new();
    decl("a", ConstraintKeyword::InOut, "r").push_bridge_var(&mut outs, &mut ins);
    decl("b", ConstraintKeyword::InOut, "r").push_bridge_var(&mut outs, &mut ins);
    decl("c", ConstraintKeyword::In, "r").push_bridge_var(&mut outs, &mut ins);
    decl("a", ConstraintKeyword::InOut, "m").push_bridge_var(&mut outs, &mut ins);
    assert_eq!(listing(&outs), pairs(&[("a", "=m"), ("b", "=r")]));
    assert_eq!(listing(&ins), pairs(&[("a", "0"), ("b", "1"), ("c", "r")]));
    decl("c", ConstraintKeyword::In, "i").push_bridge_var(&mut outs, &mut ins);
    assert_eq!(listing(&ins), pairs(&[("a", "0"), ("b", "1"), ("c", "i")]));
    decl("b", ConstraintKeyword::Out, "x").push_bridge_var(&mut outs, &mut ins);
    decl("b", ConstraintKeyword::Out, "y").push_bridge_var(&mut outs, &mut ins);
    assert_eq!(listing(&outs), pairs(&[("a", "=m"), ("b", "=y")]));
}

#[test]
fn redeclaring_with_another_direction_follows_the_removal_rule() {
    let mut outs = Vec::new();
    let mut ins = Vec::new();
    decl("a", ConstraintKeyword::InOut, "r").push_bridge_var(&mut outs, &mut ins);
    decl("b", ConstraintKeyword::InOut, "r").push_bridge_var(&mut outs, &mut ins);
    decl("c", ConstraintKeyword::In, "r").push_bridge_var(&mut outs, &mut ins);
    // `out` over an earlier `inout`: the tied input goes, the last input takes its place.
    decl("a", ConstraintKeyword::Out, "m").push_bridge_var(&mut outs, &mut ins);
    assert_eq!(listing(&outs), pairs(&[("a", "=m"), ("b", "=r")]));
    assert_eq!(listing(&ins), pairs(&[("c", "r"), ("b", "1")]));
    // `in` over an earlier `inout`: the input is overwritten, the output stays.
    decl("b", ConstraintKeyword::In, "i").push_bridge_var(&mut outs, &mut ins);
    assert_eq!(listing(&outs), pairs(&[("a", "=m"), ("b", "=r")]));
    assert_eq!(listing(&ins), pairs(&[("c", "r"), ("b", "i")]));
    // `out` over an earlier `out` with an input of another text: the input stays.
    decl("b", ConstraintKeyword::Out, "x").push_bridge_var(&mut outs, &mut ins);
    assert_eq!(listing(&ins), pairs(&[("c", "r"), ("b", "i")]));
    // `out` of a new name leaves the inputs alone, whatever their text.
    decl("c", ConstraintKeyword::Out, "y").push_bridge_var(&mut outs, &mut ins);
    assert_eq!(listing(&outs), pairs(&[("a", "=m"), ("b", "=x"), ("c", "=y")]));
    assert_eq!(listing(&ins), pairs(&[("c", "r"), ("b", "i")]));
    // `inout` over an earlier `out` keeps the output's position.
    decl("b", ConstraintKeyword::InOut, "z").push_bridge_var(&mut outs, &mut ins);
    assert_eq!(listing(&outs), pairs(&[("a", "=m"), ("b", "=z"), ("c", "=y")]));
    assert_eq!(listing(&ins), pairs(&[("c", "r"), ("b", "1")]));
}

#[test]
fn clobbers_form_a_set() {
    let site = Span::call_site();
    let mut clobbers = Vec::new();
    for text in ["memory", "cc", "memory", "eax", "cc"] {
        ClobberDecl {
            constraint_string: text.to_string(),
            span: site,
        }
        .push_clobber(&mut clobbers);
    }
    let texts: Vec<&str> = clobbers.iter().map(|c| c.constraint_as_str()).collect();
    assert_eq!(texts, vec!["memory", "cc", "eax"]);
}

#[test]
fn resolver_drops_the_clobber_of_an_output_register() {
    let mut sink = Vec::new();
    let mut b = block(
        vec![var("x", "{eax}"), var("y", "=r")],
        vec![var("z", "r")],
        &["eax", "ebx"],
    );
    b.fix_overlapping_clobbers(&mut sink);
    assert_eq!(clobber_texts(&b), vec!["ebx"]);
    assert_eq!(listing(&b.bridge_vars_out), pairs(&[("x", "{eax}"), ("y", "=r")]));
    assert_eq!(listing(&b.bridge_vars_in), pairs(&[("z", "r")]));
    assert_eq!(sink.len(), 2);
}

#[test]
fn resolver_turns_a_clobbered_input_into_an_output_with_a_tied_input() {
    let mut sink = Vec::new();
    let mut b = block(vec![], vec![var("x", "{ebx}")], &["{ebx}"]);
    b.fix_overlapping_clobbers(&mut sink);
    assert!(b.clobbers.is_empty());
    assert_eq!(listing(&b.bridge_vars_out), pairs(&[("x", "={ebx}")]));
    assert_eq!(listing(&b.bridge_vars_in), pairs(&[("x", "0")]));
    assert!(sink.is_empty());
}

#[test]
fn resolver_handles_several_inputs_in_order() {
    let mut sink = Vec::new();
    let mut b = block(
        vec![var("o", "=r")],
        vec![
            var("a", "{eax}"),
            var("b", "r"),
            var("c", "{ecx}"),
            var("d", "{eax}"),
            var("e", "{edx}"),
        ],
        &["ecx", "eax", "{eax}", "esi"],
    );
    b.fix_overlapping_clobbers(&mut sink);
    assert_eq!(clobber_texts(&b), vec!["esi"]);
    assert_eq!(
        listing(&b.bridge_vars_out),
        pairs(&[("o", "=r"), ("a", "={eax}"), ("c", "={ecx}")])
    );
    assert_eq!(
        listing(&b.bridge_vars_in),
        pairs(&[
            ("b", "r"),
            ("d", "{eax}"),
            ("e", "{edx}"),
            ("a", "1"),
            ("c", "2")
        ])
    );
    assert!(sink.is_empty());
}

#[test]
fn resolver_leaves_a_block_without_collisions_alone() {
    let mut sink = Vec::new();
    let mut b = block(
        vec![var("x", "=r")],
        vec![var("y", "{eax}"), var("z", "0")],
        &["ebx", "memory"],
    );
    b.fix_overlapping_clobbers(&mut sink);
    assert_eq!(clobber_texts(&b), vec!["ebx", "memory"]);
    assert_eq!(listing(&b.bridge_vars_out), pairs(&[("x", "=r")]));
    assert_eq!(listing(&b.bridge_vars_in), pairs(&[("y", "{eax}"), ("z", "0")]));
    assert!(sink.is_empty());
}

#[test]
fn rewriting_uses_positions_of_outputs_then_inputs() {
    let mut sink = Vec::new();
    let b = block(
        vec![var("a", "=r"), var("b", "=r")],
        vec![var("c", "r"), var("b", "1")],
        &[],
    );
    let (text, used) = b.replace_identifiers("$c $b $a $$ $c", Span::call_site(), &mut sink);
    assert_eq!(text, "$2 $1 $0 $$ $2");
    assert_eq!(used, vec!["c", "b", "a", "c"]);
    assert!(sink.is_empty());
    let chars = chars_of("$c+1");
    assert_eq!(
        b.consume_translate_ident(&chars, 1, Span::call_site(), &mut sink),
        Some(("c".to_string(), "2".to_string(), 1))
    );
    assert_eq!(
        b.consume_translate_ident(&chars, 2, Span::call_site(), &mut sink),
        None
    );
    assert_eq!(sink.len(), 2);
}
