use abi_extractor::abi::{AbiMethod, AlkanesABI, ExtractError};
use abi_extractor::source::{extract_abi, parse_items};
use abi_extractor::syntax::{ImplBlock, Item, Member, Pattern, Stmt};

fn method(opcode: u64) -> AbiMethod {
    AbiMethod { name: format!("method_{}", opcode), opcode, inputs: vec![], outputs: vec![] }
}

fn abi(name: &str, opcodes: &[u64]) -> AlkanesABI {
    AlkanesABI { name: name.to_string(), methods: opcodes.iter().map(|o| method(*o)).collect() }
}

fn responder(ty: &str, arms: &str) -> String {
    format!(
        "impl AlkaneResponder for {} {{ fn execute(&self) -> u64 {{ let opcode = 1u64; match opcode {{ {} }} }} }}",
        ty, arms
    )
}

#[test]
fn module_without_responder_is_unknown_contract() {
    let src = "struct Foo; fn main() {} impl Foo { fn execute(&self) { match 1 { 1 => {} _ => {} } } }";
    assert_eq!(extract_abi(src), Ok(abi("UnknownContract", &[])));
}

#[test]
fn empty_text_is_unknown_contract() {
    assert_eq!(extract_abi(""), Ok(abi("UnknownContract", &[])));
}

#[test]
fn other_trait_is_ignored() {
    let src = "impl Responder for Foo { fn execute(&self) { match 1 { 1 => {} _ => {} } } }";
    assert_eq!(extract_abi(src), Ok(abi("UnknownContract", &[])));
}

#[test]
fn single_implementation_with_wildcard() {
    let src = responder("Foo", "0 => { 1 } 77 => { 2 } _ => { 3 }");
    let got = extract_abi(&src).unwrap();
    assert_eq!(got.name, "Foo");
    assert_eq!(got.methods.len(), 2);
    assert_eq!(got.methods[0].name, "method_0");
    assert_eq!(got.methods[0].opcode, 0);
    assert!(got.methods[0].inputs.is_empty());
    assert!(got.methods[0].outputs.is_empty());
    assert_eq!(got.methods[1].name, "method_77");
    assert_eq!(got.methods[1].opcode, 77);
    assert!(got.methods[1].inputs.is_empty());
    assert!(got.methods[1].outputs.is_empty());
}

#[test]
fn arms_keep_source_order() {
    let src = responder("Foo", "5 => 0, 1 => 0, _ => 0");
    assert_eq!(extract_abi(&src), Ok(abi("Foo", &[5, 1])));
}

#[test]
fn duplicate_opcodes_are_kept() {
    let src = responder("Foo", "3 => 0, 3 => 0, _ => 0");
    assert_eq!(extract_abi(&src), Ok(abi("Foo", &[3, 3])));
}

#[test]
fn guarded_binding_is_skipped() {
    let src = responder("Foo", "n if n > 10 => 0, _ => 0");
    assert_eq!(extract_abi(&src), Ok(abi("Foo", &[])));
}

#[test]
fn range_is_skipped() {
    let src = responder("Foo", "1..=3 => 0, _ => 0");
    assert_eq!(extract_abi(&src), Ok(abi("Foo", &[])));
}

#[test]
fn binding_is_skipped() {
    let src = responder("Foo", "a => 0");
    assert_eq!(extract_abi(&src), Ok(abi("Foo", &[])));
}

#[test]
fn alternatives_are_skipped() {
    let src = responder("Foo", "1 | 2 => 0, 4 => 0, _ => 0");
    assert_eq!(extract_abi(&src), Ok(abi("Foo", &[4])));
}

#[test]
fn other_literals_are_skipped() {
    let src = responder("Foo", "true => 0, 9 => 0, _ => 0");
    assert_eq!(extract_abi(&src), Ok(abi("Foo", &[9])));
}

#[test]
fn skipped_arms_do_not_disturb_later_arms() {
    let src = responder("Foo", "7 => 0, 1..=3 => 0, x if x > 9 => 0, 8 => 0, _ => 0");
    assert_eq!(extract_abi(&src), Ok(abi("Foo", &[7, 8])));
}

#[test]
fn two_implementations_accumulate_and_last_names() {
    let src = format!("{} {}", responder("X", "1 => 0, 2 => 0, _ => 0"), responder("Y", "3 => 0, 1 => 0"));
    assert_eq!(extract_abi(&src), Ok(abi("Y", &[1, 2, 3, 1])));
}

#[test]
fn overflowing_literal_is_fatal() {
    let src = responder("Foo", "1 => 0, 18446744073709551616 => 0, _ => 0");
    assert_eq!(extract_abi(&src), Err(ExtractError::LiteralRange));
}

#[test]
fn negative_literal_is_fatal() {
    let src = responder("Foo", "-1 => 0, _ => 0");
    assert_eq!(extract_abi(&src), Err(ExtractError::LiteralRange));
}

#[test]
fn largest_opcode_is_accepted() {
    let src = responder("Foo", "18446744073709551615 => 0, _ => 0");
    let got = extract_abi(&src).unwrap();
    assert_eq!(got.methods.len(), 1);
    assert_eq!(got.methods[0].opcode, u64::MAX);
    assert_eq!(got.methods[0].name, "method_18446744073709551615");
}

#[test]
fn literal_in_ignored_implementation_is_harmless() {
    let src = "impl Other for Foo { fn execute(&self) { match 1 { 18446744073709551616 => {} _ => {} } } }";
    assert_eq!(extract_abi(src), Ok(abi("UnknownContract", &[])));
}

#[test]
fn literal_in_other_method_is_harmless() {
    let src = "impl AlkaneResponder for Foo { fn helper(&self) { match 1 { 18446744073709551616 => {} _ => {} } } }";
    assert_eq!(extract_abi(src), Ok(abi("Foo", &[])));
}

#[test]
fn suffix_radix_and_separators_are_read_by_value() {
    let src = responder("Foo", "5u64 => 0, 0x10 => 0, 1_000 => 0, 0b11 => 0, _ => 0");
    assert_eq!(extract_abi(&src), Ok(abi("Foo", &[5, 16, 1000, 3])));
}

#[test]
fn extraction_is_repeatable() {
    let src = format!("{} {}", responder("X", "1 => 0, _ => 0"), responder("Y", "9 => 0, 4 => 0"));
    let first = extract_abi(&src);
    let second = extract_abi(&src);
    assert_eq!(first, second);
    assert_eq!(format!("{:?}", first), format!("{:?}", second));
}

#[test]
fn unparsable_text_is_a_syntax_error() {
    assert_eq!(extract_abi("impl AlkaneResponder for {"), Err(ExtractError::Syntax));
    assert_eq!(parse_items("fn ("), Err(ExtractError::Syntax));
}

#[test]
fn tuple_type_is_unresolved() {
    let src = responder("(A, B)", "1 => 0, _ => 0");
    assert_eq!(extract_abi(&src), Err(ExtractError::UnresolvedType));
}

#[test]
fn reference_type_is_unresolved() {
    let src = responder("&Foo", "1 => 0, _ => 0");
    assert_eq!(extract_abi(&src), Err(ExtractError::UnresolvedType));
}

#[test]
fn unresolved_type_comes_before_its_literals() {
    let src = responder("[u8; 4]", "18446744073709551616 => 0");
    assert_eq!(extract_abi(&src), Err(ExtractError::UnresolvedType));
}

#[test]
fn first_fault_in_source_order_wins() {
    let src = format!("{} {}", responder("X", "-5 => 0"), responder("(A,)", "1 => 0"));
    assert_eq!(extract_abi(&src), Err(ExtractError::LiteralRange));
    let src = format!("{} {}", responder("(A,)", "1 => 0"), responder("X", "-5 => 0"));
    assert_eq!(extract_abi(&src), Err(ExtractError::UnresolvedType));
}

#[test]
fn last_path_segments_are_used() {
    let src = "impl alkanes_runtime::runtime::AlkaneResponder for tokens::Mintable<T> { fn execute(&self) { match op { 2 => {} } } }";
    assert_eq!(extract_abi(src), Ok(abi("Mintable", &[2])));
}

#[test]
fn trait_must_be_the_last_segment() {
    let src = "impl AlkaneResponder::Inner for Foo { fn execute(&self) { match op { 2 => {} } } }";
    assert_eq!(extract_abi(src), Ok(abi("UnknownContract", &[])));
}

#[test]
fn match_must_stand_as_a_statement() {
    let src = "impl AlkaneResponder for Foo { fn execute(&self) -> u64 { let r = match op { 1 => 0, _ => 1 }; return match op { 2 => 0, _ => 1 }; } }";
    assert_eq!(extract_abi(src), Ok(abi("Foo", &[])));
}

#[test]
fn match_with_semicolon_is_read() {
    let src = "impl AlkaneResponder for Foo { fn execute(&self) { match op { 4 => {} _ => {} }; } }";
    assert_eq!(extract_abi(src), Ok(abi("Foo", &[4])));
}

#[test]
fn nested_match_is_not_read() {
    let src = "impl AlkaneResponder for Foo { fn execute(&self) { if c { match op { 4 => {} _ => {} } } loop { match op { 5 => {} _ => {} } } } }";
    assert_eq!(extract_abi(src), Ok(abi("Foo", &[])));
}

#[test]
fn every_match_statement_of_the_body_is_read() {
    let src = "impl AlkaneResponder for Foo { fn execute(&self) { match a { 1 => {} _ => {} } let x = 3; match b { 2 => {} _ => {} } } }";
    assert_eq!(extract_abi(src), Ok(abi("Foo", &[1, 2])));
}

#[test]
fn every_execute_of_an_implementation_is_read() {
    let src = "impl AlkaneResponder for Foo { fn execute(&self) { match a { 1 => {} _ => {} } } const K: u8 = 0; fn other(&self) { match a { 8 => {} _ => {} } } fn execute(&self) { match a { 2 => {} _ => {} } } }";
    assert_eq!(extract_abi(src), Ok(abi("Foo", &[1, 2])));
}

#[test]
fn guard_on_a_literal_arm_is_not_read() {
    let src = responder("Foo", "6 if ready => 0, _ => 0");
    assert_eq!(extract_abi(&src), Ok(abi("Foo", &[6])));
}

#[test]
fn parse_items_copies_the_tree() {
    let src = "use a::b; impl T for Foo { const K: u8 = 0; fn execute(&self) { let x = 1; match x { 1 => {} -2 => {} _ => {} } } } impl Bar {} impl AlkaneResponder for (A, B) {}";
    let items = parse_items(src).unwrap();
    let expected = vec![
        Item::Other,
        Item::Impl(ImplBlock {
            trait_name: Some("T".to_string()),
            self_type: Some("Foo".to_string()),
            members: vec![
                Member::Other,
                Member::Fn {
                    name: "execute".to_string(),
                    stmts: vec![
                        Stmt::Other,
                        Stmt::Match(vec![Pattern::Opcode(1), Pattern::Unrepresentable, Pattern::Other]),
                    ],
                },
            ],
        }),
        Item::Impl(ImplBlock { trait_name: None, self_type: Some("Bar".to_string()), members: vec![] }),
        Item::Impl(ImplBlock {
            trait_name: Some("AlkaneResponder".to_string()),
            self_type: None,
            members: vec![],
        }),
    ];
    assert_eq!(items, expected);
}
