use solar_abi::model::{Contract, ContractKind};
use solar_abi::pipeline::{
    after_analysis, after_lowering, extraction_result, parse_registration_failure, parse_result,
    registration_failure, snippet, tokens_registration_failure, tokens_result, LowerOutcome, RawToken,
};

fn raw(kind: &str, lo: usize, hi: usize) -> RawToken {
    RawToken { kind: kind.to_string(), lo, hi, span: format!("Span({lo}..{hi})") }
}

#[test]
fn registration_failure_reports_reason() {
    let r = registration_failure("invalid encoding");
    assert!(!r.success);
    assert!(r.contracts.is_empty());
    assert_eq!(r.diagnostics, "Failed to create source file: invalid encoding");
    let p = parse_registration_failure("x");
    assert!(!p.success && p.ast.is_none());
    assert_eq!(p.diagnostics, "Failed to create source file: x");
    let t = tokens_registration_failure("y");
    assert!(!t.success && t.tokens.is_empty());
    assert_eq!(t.diagnostics, "Failed to create source file: y");
}

#[test]
fn lowering_gate() {
    assert!(after_lowering(LowerOutcome::Continue, String::new()).is_none());
    for o in [LowerOutcome::Break, LowerOutcome::Failed] {
        let r = after_lowering(o, "error: bad".to_string()).unwrap();
        assert!(!r.success);
        assert!(r.contracts.is_empty());
        assert_eq!(r.diagnostics, "error: bad");
    }
}

#[test]
fn syntax_error_blocks_extraction() {
    let r = after_analysis(true, 1, "error: expected one of `;`".to_string()).unwrap();
    assert!(!r.success);
    assert!(r.contracts.is_empty());
    assert!(!r.diagnostics.is_empty());
}

#[test]
fn semantic_error_blocks_extraction() {
    let r = after_analysis(false, 2, "error: unresolved symbol `x`".to_string()).unwrap();
    assert!(!r.success);
    assert!(r.contracts.is_empty());
    assert!(r.diagnostics.contains("error"));
    assert!(after_analysis(false, 0, String::new()).is_some());
}

#[test]
fn clean_analysis_proceeds() {
    assert!(after_analysis(true, 0, "warning: unused".to_string()).is_none());
}

#[test]
fn extraction_keeps_warnings() {
    let cs = vec![Contract { name: "C".to_string(), kind: ContractKind::Contract, is_abstract: false, inherited: vec![], items: vec![] }];
    let r = extraction_result(&cs, 0, "warning: unused variable".to_string());
    assert!(r.success);
    assert_eq!(r.contracts.len(), 1);
    assert_eq!(r.diagnostics, "warning: unused variable");
    let r = extraction_result(&cs, 1, String::new());
    assert!(!r.success);
    assert_eq!(r.diagnostics, "");
}

#[test]
fn parse_outcomes() {
    let r = parse_result(Some("SourceUnit".to_string()), 0, String::new());
    assert!(r.success);
    assert_eq!(r.ast.as_deref(), Some("SourceUnit"));
    let r = parse_result(Some("SourceUnit".to_string()), 1, "error".to_string());
    assert!(!r.success);
    assert!(r.ast.is_some());
    let r = parse_result(None, 1, "error: expected".to_string());
    assert!(!r.success);
    assert!(r.ast.is_none());
    assert_eq!(r.diagnostics, "error: expected");
}

#[test]
fn snippet_cuts_by_bytes() {
    let src = "contract C { }";
    assert_eq!(snippet(src, 0, 8), "contract");
    assert_eq!(snippet(src, 9, 10), "C");
    assert_eq!(snippet(src, 4, 4), "");
    assert_eq!(snippet(src, 10, 9), "");
    assert_eq!(snippet(src, 0, 99), "");
    let uni = "é=1";
    assert_eq!(snippet(uni, 0, 2), "é");
    assert_eq!(snippet(uni, 0, 1), "");
}

#[test]
fn invalid_but_lexable_text_tokenizes() {
    let src = "contract { ;; uint";
    let toks = vec![raw("Ident", 0, 8), raw("OpenDelim", 9, 10), raw("Semi", 11, 12), raw("Semi", 12, 13), raw("Ident", 14, 18)];
    let r = tokens_result(src, &toks);
    assert!(r.success);
    assert_eq!(r.diagnostics, "");
    assert_eq!(r.tokens.len(), 5);
    assert_eq!(r.tokens[0].kind, "Ident");
    assert_eq!(r.tokens[0].span, "Span(0..8)");
}

#[test]
fn token_texts_match_spans() {
    let src = "pragma solidity ^0.8.0;";
    let toks = vec![raw("Ident", 0, 6), raw("Ident", 7, 15), raw("BinOp", 16, 17), raw("Literal", 17, 22), raw("Semi", 22, 23)];
    let r = tokens_result(src, &toks);
    for (t, rt) in r.tokens.iter().zip(toks.iter()) {
        assert_eq!(t.text, &src[rt.lo..rt.hi]);
    }
    assert_eq!(r.tokens[3].text, "0.8.0");
}
