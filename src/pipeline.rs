//! The decisions of the compile pipeline (register, parse, lower, analyze,
//! extract) and of the token and parse entry points. The stages themselves
//! run outside; each gate takes what a stage reported and says whether the
//! pipeline stops, and with which outcome.
use vstd::prelude::*;
use vstd::string::StringSliceAdditionalSpecFns;
use vstd::utf8::{
    encode_utf8, encode_utf8_valid_utf8, is_char_boundary, is_char_boundary_iff_not_is_continuation_byte,
    is_char_boundary_start_end_of_seq, valid_utf8_split,
};
use crate::collect::{collect, output_describes, ContractOutput};
use crate::model::Contract;
use vstd::string::StringExecFns;

verus! {

/// Outcome of the compile entry point.
pub struct CompileResult {
    pub success: bool,
    pub contracts: Vec<ContractOutput>,
    /// The full diagnostics transcript, warnings included.
    pub diagnostics: String,
}

/// Outcome of the parse entry point.
pub struct ParseResult {
    pub success: bool,
    pub ast: Option<String>,
    pub diagnostics: String,
}

/// One token: its kind, its text in the source, and its span.
pub struct TokenInfo {
    pub kind: String,
    pub text: String,
    pub span: String,
}

/// Outcome of the tokenize entry point.
pub struct TokensResult {
    pub success: bool,
    pub tokens: Vec<TokenInfo>,
    pub diagnostics: String,
}

/// A token as the lexer reports it: kind, byte range `lo..hi` in the
/// source, and the rendered span.
pub struct RawToken {
    pub kind: String,
    pub lo: usize,
    pub hi: usize,
    pub span: String,
}

/// What lowering to the intermediate representation reported.
#[derive(Clone, Copy, PartialEq, Eq, Structural, Debug)]
pub enum LowerOutcome {
    Continue,
    Break,
    Failed,
}

/// The diagnostic that reports a source text that could not be registered.
pub open spec fn registration_text(reason: Seq<char>) -> Seq<char> {
    "Failed to create source file: "@ + reason
}

/// The diagnostic for a source text that could not be registered.
pub fn registration_message(reason: &str) -> (r: String)
    ensures
        r@ == registration_text(reason@),
{
    let mut s = "Failed to create source file: ".to_owned();
    s.append(reason);
    s
}

/// A failed compile: no contracts, the transcript as it stands.
pub open spec fn is_failure(r: CompileResult, diagnostics: Seq<char>) -> bool {
    &&& !r.success
    &&& r.contracts@.len() == 0
    &&& r.diagnostics@ == diagnostics
}

/// The compile outcome when the source text could not be registered.
pub fn registration_failure(reason: &str) -> (r: CompileResult)
    ensures
        is_failure(r, registration_text(reason@)),
{
    CompileResult {
        success: false,
        contracts: Vec::new(),
        diagnostics: registration_message(reason),
    }
}

/// After lowering: anything but `Continue` stops the pipeline.
pub fn after_lowering(outcome: LowerOutcome, diagnostics: String) -> (r: Option<CompileResult>)
    ensures
        outcome == LowerOutcome::Continue <==> r is None,
        r matches Some(f) ==> is_failure(f, diagnostics@),
{
    match outcome {
        LowerOutcome::Continue => None,
        _ => Some(CompileResult { success: false, contracts: Vec::new(), diagnostics }),
    }
}

/// After analysis: extraction runs only when analysis completed
/// and no error has been recorded.
pub fn after_analysis(analysis_ok: bool, error_count: usize, diagnostics: String) -> (r: Option<
    CompileResult,
>)
    ensures
        (analysis_ok && error_count == 0) <==> r is None,
        r matches Some(f) ==> is_failure(f, diagnostics@),
{
    if analysis_ok && error_count == 0 {
        None
    } else {
        Some(CompileResult { success: false, contracts: Vec::new(), diagnostics })
    }
}

/// Extraction: the interface of every contract, in order; success is
/// recomputed from the error count at this point.
pub fn extraction_result(contracts: &Vec<Contract>, error_count: usize, diagnostics: String) -> (r:
    CompileResult)
    ensures
        r.success == (error_count == 0),
        r.diagnostics@ == diagnostics@,
        r.contracts@.len() == contracts@.len(),
        forall|i: int|
            0 <= i < r.contracts@.len() ==> output_describes(
                #[trigger] r.contracts@[i],
                contracts@[i],
            ),
{
    CompileResult { success: error_count == 0, contracts: collect(contracts), diagnostics }
}

/// The parse outcome when the source text could not be registered.
pub fn parse_registration_failure(reason: &str) -> (r: ParseResult)
    ensures
        !r.success,
        r.ast is None,
        r.diagnostics@ == registration_text(reason@),
{
    ParseResult { success: false, ast: None, diagnostics: registration_message(reason) }
}

/// The parse outcome: the rendered tree when the parser produced one,
/// successful only when no error was recorded.
pub fn parse_result(ast: Option<String>, error_count: usize, diagnostics: String) -> (r:
    ParseResult)
    ensures
        r.success == (ast is Some && error_count == 0),
        r.ast == ast,
        r.diagnostics@ == diagnostics@,
{
    let success = match &ast {
        Some(_) => error_count == 0,
        None => false,
    };
    ParseResult { success, ast, diagnostics }
}

/// The token outcome when the source text could not be registered.
pub fn tokens_registration_failure(reason: &str) -> (r: TokensResult)
    ensures
        !r.success,
        r.tokens@.len() == 0,
        r.diagnostics@ == registration_text(reason@),
{
    TokensResult { success: false, tokens: Vec::new(), diagnostics: registration_message(reason) }
}

/// `lo..hi` is a range of whole characters within `src`.
pub open spec fn valid_span(src: &str, lo: int, hi: int) -> bool {
    &&& 0 <= lo <= hi <= src.len()
    &&& is_char_boundary(src.spec_bytes(), lo)
    &&& is_char_boundary(src.spec_bytes(), hi)
}

/// The text of bytes `lo..hi` of `src`; empty when the range does not
/// select whole characters within it.
pub fn snippet(src: &str, lo: usize, hi: usize) -> (r: String)
    ensures
        valid_span(src, lo as int, hi as int) ==> encode_utf8(r@) == src.spec_bytes().subrange(
            lo as int,
            hi as int,
        ),
        !valid_span(src, lo as int, hi as int) ==> r@.len() == 0,
{
    if lo <= hi && hi <= src.len() && src.is_char_boundary(lo) && src.is_char_boundary(hi) {
        let (head, _) = src.split_at(hi);
        proof {
            assert(head.spec_bytes() =~= src.spec_bytes().subrange(0, hi as int));
            let b = src.spec_bytes();
            let h = head.spec_bytes();
            encode_utf8_valid_utf8(src@);
            valid_utf8_split(b, hi as int);
            if lo == hi {
                is_char_boundary_start_end_of_seq(h);
            } else {
                is_char_boundary_iff_not_is_continuation_byte(b, lo as int);
                is_char_boundary_iff_not_is_continuation_byte(h, lo as int);
                assert(h[lo as int] == b[lo as int]);
            }
            assert(is_char_boundary(h, lo as int));
        }
        let (_, part) = head.split_at(lo);
        assert(part.spec_bytes() =~= src.spec_bytes().subrange(lo as int, hi as int));
        let r = part.to_owned();
        assert(encode_utf8(r@) == part.spec_bytes());
        r
    } else {
        String::new()
    }
}

/// The token outcome: every token with its text cut from the source by its
/// span. Lexing needs no valid parse, so it always succeeds.
pub fn tokens_result(src: &str, raw: &Vec<RawToken>) -> (r: TokensResult)
    ensures
        r.success,
        r.diagnostics@.len() == 0,
        r.tokens@.len() == raw@.len(),
        forall|i: int|
            0 <= i < raw@.len() ==> {
                &&& (#[trigger] r.tokens@[i]).kind@ == raw@[i].kind@
                &&& r.tokens@[i].span@ == raw@[i].span@
                &&& valid_span(src, raw@[i].lo as int, raw@[i].hi as int) ==> encode_utf8(
                    r.tokens@[i].text@,
                ) == src.spec_bytes().subrange(raw@[i].lo as int, raw@[i].hi as int)
                &&& !valid_span(src, raw@[i].lo as int, raw@[i].hi as int)
                    ==> r.tokens@[i].text@.len() == 0
            },
{
    let mut tokens: Vec<TokenInfo> = Vec::new();
    let mut i: usize = 0;
    while i < raw.len()
        invariant
            i <= raw@.len(),
            tokens@.len() == i,
            forall|j: int|
                0 <= j < i ==> {
                    &&& (#[trigger] tokens@[j]).kind@ == raw@[j].kind@
                    &&& tokens@[j].span@ == raw@[j].span@
                    &&& valid_span(src, raw@[j].lo as int, raw@[j].hi as int) ==> encode_utf8(
                        tokens@[j].text@,
                    ) == src.spec_bytes().subrange(raw@[j].lo as int, raw@[j].hi as int)
                    &&& !valid_span(src, raw@[j].lo as int, raw@[j].hi as int)
                        ==> tokens@[j].text@.len() == 0
                },
        decreases raw@.len() - i,
    {
        let t = &raw[i];
        let text = snippet(src, t.lo, t.hi);
        tokens.push(TokenInfo { kind: t.kind.clone(), text, span: t.span.clone() });
        i = i + 1;
    }
    TokensResult { success: true, tokens, diagnostics: String::new() }
}

} // verus!
