//! The parse service: from text and entry point to the artifact to display.

use vstd::prelude::*;
use vstd::utf8::encode_utf8;
use crate::artifact::{
    artifact_of,
    outcome_view,
    parsed_view,
    sentinel_artifact,
    ArtifactKind,
    ArtifactView,
    FaultView,
    ParseArtifact,
    ParseError,
    ParseErrorView,
    SyntaxFault,
};
use crate::mode::GrammarEntryPoint;

verus! {

/// The longest text, in bytes, that is handed to the parser: it addresses
/// source positions with 32 bits, the first of which stands for no place.
pub const MAX_SOURCE_BYTES: usize = 0x7FFF_FFFF;

/// What the tokenizer makes of `text`: the pretty-printed token sequence, or
/// the lexical error with its place.
pub uninterp spec fn token_stream_outcome(text: Seq<char>) -> Result<Seq<char>, FaultView>;

/// What the grammar makes of `text` as a single top-level declaration: the
/// pretty-printed tree, or the error with its place.
pub uninterp spec fn item_outcome(text: Seq<char>) -> Result<Seq<char>, FaultView>;

/// Whether `text` is short enough for the parser.
pub open spec fn fits_parser(text: Seq<char>) -> bool {
    encode_utf8(text).len() <= MAX_SOURCE_BYTES
}

/// The fault reported of a text that is too long for the parser.
pub open spec fn oversize_fault() -> FaultView {
    FaultView { message: "source text is too long to parse"@, line: 1, column: 0 }
}

/// The outcome of a parse attempt on `text` under a real entry point. A text
/// that the tokenizer rejects is a lexical error under either entry point; a
/// grammar error is one of a text that the tokenizer accepts.
pub open spec fn attempt_outcome(text: Seq<char>, mode: GrammarEntryPoint) -> Result<
    Seq<char>,
    ParseErrorView,
>
    recommends
        mode.is_real(),
{
    if !fits_parser(text) {
        Err(ParseErrorView::Lexical(oversize_fault()))
    } else if mode == GrammarEntryPoint::TokenStreamOnly {
        match token_stream_outcome(text) {
            Ok(tokens) => Ok(tokens),
            Err(fault) => Err(ParseErrorView::Lexical(fault)),
        }
    } else {
        match item_outcome(text) {
            Ok(item) => Ok(item),
            Err(fault) => Err(classified(fault, token_stream_outcome(text))),
        }
    }
}

/// The error that a rejected item is: the tokenizer's own fault where it
/// rejects the text too, else a grammar error with the fault that the item
/// parser reported.
pub open spec fn classified(
    fault: FaultView,
    lexed: Result<Seq<char>, FaultView>,
) -> ParseErrorView {
    match lexed {
        Ok(_) => ParseErrorView::Grammar(fault),
        Err(lexical) => ParseErrorView::Lexical(lexical),
    }
}

/// The artifact that a parse of `text` under `mode` gives.
pub open spec fn parse_artifact(text: Seq<char>, mode: GrammarEntryPoint) -> ArtifactView {
    if mode.is_real() {
        artifact_of(attempt_outcome(text, mode))
    } else {
        sentinel_artifact()
    }
}

/// Trusted: forgets the positions of earlier texts with
/// `proc_macro2::extra::invalidate_current_thread_spans`, so that positions
/// count from the start of this text, then runs
/// `syn::parse_str::<proc_macro2::TokenStream>` on it. On `Ok` the tokens are
/// rendered with the alternate `Debug` format; on `Err` the fault holds the
/// error's `Display` text and the line and column of `span().start()`. The
/// contract claims only that this outcome depends on the text alone; it is
/// not proved.
#[verifier::external_body]
fn tokenize(text: &str) -> (outcome: Result<String, SyntaxFault>)
    requires
        fits_parser(text@),
    ensures
        parsed_view(outcome) == token_stream_outcome(text@),
{
    proc_macro2::extra::invalidate_current_thread_spans();
    match syn::parse_str::<proc_macro2::TokenStream>(text) {
        Ok(tokens) => Ok(format!("{tokens:#?}")),
        Err(e) => {
            let at = e.span().start();
            Err(SyntaxFault { message: e.to_string(), line: at.line, column: at.column })
        },
    }
}

/// Trusted: forgets the positions of earlier texts with
/// `proc_macro2::extra::invalidate_current_thread_spans`, so that positions
/// count from the start of this text, then runs `syn::parse_str::<syn::Item>`
/// on it. On `Ok` the item is rendered with the alternate `Debug` format; on
/// `Err` the fault holds the error's `Display` text and the line and column
/// of `span().start()`. The contract claims only that this outcome depends on
/// the text alone; it is not proved.
#[verifier::external_body]
fn parse_item(text: &str) -> (outcome: Result<String, SyntaxFault>)
    requires
        fits_parser(text@),
    ensures
        parsed_view(outcome) == item_outcome(text@),
{
    proc_macro2::extra::invalidate_current_thread_spans();
    match syn::parse_str::<syn::Item>(text) {
        Ok(item) => Ok(format!("{item:#?}")),
        Err(e) => {
            let at = e.span().start();
            Err(SyntaxFault { message: e.to_string(), line: at.line, column: at.column })
        },
    }
}

/// The stateless service that turns text into an artifact.
pub struct ParseService;

impl ParseService {
    /// Tells which error a rejected item is, from the fault that the item
    /// parser reported and from what the tokenizer alone makes of the text.
    pub fn classify(fault: SyntaxFault, lexed: Result<String, SyntaxFault>) -> (error: ParseError)
        ensures
            error@ == classified(fault@, parsed_view(lexed)),
    {
        match lexed {
            Ok(_) => ParseError::Grammar(fault),
            Err(lexical) => ParseError::Lexical(lexical),
        }
    }

    /// Runs the parser that `mode` names on `text`. A text that is too long
    /// for the parser is reported as a lexical error at its start without a
    /// parser run.
    pub fn attempt(text: &str, mode: GrammarEntryPoint) -> (outcome: Result<String, ParseError>)
        requires
            mode.is_real(),
        ensures
            outcome_view(outcome) == attempt_outcome(text@, mode),
    {
        if text.as_bytes().len() > MAX_SOURCE_BYTES {
            Err(
                ParseError::Lexical(
                    SyntaxFault {
                        message: "source text is too long to parse".to_owned(),
                        line: 1,
                        column: 0,
                    },
                ),
            )
        } else {
            match mode {
                GrammarEntryPoint::TokenStreamOnly => match tokenize(text) {
                    Ok(tokens) => Ok(tokens),
                    Err(fault) => Err(ParseError::Lexical(fault)),
                },
                _ => match parse_item(text) {
                    Ok(item) => Ok(item),
                    Err(fault) => Err(Self::classify(fault, tokenize(text))),
                },
            }
        }
    }

    /// Parses `text` under `mode` and gives the artifact to display. Under
    /// `Unrecognized` no parser runs and the sentinel artifact comes back.
    pub fn parse(text: &str, mode: GrammarEntryPoint) -> (artifact: ParseArtifact)
        ensures
            artifact@ == parse_artifact(text@, mode),
    {
        match mode {
            GrammarEntryPoint::Unrecognized => ParseArtifact::sentinel(),
            _ => ParseArtifact::from_outcome(Self::attempt(text, mode)),
        }
    }
}

/// Two parses of the same text under the same entry point give artifacts
/// that agree in shape and, character for character, in text.
pub proof fn lemma_parse_is_deterministic(
    text: Seq<char>,
    mode: GrammarEntryPoint,
    first: ParseArtifact,
    second: ParseArtifact,
)
    requires
        first@ == parse_artifact(text, mode),
        second@ == parse_artifact(text, mode),
    ensures
        first@.kind == second@.kind,
        first@.text == second@.text,
{
}

/// Under `Unrecognized` the artifact is the sentinel, whatever the text.
pub proof fn lemma_unrecognized_gives_sentinel(text: Seq<char>, other: Seq<char>)
    ensures
        parse_artifact(text, GrammarEntryPoint::Unrecognized) == sentinel_artifact(),
        parse_artifact(text, GrammarEntryPoint::Unrecognized) == parse_artifact(
            other,
            GrammarEntryPoint::Unrecognized,
        ),
{
}

/// Under a real entry point the artifact is the rendering of a tree or that
/// of a failure, exactly one of the two.
pub proof fn lemma_real_mode_gives_tree_or_failure(text: Seq<char>, mode: GrammarEntryPoint)
    requires
        mode.is_real(),
    ensures
        (parse_artifact(text, mode).kind == ArtifactKind::Tree) != parse_artifact(
            text,
            mode,
        ).kind.is_failure(),
{
}

/// Under the token-stream entry point no failure is a grammar error.
pub proof fn lemma_token_stream_mode_has_no_grammar_error(text: Seq<char>)
    ensures
        parse_artifact(text, GrammarEntryPoint::TokenStreamOnly).kind != ArtifactKind::GrammarError,
{
}

/// A text that the tokenizer rejects is a lexical error under the item entry
/// point too, with the tokenizer's own fault, whenever the item parser
/// rejects it.
pub proof fn lemma_unlexable_text_is_a_lexical_error(text: Seq<char>)
    requires
        fits_parser(text),
        token_stream_outcome(text).is_err(),
        item_outcome(text).is_err(),
    ensures
        parse_artifact(text, GrammarEntryPoint::TopLevelItem) == parse_artifact(
            text,
            GrammarEntryPoint::TokenStreamOnly,
        ),
        parse_artifact(text, GrammarEntryPoint::TopLevelItem).kind == ArtifactKind::LexicalError,
{
}

} // verus!
