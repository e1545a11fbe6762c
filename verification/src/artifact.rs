//! The artifact that one parse attempt leaves for display.

use vstd::prelude::*;
use vstd::string::StringExecFns;

verus! {

/// Which of its shapes an artifact has.
#[derive(Clone, Copy, PartialEq, Eq, Debug, Structural)]
pub enum ArtifactKind {
    /// Nothing has been parsed yet.
    Empty,
    /// The rendering of a tree that was parsed.
    Tree,
    /// The rendering of a lexical error: the text is no sequence of tokens.
    LexicalError,
    /// The rendering of a grammar error: the tokens are not what the entry
    /// point asks for.
    GrammarError,
    /// The fixed text shown for a selector state that must not be reached.
    Sentinel,
}

impl ArtifactKind {
    /// Whether an artifact of this shape renders a parse failure.
    pub open spec fn is_failure(self) -> bool {
        self == ArtifactKind::LexicalError || self == ArtifactKind::GrammarError
    }
}

/// The mathematical value of an artifact: its shape and the text to display.
pub struct ArtifactView {
    pub kind: ArtifactKind,
    pub text: Seq<char>,
}

/// The text of the sentinel artifact.
pub open spec fn sentinel_text() -> Seq<char> {
    "it should not be selected"@
}

/// The artifact of a session in which nothing was parsed yet.
pub open spec fn empty_artifact() -> ArtifactView {
    ArtifactView { kind: ArtifactKind::Empty, text: Seq::empty() }
}

/// The artifact shown when the selector is found in its unreachable state.
pub open spec fn sentinel_artifact() -> ArtifactView {
    ArtifactView { kind: ArtifactKind::Sentinel, text: sentinel_text() }
}

/// The mathematical value of a fault: what the parser says of a text that it
/// rejects, and where in the text.
pub struct FaultView {
    /// The parser's message.
    pub message: Seq<char>,
    /// The line of the place, counted from 1.
    pub line: nat,
    /// The column of the place in characters, counted from 0.
    pub column: nat,
}

/// The character of a decimal digit.
pub open spec fn digit(d: nat) -> char
    recommends
        d < 10,
{
    if d == 0 {
        '0'
    } else if d == 1 {
        '1'
    } else if d == 2 {
        '2'
    } else if d == 3 {
        '3'
    } else if d == 4 {
        '4'
    } else if d == 5 {
        '5'
    } else if d == 6 {
        '6'
    } else if d == 7 {
        '7'
    } else if d == 8 {
        '8'
    } else {
        '9'
    }
}

/// The decimal numeral of `n`, without leading zeros.
pub open spec fn decimal(n: nat) -> Seq<char>
    decreases n,
{
    if n < 10 {
        seq![digit(n)]
    } else {
        decimal(n / 10).push(digit(n % 10))
    }
}

/// The number that a digit character stands for.
pub open spec fn digit_value(c: char) -> nat {
    if c == '1' {
        1
    } else if c == '2' {
        2
    } else if c == '3' {
        3
    } else if c == '4' {
        4
    } else if c == '5' {
        5
    } else if c == '6' {
        6
    } else if c == '7' {
        7
    } else if c == '8' {
        8
    } else if c == '9' {
        9
    } else {
        0
    }
}

/// The number that a decimal numeral stands for.
pub open spec fn numeral_value(numeral: Seq<char>) -> nat
    decreases numeral.len(),
{
    if numeral.len() == 0 {
        0
    } else {
        numeral_value(numeral.drop_last()) * 10 + digit_value(numeral.last())
    }
}

/// The mathematical value of a parse error.
pub enum ParseErrorView {
    Lexical(FaultView),
    Grammar(FaultView),
}

impl ParseErrorView {
    /// What the parser reported.
    pub open spec fn fault(self) -> FaultView {
        match self {
            ParseErrorView::Lexical(fault) => fault,
            ParseErrorView::Grammar(fault) => fault,
        }
    }

    /// The words that the rendering of this error begins with.
    pub open spec fn title(self) -> Seq<char> {
        match self {
            ParseErrorView::Lexical(_) => "lexical error: "@,
            ParseErrorView::Grammar(_) => "grammar error: "@,
        }
    }

    /// The shape of the artifact that displays this error.
    pub open spec fn kind(self) -> ArtifactKind {
        match self {
            ParseErrorView::Lexical(_) => ArtifactKind::LexicalError,
            ParseErrorView::Grammar(_) => ArtifactKind::GrammarError,
        }
    }
}

/// The rendering of a parse error: which error it is and the message, then
/// the place on a line of its own.
pub open spec fn error_text(error: ParseErrorView) -> Seq<char> {
    error.title() + error.fault().message + "\n  at line "@ + decimal(error.fault().line)
        + ", column "@ + decimal(error.fault().column)
}

/// The artifact of a completed parse attempt: the rendering of the tree on
/// success, the rendering of the error on failure.
pub open spec fn artifact_of(outcome: Result<Seq<char>, ParseErrorView>) -> ArtifactView {
    match outcome {
        Ok(tree) => ArtifactView { kind: ArtifactKind::Tree, text: tree },
        Err(error) => ArtifactView { kind: error.kind(), text: error_text(error) },
    }
}

/// The mathematical value of what the parser gave for a text.
pub open spec fn parsed_view(parsed: Result<String, SyntaxFault>) -> Result<Seq<char>, FaultView> {
    match parsed {
        Ok(tree) => Ok(tree@),
        Err(fault) => Err(fault@),
    }
}

/// The mathematical value of the outcome of a parse attempt.
pub open spec fn outcome_view(outcome: Result<String, ParseError>) -> Result<
    Seq<char>,
    ParseErrorView,
> {
    match outcome {
        Ok(tree) => Ok(tree@),
        Err(error) => Err(error@),
    }
}

/// What the parser reports of a text that it rejects.
#[derive(Debug, PartialEq, Eq)]
pub struct SyntaxFault {
    /// The parser's message.
    pub message: String,
    /// The line of the place, counted from 1.
    pub line: usize,
    /// The column of the place in characters, counted from 0.
    pub column: usize,
}

/// The one-character text of a decimal digit.
fn digit_text(d: usize) -> (text: &'static str)
    requires
        d < 10,
    ensures
        text@ == seq![digit(d as nat)],
{
    proof {
        reveal_strlit("0");
        reveal_strlit("1");
        reveal_strlit("2");
        reveal_strlit("3");
        reveal_strlit("4");
        reveal_strlit("5");
        reveal_strlit("6");
        reveal_strlit("7");
        reveal_strlit("8");
        reveal_strlit("9");
    }
    let text = if d == 0 {
        "0"
    } else if d == 1 {
        "1"
    } else if d == 2 {
        "2"
    } else if d == 3 {
        "3"
    } else if d == 4 {
        "4"
    } else if d == 5 {
        "5"
    } else if d == 6 {
        "6"
    } else if d == 7 {
        "7"
    } else if d == 8 {
        "8"
    } else {
        "9"
    };
    assert(text@ =~= seq![digit(d as nat)]);
    text
}

/// Writes `n` as a decimal numeral.
pub fn render_decimal(n: usize) -> (text: String)
    ensures
        text@ == decimal(n as nat),
    decreases n,
{
    if n < 10 {
        digit_text(n).to_owned()
    } else {
        let mut text = render_decimal(n / 10);
        text.append(digit_text(n % 10));
        assert(text@ =~= decimal(n as nat));
        text
    }
}

impl SyntaxFault {
    pub open spec fn view(&self) -> FaultView {
        FaultView {
            message: self.message@,
            line: self.line as nat,
            column: self.column as nat,
        }
    }
}

/// A failed parse attempt. It is no exceptional condition: it is displayed.
#[derive(Debug, PartialEq, Eq)]
pub enum ParseError {
    /// The text cannot be split into tokens.
    Lexical(SyntaxFault),
    /// The text is a sequence of tokens, but not what the entry point asks
    /// for.
    Grammar(SyntaxFault),
}

impl ParseError {
    pub open spec fn view(&self) -> ParseErrorView {
        match self {
            ParseError::Lexical(fault) => ParseErrorView::Lexical(fault@),
            ParseError::Grammar(fault) => ParseErrorView::Grammar(fault@),
        }
    }

    /// What the parser reported.
    pub fn fault(&self) -> (fault: &SyntaxFault)
        ensures
            fault@ == self@.fault(),
    {
        match self {
            ParseError::Lexical(fault) => fault,
            ParseError::Grammar(fault) => fault,
        }
    }

    /// The shape of the artifact that displays this error.
    pub fn kind(&self) -> (kind: ArtifactKind)
        ensures
            kind == self@.kind(),
            kind.is_failure(),
    {
        match self {
            ParseError::Lexical(_) => ArtifactKind::LexicalError,
            ParseError::Grammar(_) => ArtifactKind::GrammarError,
        }
    }

    /// The text that displays this error: which error it is, the message and
    /// the place.
    pub fn render(&self) -> (text: String)
        ensures
            text@ == error_text(self@),
    {
        let mut text = match self {
            ParseError::Lexical(_) => "lexical error: ".to_owned(),
            ParseError::Grammar(_) => "grammar error: ".to_owned(),
        };
        let fault = self.fault();
        text.append(fault.message.as_str());
        text.append("\n  at line ");
        text.append(render_decimal(fault.line).as_str());
        text.append(", column ");
        text.append(render_decimal(fault.column).as_str());
        text
    }
}

/// What the output area displays.
#[derive(Debug, PartialEq, Eq)]
pub struct ParseArtifact {
    kind: ArtifactKind,
    text: String,
}

impl ParseArtifact {
    pub closed spec fn view(&self) -> ArtifactView {
        ArtifactView { kind: self.kind, text: self.text@ }
    }

    /// The artifact before the first parse attempt.
    pub fn empty() -> (artifact: ParseArtifact)
        ensures
            artifact@ == empty_artifact(),
    {
        ParseArtifact { kind: ArtifactKind::Empty, text: String::new() }
    }

    /// The fixed artifact for the selector state that must not be reached.
    pub fn sentinel() -> (artifact: ParseArtifact)
        ensures
            artifact@ == sentinel_artifact(),
    {
        ParseArtifact { kind: ArtifactKind::Sentinel, text: "it should not be selected".to_owned() }
    }

    /// The artifact of a completed parse attempt: the pretty-printed tree as
    /// it is, or the rendering of the error.
    pub fn from_outcome(outcome: Result<String, ParseError>) -> (artifact: ParseArtifact)
        ensures
            artifact@ == artifact_of(outcome_view(outcome)),
    {
        match outcome {
            Ok(tree) => ParseArtifact { kind: ArtifactKind::Tree, text: tree },
            Err(error) => ParseArtifact { kind: error.kind(), text: error.render() },
        }
    }

    /// The shape of this artifact.
    pub fn kind(&self) -> (kind: ArtifactKind)
        ensures
            kind == self@.kind,
    {
        self.kind
    }

    /// The text to display.
    pub fn text(&self) -> (text: &str)
        ensures
            text@ == self@.text,
    {
        self.text.as_str()
    }

    /// Whether the two artifacts have the same shape and the same text.
    pub fn same_as(&self, other: &ParseArtifact) -> (same: bool)
        ensures
            same == (self@ == other@),
    {
        self.kind == other.kind && self.text == other.text
    }

    /// Whether this is the rendering of a tree that was parsed.
    pub fn is_success(&self) -> (yes: bool)
        ensures
            yes == (self@.kind == ArtifactKind::Tree),
    {
        self.kind == ArtifactKind::Tree
    }

    /// Whether this is the rendering of a parse failure.
    pub fn is_failure(&self) -> (yes: bool)
        ensures
            yes == self@.kind.is_failure(),
    {
        self.kind == ArtifactKind::LexicalError || self.kind == ArtifactKind::GrammarError
    }
}

/// A decimal numeral is not empty, has no leading zero unless it is `0`
/// itself, and stands for the number that it was written for: no two numbers
/// share a numeral.
pub proof fn lemma_decimal_reads_back(n: nat)
    ensures
        decimal(n).len() >= 1,
        n > 0 ==> decimal(n)[0] != '0',
        numeral_value(decimal(n)) == n,
    decreases n,
{
    if n < 10 {
        assert(decimal(n).drop_last() =~= Seq::<char>::empty());
        assert(numeral_value(decimal(n)) == numeral_value(Seq::<char>::empty()) * 10
            + digit_value(digit(n)));
    } else {
        lemma_decimal_reads_back(n / 10);
        assert(decimal(n).drop_last() =~= decimal(n / 10));
        assert(decimal(n)[0] == decimal(n / 10)[0]);
    }
}

/// The artifact of a parse attempt is the rendering of a tree or that of a
/// failure, never both and never neither.
pub proof fn lemma_attempt_is_success_xor_failure(outcome: Result<Seq<char>, ParseErrorView>)
    ensures
        (artifact_of(outcome).kind == ArtifactKind::Tree) != artifact_of(outcome).kind.is_failure(),
        artifact_of(outcome).kind == ArtifactKind::Tree <==> outcome.is_ok(),
{
}

} // verus!
