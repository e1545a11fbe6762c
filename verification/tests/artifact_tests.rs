use syn_debugger::artifact::{
    render_decimal, ArtifactKind, ParseArtifact, ParseError, SyntaxFault,
};

#[test]
fn empty_artifact_has_no_text() {
    let artifact = ParseArtifact::empty();
    assert_eq!(artifact.kind(), ArtifactKind::Empty);
    assert_eq!(artifact.text(), "");
    assert!(!artifact.is_success());
    assert!(!artifact.is_failure());
}

#[test]
fn sentinel_artifact_has_the_fixed_text() {
    let artifact = ParseArtifact::sentinel();
    assert_eq!(artifact.kind(), ArtifactKind::Sentinel);
    assert_eq!(artifact.text(), "it should not be selected");
}

#[test]
fn tree_outcome_is_displayed_as_it_is() {
    let artifact = ParseArtifact::from_outcome(Ok(String::from("Tree { leaf }")));
    assert_eq!(artifact.kind(), ArtifactKind::Tree);
    assert!(artifact.is_success());
    assert!(!artifact.is_failure());
    assert_eq!(artifact.text(), "Tree { leaf }");
}

#[test]
fn grammar_error_is_rendered_with_its_place() {
    let fault = SyntaxFault { message: String::from("unexpected token"), line: 12, column: 305 };
    let error = ParseError::Grammar(fault);
    assert_eq!(error.kind(), ArtifactKind::GrammarError);
    assert_eq!(error.fault().line, 12);
    assert_eq!(error.render(), "grammar error: unexpected token\n  at line 12, column 305");
    let artifact = ParseArtifact::from_outcome(Err(error));
    assert_eq!(artifact.kind(), ArtifactKind::GrammarError);
    assert!(artifact.is_failure());
    assert!(!artifact.is_success());
    assert_eq!(artifact.text(), "grammar error: unexpected token\n  at line 12, column 305");
}

#[test]
fn lexical_error_is_rendered_with_its_place() {
    let fault = SyntaxFault { message: String::from("bad token"), line: 1, column: 0 };
    let error = ParseError::Lexical(fault);
    assert_eq!(error.kind(), ArtifactKind::LexicalError);
    assert_eq!(error.render(), "lexical error: bad token\n  at line 1, column 0");
    let artifact = ParseArtifact::from_outcome(Err(error));
    assert_eq!(artifact.kind(), ArtifactKind::LexicalError);
    assert!(artifact.is_failure());
    assert_eq!(artifact.text(), "lexical error: bad token\n  at line 1, column 0");
}

#[test]
fn error_with_empty_message_still_renders() {
    let fault = SyntaxFault { message: String::new(), line: 0, column: 0 };
    assert_eq!(ParseError::Lexical(fault).render(), "lexical error: \n  at line 0, column 0");
    let fault = SyntaxFault { message: String::new(), line: usize::MAX, column: usize::MAX };
    assert_eq!(
        ParseError::Grammar(fault).render(),
        format!("grammar error: \n  at line {}, column {}", usize::MAX, usize::MAX)
    );
}

#[test]
fn decimal_numerals() {
    assert_eq!(render_decimal(0), "0");
    assert_eq!(render_decimal(7), "7");
    assert_eq!(render_decimal(9), "9");
    assert_eq!(render_decimal(10), "10");
    assert_eq!(render_decimal(109), "109");
    assert_eq!(render_decimal(1234567890), "1234567890");
    assert_eq!(render_decimal(usize::MAX), usize::MAX.to_string());
    for n in 0..2000usize {
        assert_eq!(render_decimal(n), n.to_string());
    }
}

#[test]
fn same_as_compares_shape_and_text() {
    let tree = ParseArtifact::from_outcome(Ok(String::from("x")));
    let same = ParseArtifact::from_outcome(Ok(String::from("x")));
    let other_text = ParseArtifact::from_outcome(Ok(String::from("y")));
    let empty = ParseArtifact::empty();
    let empty_tree = ParseArtifact::from_outcome(Ok(String::new()));
    assert!(tree.same_as(&same));
    assert!(!tree.same_as(&other_text));
    assert!(!empty.same_as(&empty_tree));
    assert!(empty.same_as(&ParseArtifact::empty()));
}
