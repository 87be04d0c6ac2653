//! The token validator, the duplicate check, and the condition analyzer.

use semester::{
    build_class_specs, classes_impl, is_known, static_classes_impl, ClassRule, ClassToken,
    CompileError, CondExpr, Known, ValidationError,
};

fn rule(token: &str, condition: Option<CondExpr>) -> ClassRule {
    ClassRule { token: token.to_string(), condition }
}

#[test]
fn token_accepts_printable_ascii() {
    let token = ClassToken::parse("btn-primary_2".to_string()).unwrap();
    assert_eq!(token.as_str(), "btn-primary_2");
    assert_eq!(token.into_name(), "btn-primary_2");
}

#[test]
fn token_rejects_empty() {
    assert_eq!(ClassToken::parse("".to_string()), Err(ValidationError::EmptyToken));
}

#[test]
fn token_rejects_whitespace() {
    assert_eq!(
        ClassToken::parse("class pair".to_string()),
        Err(ValidationError::WhitespaceInToken)
    );
    assert_eq!(ClassToken::parse("a\tb".to_string()), Err(ValidationError::WhitespaceInToken));
    assert_eq!(
        ClassToken::parse("a\u{2028}b".to_string()),
        Err(ValidationError::WhitespaceInToken)
    );
}

#[test]
fn token_rejects_html_unsafe() {
    assert_eq!(
        ClassToken::parse("<injected-class>".to_string()),
        Err(ValidationError::UnsafeCharacter)
    );
    assert_eq!(ClassToken::parse("a&b".to_string()), Err(ValidationError::UnsafeCharacter));
    assert_eq!(ClassToken::parse("a'b\"c".to_string()), Err(ValidationError::UnsafeCharacter));
}

#[test]
fn token_rejects_non_printable() {
    assert_eq!(
        ClassToken::parse("null\0class".to_string()),
        Err(ValidationError::NonPrintableCharacter)
    );
    assert_eq!(
        ClassToken::parse("t\u{e4}g".to_string()),
        Err(ValidationError::NonPrintableCharacter)
    );
}

#[test]
fn token_checks_run_in_priority_order() {
    // whitespace is reported before the unsafe character and the
    // non-printable byte that the same token also contains
    assert_eq!(
        ClassToken::parse("a <\0".to_string()),
        Err(ValidationError::WhitespaceInToken)
    );
    // the unsafe character is reported before the non-printable byte
    assert_eq!(
        ClassToken::parse("a<\0".to_string()),
        Err(ValidationError::UnsafeCharacter)
    );
}

#[test]
fn builder_reports_lowest_invalid_token() {
    let rules = vec![rule("ok", None), rule("bad one", None), rule("", None)];
    assert_eq!(
        build_class_specs(rules),
        Err(CompileError::InvalidToken { index: 1, error: ValidationError::WhitespaceInToken })
    );
}

#[test]
fn duplicate_fails_even_when_one_occurrence_is_dead() {
    let rules = vec![rule("x", None), rule("x", Some(CondExpr::Lit(true)))];
    assert_eq!(
        classes_impl(rules).err(),
        Some(CompileError::DuplicateToken { first: 0, second: 1 })
    );

    let rules = vec![
        rule("x", Some(CondExpr::Lit(true))),
        rule("x", Some(CondExpr::Lit(false))),
    ];
    assert_eq!(
        static_classes_impl(rules).err(),
        Some(CompileError::DuplicateToken { first: 0, second: 1 })
    );
}

#[test]
fn duplicate_reports_earliest_pair() {
    let rules = vec![rule("a", None), rule("b", None), rule("b", None), rule("a", None)];
    assert_eq!(
        build_class_specs(rules),
        Err(CompileError::DuplicateToken { first: 1, second: 2 })
    );
}

#[test]
fn known_negation_follows_the_lattice() {
    assert_eq!(Known::True.not(), Known::False);
    assert_eq!(Known::False.not(), Known::True);
    assert_eq!(Known::Maybe.not(), Known::Maybe);
    // a divergent path stays divergent under negation: it is never
    // inverted to "always true"
    assert_eq!(Known::Never.not(), Known::Never);

    assert!(Known::False.is_false());
    assert!(Known::Never.is_false());
    assert!(!Known::Maybe.is_false());
    assert!(!Known::True.is_false());
    assert!(Known::True.is_true());
    assert!(!Known::Maybe.is_true());
}

#[test]
fn analyzer_classifies_by_shape() {
    assert_eq!(is_known(&CondExpr::Lit(true)), Known::True);
    assert_eq!(is_known(&CondExpr::Lit(false)), Known::False);
    assert_eq!(is_known(&CondExpr::Paren(Box::new(CondExpr::Lit(true)))), Known::True);
    assert_eq!(is_known(&CondExpr::Group(Box::new(CondExpr::Lit(false)))), Known::False);
    assert_eq!(
        is_known(&CondExpr::Block(Some(Box::new(CondExpr::Lit(false))))),
        Known::False
    );
    assert_eq!(is_known(&CondExpr::Block(None)), Known::Maybe);
    assert_eq!(is_known(&CondExpr::Divergent), Known::Never);
    assert_eq!(is_known(&CondExpr::Opaque), Known::Maybe);
    assert_eq!(is_known(&CondExpr::Not(Box::new(CondExpr::Lit(true)))), Known::False);
    assert_eq!(
        is_known(&CondExpr::Not(Box::new(CondExpr::Not(Box::new(CondExpr::Lit(true)))))),
        Known::True
    );
    assert_eq!(is_known(&CondExpr::Not(Box::new(CondExpr::Opaque))), Known::Maybe);
    assert_eq!(is_known(&CondExpr::Not(Box::new(CondExpr::Divergent))), Known::Never);
}

#[test]
fn builder_folds_and_strips_conditions() {
    let rules = vec![
        rule("kept", Some(CondExpr::Opaque)),
        rule("stripped", Some(CondExpr::Lit(true))),
        rule("dropped", Some(CondExpr::Lit(false))),
        rule("divergent", Some(CondExpr::Divergent)),
        rule("inverted-divergent", Some(CondExpr::Not(Box::new(CondExpr::Divergent)))),
        rule("plain", None),
    ];
    let specs = build_class_specs(rules).unwrap();
    let summary: Vec<(&str, bool)> =
        specs.iter().map(|s| (s.token.as_str(), s.condition.is_some())).collect();
    // the divergent entries are dropped like `false` ones, even under
    // negation; the statically true guard is stripped
    assert_eq!(summary, vec![("kept", true), ("stripped", false), ("plain", false)]);
}
