//! Tests for the Information Object System parsers and the reference
//! collectors, on concrete token streams.

use ioc_parser::error::Error;
use ioc_parser::ioc::{Asn1ObjectSet, ObjectClassFieldSpec, ObjectSet, ObjectSetElement};
use ioc_parser::parse_ioc::{
    parse_class, parse_field_spec, parse_fixed_type_value_field_spec, parse_object_set,
    parse_type_field_spec, parse_with_syntax_for_fields,
};
use ioc_parser::token::{Token, TokenKind};
use ioc_parser::types::{parse_type, Asn1Type};
use ioc_parser::values::{parse_set_ish_value, parse_value};

fn tok(kind: TokenKind, text: &str) -> Token {
    Token { kind, text: text.to_string() }
}

fn kw(text: &str) -> Token {
    tok(TokenKind::Keyword, text)
}

fn curly_begin() -> Token {
    tok(TokenKind::CurlyBegin, "{")
}

fn curly_end() -> Token {
    tok(TokenKind::CurlyEnd, "}")
}

fn comma() -> Token {
    tok(TokenKind::Comma, ",")
}

fn vfr(text: &str) -> Token {
    tok(TokenKind::ValueFieldReference, text)
}

fn tfr(text: &str) -> Token {
    tok(TokenKind::TypeFieldReference, text)
}

fn uc(text: &str) -> Token {
    tok(TokenKind::UcIdentifier, text)
}

fn lc(text: &str) -> Token {
    tok(TokenKind::LcIdentifier, text)
}

#[test]
fn class_single_unique_integer_field() {
    let tokens = vec![
        kw("CLASS"),
        curly_begin(),
        vfr("id"),
        kw("INTEGER"),
        kw("UNIQUE"),
        curly_end(),
    ];
    let (class, consumed) = parse_class(&tokens).unwrap();
    assert_eq!(consumed, 6);
    assert_eq!(class.fields.len(), 1);
    match &class.fields[0] {
        ObjectClassFieldSpec::FixedTypeValue {
            id,
            field_type,
            unique,
            default,
            optional,
            with_syntax,
            resolved,
        } => {
            assert_eq!(id, "id");
            assert!(matches!(field_type, Asn1Type::Base { name } if name == "INTEGER"));
            assert!(*unique);
            assert!(!*optional);
            assert!(default.is_none());
            assert!(with_syntax.is_none());
            assert!(!*resolved);
        },
        _ => panic!("expected a fixed-type value field"),
    }
}

#[test]
fn unique_and_default_conflict_base_type() {
    let tokens = vec![vfr("id"), kw("INTEGER"), kw("UNIQUE"), kw("DEFAULT"), lc("five")];
    match parse_fixed_type_value_field_spec(&tokens) {
        Err(Error::SemanticError { message }) => {
            assert_eq!(message, "Both 'UNIQUE' and 'DEFAULT' cannot be specified together!");
        },
        other => panic!("expected a semantic error, got {:?}", other.is_ok()),
    }
}

#[test]
fn unique_and_default_conflict_referenced_type() {
    let tokens = vec![vfr("id"), uc("SomeType"), kw("UNIQUE"), kw("DEFAULT"), lc("v")];
    assert!(matches!(
        parse_field_spec(&tokens),
        Err(Error::SemanticError { .. })
    ));
}

#[test]
fn with_syntax_unknown_field_names_the_id() {
    let tokens = vec![
        kw("CLASS"),
        curly_begin(),
        vfr("id"),
        kw("INTEGER"),
        curly_end(),
        kw("WITH"),
        kw("SYNTAX"),
        curly_begin(),
        uc("ID"),
        vfr("missing"),
        curly_end(),
    ];
    match parse_class(&tokens) {
        Err(Error::SemanticError { message }) => {
            assert_eq!(message, "Field missing Not found in Class but found in WITH SYNTAX");
        },
        _ => panic!("expected a semantic error naming the unknown id"),
    }
}

#[test]
fn optional_group_over_mandatory_field_fails() {
    let tokens = vec![
        kw("CLASS"),
        curly_begin(),
        vfr("id"),
        kw("INTEGER"),
        curly_end(),
        kw("WITH"),
        kw("SYNTAX"),
        curly_begin(),
        tok(TokenKind::SquareBegin, "["),
        uc("ID"),
        vfr("id"),
        tok(TokenKind::SquareEnd, "]"),
        curly_end(),
    ];
    match parse_class(&tokens) {
        Err(Error::SemanticError { message }) => {
            assert!(message.contains("Optional Group"));
            assert!(message.contains("id"));
        },
        _ => panic!("expected a semantic error for the optional group"),
    }
}

#[test]
fn optional_group_over_optional_field_binds() {
    let tokens = vec![
        kw("CLASS"),
        curly_begin(),
        vfr("id"),
        kw("INTEGER"),
        kw("OPTIONAL"),
        curly_end(),
        kw("WITH"),
        kw("SYNTAX"),
        curly_begin(),
        tok(TokenKind::SquareBegin, "["),
        uc("ID"),
        vfr("id"),
        tok(TokenKind::SquareEnd, "]"),
        curly_end(),
    ];
    let (class, consumed) = parse_class(&tokens).unwrap();
    assert_eq!(consumed, tokens.len());
    match &class.fields[0] {
        ObjectClassFieldSpec::FixedTypeValue { with_syntax, optional, .. } => {
            assert!(*optional);
            assert_eq!(with_syntax.as_deref(), Some("ID"));
        },
        _ => panic!("expected a fixed-type value field"),
    }
}

#[test]
fn consumed_count_lets_a_second_construct_follow() {
    // A class followed directly by an object set in one buffer: parsing the
    // class reports how much it consumed, and the object set parses from
    // exactly that point.
    let mut tokens = vec![
        kw("CLASS"),
        curly_begin(),
        vfr("id"),
        kw("INTEGER"),
        kw("UNIQUE"),
        curly_end(),
    ];
    let class_len = tokens.len();
    tokens.extend(vec![curly_begin(), lc("alpha"), comma(), uc("BetaSet"), curly_end()]);
    let (_, consumed) = parse_class(&tokens).unwrap();
    assert_eq!(consumed, class_len);
    let (set, set_consumed) = parse_object_set(&tokens[consumed..]).unwrap();
    assert_eq!(set_consumed, 5);
    assert_eq!(set.root_elements.len(), 2);
}

#[test]
fn object_set_extension_marker_splits_root_and_additional() {
    let tokens = vec![
        curly_begin(),
        lc("a"),
        comma(),
        lc("b"),
        comma(),
        tok(TokenKind::Extension, "..."),
        comma(),
        lc("c"),
        curly_end(),
    ];
    let (set, consumed) = parse_object_set(&tokens).unwrap();
    assert_eq!(consumed, tokens.len());
    assert_eq!(set.root_elements.len(), 2);
    assert!(matches!(&set.root_elements[0], ObjectSetElement::ObjectReference(n) if n == "a"));
    assert!(matches!(&set.root_elements[1], ObjectSetElement::ObjectReference(n) if n == "b"));
    assert_eq!(set.additional_elements.len(), 1);
    assert!(
        matches!(&set.additional_elements[0], ObjectSetElement::ObjectReference(n) if n == "c")
    );
}

#[test]
fn object_set_second_extension_marker_rejected() {
    let tokens = vec![
        curly_begin(),
        lc("a"),
        comma(),
        tok(TokenKind::Extension, "..."),
        comma(),
        lc("b"),
        comma(),
        tok(TokenKind::Extension, "..."),
        comma(),
        lc("c"),
        curly_end(),
    ];
    match parse_object_set(&tokens) {
        Err(Error::SemanticError { message }) => {
            assert_eq!(message, "More than one extension markers found!");
        },
        _ => panic!("expected a semantic error for the second marker"),
    }
}

#[test]
fn object_set_reference_kinds() {
    let tokens = vec![curly_begin(), uc("SetRef"), comma(), lc("objRef"), curly_end()];
    let (set, _) = parse_object_set(&tokens).unwrap();
    assert!(
        matches!(&set.root_elements[0], ObjectSetElement::ObjectSetReference(n) if n == "SetRef")
    );
    assert!(matches!(&set.root_elements[1], ObjectSetElement::ObjectReference(n) if n == "objRef"));
}

#[test]
fn object_set_inline_object_kept_as_text() {
    let tokens = vec![
        curly_begin(),
        curly_begin(),
        lc("x"),
        comma(),
        lc("y"),
        curly_end(),
        curly_end(),
    ];
    let (set, consumed) = parse_object_set(&tokens).unwrap();
    assert_eq!(consumed, tokens.len());
    assert_eq!(set.root_elements.len(), 1);
    assert!(matches!(&set.root_elements[0], ObjectSetElement::Object(t) if t == "{ x , y }"));
}

#[test]
fn object_set_unterminated_input_is_an_error() {
    let tokens = vec![curly_begin(), lc("a"), comma()];
    match parse_object_set(&tokens) {
        Err(Error::TokenMismatch { found, .. }) => assert!(found.is_none()),
        _ => panic!("expected an end-of-input mismatch"),
    }
}

#[test]
fn class_dependent_references_deduplicates() {
    let tokens = vec![
        kw("CLASS"),
        curly_begin(),
        vfr("a"),
        uc("T1"),
        comma(),
        vfr("b"),
        uc("T2"),
        comma(),
        vfr("c"),
        uc("T1"),
        comma(),
        vfr("d"),
        kw("INTEGER"),
        curly_end(),
    ];
    let (class, _) = parse_class(&tokens).unwrap();
    let refs = class.dependent_references();
    assert_eq!(refs, vec!["T1".to_string(), "T2".to_string()]);
}

#[test]
fn object_set_dependent_references_in_order() {
    let set = ObjectSet {
        root_elements: vec![
            ObjectSetElement::ObjectReference("a".to_string()),
            ObjectSetElement::Object("{ x }".to_string()),
            ObjectSetElement::ObjectSetReference("B".to_string()),
        ],
        additional_elements: vec![ObjectSetElement::ObjectReference("c".to_string())],
    };
    assert_eq!(
        set.dependent_references(),
        vec!["a".to_string(), "B".to_string(), "c".to_string()]
    );
}

#[test]
fn named_object_set_dependent_references_start_with_class() {
    let named = Asn1ObjectSet {
        class: "MY-CLASS".to_string(),
        objects: ObjectSet {
            root_elements: vec![ObjectSetElement::ObjectSetReference("S".to_string())],
            additional_elements: vec![],
        },
    };
    assert_eq!(
        named.dependent_references(),
        vec!["MY-CLASS".to_string(), "S".to_string()]
    );
}

#[test]
fn end_to_end_class_with_syntax() {
    // MY-CLASS ::= CLASS { &id INTEGER UNIQUE, &Type OPTIONAL }
    //              WITH SYNTAX { ID &id TYPE &Type }
    let tokens = vec![
        kw("CLASS"),
        curly_begin(),
        vfr("id"),
        kw("INTEGER"),
        kw("UNIQUE"),
        comma(),
        tfr("Type"),
        kw("OPTIONAL"),
        curly_end(),
        kw("WITH"),
        kw("SYNTAX"),
        curly_begin(),
        uc("ID"),
        vfr("id"),
        uc("TYPE"),
        tfr("Type"),
        curly_end(),
    ];
    let (class, consumed) = parse_class(&tokens).unwrap();
    assert_eq!(consumed, tokens.len());
    assert_eq!(class.fields.len(), 2);
    match &class.fields[0] {
        ObjectClassFieldSpec::FixedTypeValue { id, unique, with_syntax, .. } => {
            assert_eq!(id, "id");
            assert!(*unique);
            assert_eq!(with_syntax.as_deref(), Some("ID"));
        },
        _ => panic!("expected the fixed-type value field first"),
    }
    match &class.fields[1] {
        ObjectClassFieldSpec::Type { id, optional, with_syntax, .. } => {
            assert_eq!(id, "Type");
            assert!(*optional);
            assert_eq!(with_syntax.as_deref(), Some("TYPE"));
        },
        _ => panic!("expected the type field second"),
    }
}

#[test]
fn with_syntax_absent_consumes_nothing() {
    let mut fields = vec![];
    let tokens = vec![kw("CLASS")];
    assert_eq!(parse_with_syntax_for_fields(&tokens, &mut fields).unwrap(), 0);
}

#[test]
fn with_syntax_reserved_word_rejected() {
    let tokens = vec![
        kw("CLASS"),
        curly_begin(),
        vfr("id"),
        kw("INTEGER"),
        curly_end(),
        kw("WITH"),
        kw("SYNTAX"),
        curly_begin(),
        kw("INTEGER"),
        vfr("id"),
        curly_end(),
    ];
    match parse_class(&tokens) {
        Err(Error::SemanticError { message }) => {
            assert_eq!(message, "Found a WITH SYNTAX RESERVED Word!");
        },
        _ => panic!("expected a semantic error for the reserved word"),
    }
}

#[test]
fn with_syntax_unmatched_open_group() {
    let tokens = vec![
        kw("CLASS"),
        curly_begin(),
        vfr("id"),
        kw("INTEGER"),
        kw("OPTIONAL"),
        curly_end(),
        kw("WITH"),
        kw("SYNTAX"),
        curly_begin(),
        tok(TokenKind::SquareBegin, "["),
        uc("ID"),
        vfr("id"),
        curly_end(),
    ];
    match parse_class(&tokens) {
        Err(Error::SemanticError { message }) => {
            assert_eq!(message, "Unmatched ']' for Optional Group");
        },
        _ => panic!("expected a semantic error for the open group"),
    }
}

#[test]
fn with_syntax_stray_close_bracket() {
    let tokens = vec![
        kw("CLASS"),
        curly_begin(),
        vfr("id"),
        kw("INTEGER"),
        curly_end(),
        kw("WITH"),
        kw("SYNTAX"),
        curly_begin(),
        uc("ID"),
        vfr("id"),
        tok(TokenKind::SquareEnd, "]"),
        curly_end(),
    ];
    assert!(matches!(parse_class(&tokens), Err(Error::TokenMismatch { .. })));
}

#[test]
fn with_syntax_multi_word_label() {
    let tokens = vec![
        kw("CLASS"),
        curly_begin(),
        vfr("id"),
        kw("INTEGER"),
        curly_end(),
        kw("WITH"),
        kw("SYNTAX"),
        curly_begin(),
        uc("CODE"),
        uc("FOR"),
        vfr("id"),
        curly_end(),
    ];
    let (class, _) = parse_class(&tokens).unwrap();
    match &class.fields[0] {
        ObjectClassFieldSpec::FixedTypeValue { with_syntax, .. } => {
            assert_eq!(with_syntax.as_deref(), Some("CODE FOR"));
        },
        _ => panic!("expected a fixed-type value field"),
    }
}

#[test]
fn duplicate_field_id_rejected() {
    let tokens = vec![
        kw("CLASS"),
        curly_begin(),
        vfr("id"),
        kw("INTEGER"),
        comma(),
        vfr("id"),
        kw("BOOLEAN"),
        curly_end(),
    ];
    match parse_class(&tokens) {
        Err(Error::SemanticError { message }) => {
            assert!(message.contains("Duplicate field"));
            assert!(message.contains("id"));
        },
        _ => panic!("expected a semantic error for the duplicate id"),
    }
}

#[test]
fn class_keyword_required() {
    let tokens = vec![kw("OBJECT")];
    match parse_class(&tokens) {
        Err(Error::TokenMismatch { expected, found }) => {
            assert_eq!(expected, "'CLASS'");
            assert!(matches!(found, Some(t) if t.text == "OBJECT"));
        },
        _ => panic!("expected a token mismatch"),
    }
}

#[test]
fn class_empty_input_reports_end() {
    let tokens: Vec<Token> = vec![];
    match parse_class(&tokens) {
        Err(Error::TokenMismatch { found, .. }) => assert!(found.is_none()),
        _ => panic!("expected an end-of-input mismatch"),
    }
}

#[test]
fn class_trailing_comma_is_an_error() {
    let tokens = vec![
        kw("CLASS"),
        curly_begin(),
        vfr("id"),
        kw("INTEGER"),
        comma(),
        curly_end(),
    ];
    assert!(matches!(parse_class(&tokens), Err(Error::SemanticError { .. })));
}

#[test]
fn unsupported_field_spec_rejected() {
    let tokens = vec![kw("CLASS"), curly_begin(), lc("oops"), curly_end()];
    match parse_class(&tokens) {
        Err(Error::SemanticError { message }) => {
            assert_eq!(message, "Unsupported Field Spec in CLASS Definition");
        },
        _ => panic!("expected a semantic error"),
    }
}

#[test]
fn type_field_spec_default_type() {
    let tokens = vec![tfr("Type"), kw("DEFAULT"), kw("NULL")];
    let (field, consumed) = parse_type_field_spec(&tokens).unwrap();
    assert_eq!(consumed, 3);
    match field {
        ObjectClassFieldSpec::Type { id, default, optional, .. } => {
            assert_eq!(id, "Type");
            assert!(!optional);
            assert!(matches!(default, Some(Asn1Type::Base { name }) if name == "NULL"));
        },
        _ => panic!("expected a type field"),
    }
}

#[test]
fn field_getters_report_id_and_resolved() {
    let tokens = vec![vfr("code"), uc("Code")];
    let (field, _) = parse_field_spec(&tokens).unwrap();
    assert_eq!(field.id(), "code");
    assert!(!field.resolved());
}

#[test]
fn parse_type_accepts_base_and_reference() {
    let (t, n) = parse_type(&[kw("BOOLEAN")]).unwrap();
    assert_eq!(n, 1);
    assert!(matches!(t, Asn1Type::Base { name } if name == "BOOLEAN"));
    let (t, _) = parse_type(&[uc("Other")]).unwrap();
    assert!(matches!(t, Asn1Type::Reference { name } if name == "Other"));
    assert!(parse_type(&[lc("nope")]).is_err());
}

#[test]
fn type_dependent_references() {
    let base = Asn1Type::Base { name: "INTEGER".to_string() };
    assert!(base.dependent_references().is_empty());
    let reference = Asn1Type::Reference { name: "T9".to_string() };
    assert_eq!(reference.dependent_references(), vec!["T9".to_string()]);
}

#[test]
fn parse_value_single_token() {
    let (v, n) = parse_value(&[tok(TokenKind::Number, "5")]).unwrap();
    assert_eq!((v.as_str(), n), ("5", 1));
    assert!(parse_value(&[curly_end()]).is_err());
}

#[test]
fn set_ish_value_joins_tokens() {
    let tokens = vec![curly_begin(), lc("a"), curly_begin(), lc("b"), curly_end(), curly_end()];
    let (text, consumed) = parse_set_ish_value(&tokens).unwrap();
    assert_eq!(consumed, 6);
    assert_eq!(text, "{ a { b } }");
}

#[test]
fn set_ish_value_unclosed_is_an_error() {
    let tokens = vec![curly_begin(), lc("a")];
    assert!(parse_set_ish_value(&tokens).is_err());
}
