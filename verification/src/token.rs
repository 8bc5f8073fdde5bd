//! Classified tokens, as the tokenizer hands them to the parsers.
//!
//! A token carries its raw text and a classification; the parsers only ever
//! look at tokens through the classification predicates below, which mirror
//! the shape classes of the ASN.1 grammar: delimiters, the extensibility
//! marker, reserved words, uppercase- and lowercase-initial identifiers, and
//! the two `&`-field-reference forms of the Information Object System.

use vstd::prelude::*;

verus! {

/// The shape class a token was given by the tokenizer.
#[derive(Clone, Copy, Debug, PartialEq, Eq, Structural)]
pub enum TokenKind {
    /// `{`
    CurlyBegin,
    /// `}`
    CurlyEnd,
    /// `[`
    SquareBegin,
    /// `]`
    SquareEnd,
    /// `,`
    Comma,
    /// `|`
    SetUnion,
    /// `...`
    Extension,
    /// A reserved word of the language, e.g. `CLASS`, `WITH`, `INTEGER`.
    Keyword,
    /// An uppercase-initial identifier: a type, class or object-set reference.
    UcIdentifier,
    /// A lowercase-initial identifier: a value or object reference.
    LcIdentifier,
    /// `&id` with a lowercase-initial identifier: a value field reference.
    ValueFieldReference,
    /// `&Id` with an uppercase-initial identifier: a type field reference.
    TypeFieldReference,
    /// A numeric literal.
    Number,
    /// A quoted string literal.
    QuotedString,
}

/// One classified token: its shape class and its raw text.
#[derive(Debug)]
pub struct Token {
    pub kind: TokenKind,
    pub text: String,
}

impl Clone for Token {
    /// Cloning a token keeps both the kind and the text.
    fn clone(&self) -> (r: Self)
        ensures
            r == *self,
    {
        Token { kind: self.kind, text: self.text.clone() }
    }
}

impl Token {
    pub open spec fn spec_is_value_field_reference(&self) -> bool {
        self.kind == TokenKind::ValueFieldReference
    }

    pub open spec fn spec_is_type_field_reference(&self) -> bool {
        self.kind == TokenKind::TypeFieldReference
    }

    /// An `&identifier` of either case, as referenced inside a WITH SYNTAX
    /// production.
    pub open spec fn spec_is_and_identifier(&self) -> bool {
        self.kind == TokenKind::ValueFieldReference || self.kind == TokenKind::TypeFieldReference
    }

    pub open spec fn spec_is_object_reference(&self) -> bool {
        self.kind == TokenKind::LcIdentifier
    }

    pub open spec fn spec_is_object_set_reference(&self) -> bool {
        self.kind == TokenKind::UcIdentifier
    }

    /// A reserved word may not serve as a literal word of a WITH SYNTAX
    /// production.
    pub open spec fn spec_is_with_syntax_reserved_word(&self) -> bool {
        self.kind == TokenKind::Keyword
    }

    pub fn is_value_field_reference(&self) -> (r: bool)
        ensures
            r == self.spec_is_value_field_reference(),
    {
        self.kind == TokenKind::ValueFieldReference
    }

    pub fn is_type_field_reference(&self) -> (r: bool)
        ensures
            r == self.spec_is_type_field_reference(),
    {
        self.kind == TokenKind::TypeFieldReference
    }

    pub fn is_and_identifier(&self) -> (r: bool)
        ensures
            r == self.spec_is_and_identifier(),
    {
        self.kind == TokenKind::ValueFieldReference || self.kind == TokenKind::TypeFieldReference
    }

    pub fn is_object_reference(&self) -> (r: bool)
        ensures
            r == self.spec_is_object_reference(),
    {
        self.kind == TokenKind::LcIdentifier
    }

    pub fn is_object_set_reference(&self) -> (r: bool)
        ensures
            r == self.spec_is_object_set_reference(),
    {
        self.kind == TokenKind::UcIdentifier
    }

    pub fn is_with_syntax_reserved_word(&self) -> (r: bool)
        ensures
            r == self.spec_is_with_syntax_reserved_word(),
    {
        self.kind == TokenKind::Keyword
    }
}

/// The token at `at` exists and has kind `k`.
pub open spec fn has_kind(toks: Seq<Token>, at: int, k: TokenKind) -> bool {
    0 <= at < toks.len() && toks[at].kind == k
}

/// The token at `at` exists and is the reserved word whose text is `w`.
pub open spec fn has_keyword(toks: Seq<Token>, at: int, w: Seq<char>) -> bool {
    0 <= at < toks.len() && toks[at].kind == TokenKind::Keyword && toks[at].text@ == w
}

/// The token at `at` exists and is an `&identifier` of either case.
pub open spec fn has_and_identifier(toks: Seq<Token>, at: int) -> bool {
    0 <= at < toks.len() && toks[at].spec_is_and_identifier()
}

/// Does the token at `at` (if any) have kind `k`?
pub fn peek_kind(tokens: &[Token], at: usize, k: TokenKind) -> (r: bool)
    ensures
        r == has_kind(tokens@, at as int, k),
{
    if at < tokens.len() {
        tokens[at].kind == k
    } else {
        false
    }
}

/// Is the token at `at` (if any) the reserved word `w`?
pub fn peek_keyword(tokens: &[Token], at: usize, w: &str) -> (r: bool)
    ensures
        r == has_keyword(tokens@, at as int, w@),
{
    if at < tokens.len() && tokens[at].kind == TokenKind::Keyword {
        tokens[at].text == w.to_owned()
    } else {
        false
    }
}

/// Is the token at `at` (if any) an `&identifier` of either case?
pub fn peek_and_identifier(tokens: &[Token], at: usize) -> (r: bool)
    ensures
        r == has_and_identifier(tokens@, at as int),
{
    if at < tokens.len() {
        tokens[at].is_and_identifier()
    } else {
        false
    }
}

} // verus!
