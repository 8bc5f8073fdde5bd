//! The ASN.1 type parser, as far as the Information Object System core needs
//! it: a field's type is either a base (builtin) type or a reference to a
//! type declared elsewhere. A referenced type contributes an edge to the
//! resolver's dependency graph; a base type contributes nothing.

use vstd::prelude::*;

use crate::error::{spec_mismatch, Error, ErrorModel};
use crate::token::{has_kind, Token, TokenKind};

verus! {

/// An ASN.1 type, as far as a class field declaration carries one.
pub enum Asn1Type {
    /// A builtin type, e.g. `INTEGER`; `name` is its keyword.
    Base { name: String },
    /// A reference to a type declared elsewhere, to be resolved later.
    Reference { name: String },
}

/// The mathematical value of an [`Asn1Type`].
pub enum TypeModel {
    Base { name: Seq<char> },
    Reference { name: Seq<char> },
}

impl View for Asn1Type {
    type V = TypeModel;

    open spec fn view(&self) -> TypeModel {
        match self {
            Asn1Type::Base { name } => TypeModel::Base { name: name@ },
            Asn1Type::Reference { name } => TypeModel::Reference { name: name@ },
        }
    }
}

/// The names of the other declarations a type depends on: the referenced
/// name for a type reference, nothing for a base type.
pub open spec fn spec_type_refs(t: TypeModel) -> Seq<Seq<char>> {
    match t {
        TypeModel::Reference { name } => seq![name],
        TypeModel::Base { .. } => Seq::empty(),
    }
}

/// The view of a sequence of owned strings as a sequence of character
/// sequences.
pub open spec fn strings_view(v: Seq<String>) -> Seq<Seq<char>> {
    v.map_values(|s: String| s@)
}

impl Asn1Type {
    /// The names of the other declarations this type depends on.
    pub fn dependent_references(&self) -> (r: Vec<String>)
        ensures
            strings_view(r@) == spec_type_refs(self@),
    {
        let mut out: Vec<String> = Vec::new();
        match self {
            Asn1Type::Reference { name } => {
                out.push(name.clone());
            },
            Asn1Type::Base { .. } => {},
        }
        proof {
            assert(strings_view(out@) =~= spec_type_refs(self@));
        }
        out
    }
}

/// The keyword of a base type this front end recognizes.
pub open spec fn is_base_type_word(w: Seq<char>) -> bool {
    w == "INTEGER"@ || w == "BOOLEAN"@ || w == "NULL"@
}

/// What the type parser returns on the token at `at`: a reference for an
/// uppercase-initial identifier, a base type for one of the builtin type
/// keywords, and a mismatch otherwise. One token is consumed either way.
pub open spec fn spec_parse_type(toks: Seq<Token>, at: int) -> Result<(TypeModel, nat), ErrorModel> {
    if has_kind(toks, at, TokenKind::UcIdentifier) {
        Ok((TypeModel::Reference { name: toks[at].text@ }, 1))
    } else if 0 <= at && at < toks.len() && toks[at].kind == TokenKind::Keyword
        && is_base_type_word(toks[at].text@) {
        Ok((TypeModel::Base { name: toks[at].text@ }, 1))
    } else {
        Err(spec_mismatch(toks, at, "a type"@))
    }
}

/// Parses one type starting at `tokens[at]`.
pub fn parse_type_at(tokens: &[Token], at: usize) -> (r: Result<(Asn1Type, usize), Error>)
    ensures
        match r {
            Ok((t, n)) => spec_parse_type(tokens@, at as int) == Ok::<_, ErrorModel>((t@, n as nat)),
            Err(e) => spec_parse_type(tokens@, at as int) == Err::<(TypeModel, nat), _>(e@),
        },
{
    if at < tokens.len() && tokens[at].kind == TokenKind::UcIdentifier {
        Ok((Asn1Type::Reference { name: tokens[at].text.clone() }, 1))
    } else if at < tokens.len() && tokens[at].kind == TokenKind::Keyword
        && (tokens[at].text == "INTEGER".to_owned() || tokens[at].text == "BOOLEAN".to_owned()
            || tokens[at].text == "NULL".to_owned()) {
        Ok((Asn1Type::Base { name: tokens[at].text.clone() }, 1))
    } else {
        Err(crate::error::mismatch_at(tokens, at, "a type"))
    }
}

/// Parses one type from the start of `tokens`, returning it with the number
/// of tokens consumed.
pub fn parse_type(tokens: &[Token]) -> (r: Result<(Asn1Type, usize), Error>)
    ensures
        match r {
            Ok((t, n)) => spec_parse_type(tokens@, 0) == Ok::<_, ErrorModel>((t@, n as nat)),
            Err(e) => spec_parse_type(tokens@, 0) == Err::<(TypeModel, nat), _>(e@),
        },
{
    parse_type_at(tokens, 0)
}

} // verus!
