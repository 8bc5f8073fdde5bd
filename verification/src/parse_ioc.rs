//! Parsers for the Information Object System constructs: class field specs,
//! `CLASS { ... }` with its optional `WITH SYNTAX` clause, and object sets.
//!
//! Each parser takes a token slice positioned at the start of its construct
//! and returns the parsed structure with the number of tokens consumed, or
//! an error. Each is proved to return exactly what the corresponding
//! `spec_parse_*` function describes, so the contracts pin success, failure,
//! the parsed value and the consumed count for every input.

use vstd::prelude::*;
use vstd::string::StringExecFns;

use crate::error::{mismatch_at, spec_mismatch, spec_semantic, Error, ErrorModel};
use crate::ioc::{
    elems_view, Asn1ObjectClass, FieldSpecModel, ObjectClassFieldSpec, ObjectSet,
    ObjectSetElement, ObjectSetElementModel, ObjectSetModel,
};
use crate::token::{has_and_identifier, has_keyword, has_kind, Token, TokenKind};
use crate::types::{spec_parse_type, parse_type_at, TypeModel};
use crate::values::{
    parse_set_ish_value_at, parse_value_at, spec_parse_set_ish, spec_parse_value,
};

verus! {

/// What the field-spec parser returns on a `&id`-style (value field
/// reference) declaration at `at`: the id token, a type, an optional
/// `UNIQUE`, then at most one of `OPTIONAL` or `DEFAULT <value>`. `UNIQUE`
/// together with `DEFAULT` is a semantic error: a value required to be
/// unique cannot also carry a default.
pub open spec fn spec_parse_fixed_field(toks: Seq<Token>, at: int) -> Result<
    (FieldSpecModel, nat),
    ErrorModel,
> {
    if !has_kind(toks, at, TokenKind::ValueFieldReference) {
        Err(spec_mismatch(toks, at, "'VALUE FIELD REF'"@))
    } else {
        let id = toks[at].text@;
        match spec_parse_type(toks, at + 1) {
            Err(e) => Err(e),
            Ok((ty, n1)) => {
                let unique = has_keyword(toks, at + 1 + n1, "UNIQUE"@);
                let at2 = if unique {
                    at + 2 + n1
                } else {
                    at + 1 + n1
                };
                if has_keyword(toks, at2, "OPTIONAL"@) {
                    Ok(
                        (
                            FieldSpecModel::FixedTypeValue {
                                id,
                                field_type: ty,
                                unique,
                                default: None,
                                optional: true,
                                with_syntax: None,
                                resolved: false,
                            },
                            (at2 + 1 - at) as nat,
                        ),
                    )
                } else if has_keyword(toks, at2, "DEFAULT"@) {
                    match spec_parse_value(toks, at2 + 1) {
                        Err(e) => Err(e),
                        Ok((v, n2)) => {
                            if unique {
                                Err(
                                    spec_semantic(
                                        "Both 'UNIQUE' and 'DEFAULT' cannot be specified together!"@,
                                    ),
                                )
                            } else {
                                Ok(
                                    (
                                        FieldSpecModel::FixedTypeValue {
                                            id,
                                            field_type: ty,
                                            unique: false,
                                            default: Some(v),
                                            optional: false,
                                            with_syntax: None,
                                            resolved: false,
                                        },
                                        (at2 + 1 + n2 - at) as nat,
                                    ),
                                )
                            }
                        },
                    }
                } else {
                    Ok(
                        (
                            FieldSpecModel::FixedTypeValue {
                                id,
                                field_type: ty,
                                unique,
                                default: None,
                                optional: false,
                                with_syntax: None,
                                resolved: false,
                            },
                            (at2 - at) as nat,
                        ),
                    )
                }
            },
        }
    }
}

/// What the field-spec parser returns on a `&Type`-style (type field
/// reference) declaration at `at`: the id token, then at most one of
/// `OPTIONAL` or `DEFAULT <type>`.
pub open spec fn spec_parse_type_field(toks: Seq<Token>, at: int) -> Result<
    (FieldSpecModel, nat),
    ErrorModel,
> {
    if !has_kind(toks, at, TokenKind::TypeFieldReference) {
        Err(spec_mismatch(toks, at, "'TYPE FIELD REF'"@))
    } else {
        let id = toks[at].text@;
        if has_keyword(toks, at + 1, "OPTIONAL"@) {
            Ok(
                (
                    FieldSpecModel::Type {
                        id,
                        default: None,
                        optional: true,
                        with_syntax: None,
                        resolved: false,
                    },
                    2,
                ),
            )
        } else if has_keyword(toks, at + 1, "DEFAULT"@) {
            match spec_parse_type(toks, at + 2) {
                Err(e) => Err(e),
                Ok((ty, n)) => Ok(
                    (
                        FieldSpecModel::Type {
                            id,
                            default: Some(ty),
                            optional: false,
                            with_syntax: None,
                            resolved: false,
                        },
                        2 + n,
                    ),
                ),
            }
        } else {
            Ok(
                (
                    FieldSpecModel::Type {
                        id,
                        default: None,
                        optional: false,
                        with_syntax: None,
                        resolved: false,
                    },
                    1,
                ),
            )
        }
    }
}

/// What the field-spec parser returns at `at`: a fixed-type value field for
/// a value field reference, a type field for a type field reference, and a
/// semantic error for anything else.
pub open spec fn spec_parse_field(toks: Seq<Token>, at: int) -> Result<
    (FieldSpecModel, nat),
    ErrorModel,
> {
    if has_kind(toks, at, TokenKind::ValueFieldReference) {
        spec_parse_fixed_field(toks, at)
    } else if has_kind(toks, at, TokenKind::TypeFieldReference) {
        spec_parse_type_field(toks, at)
    } else {
        Err(spec_semantic("Unsupported Field Spec in CLASS Definition"@))
    }
}

/// A successful field-spec parse consumes at least one token and stays
/// within the token sequence.
pub proof fn lemma_parse_field_bound(toks: Seq<Token>, at: int)
    ensures
        spec_parse_field(toks, at) matches Ok((f, n)) ==> 1 <= n && at + n <= toks.len() && at
            >= 0,
{
}

/// Parses one fixed-type value field spec starting at `tokens[at]`.
fn parse_fixed_type_value_field_spec_at(tokens: &[Token], at: usize) -> (r: Result<
    (ObjectClassFieldSpec, usize),
    Error,
>)
    ensures
        match r {
            Ok((f, n)) => spec_parse_fixed_field(tokens@, at as int) == Ok::<_, ErrorModel>(
                (f@, n as nat),
            ) && n <= tokens@.len(),
            Err(e) => spec_parse_fixed_field(tokens@, at as int) == Err::<(FieldSpecModel, nat), _>(
                e@,
            ),
        },
{
    if !(at < tokens.len() && tokens[at].kind == TokenKind::ValueFieldReference) {
        return Err(mismatch_at(tokens, at, "'VALUE FIELD REF'"));
    }
    let id = tokens[at].text.clone();
    let (field_type, n1) = match parse_type_at(tokens, at + 1) {
        Ok(tn) => tn,
        Err(e) => {
            return Err(e);
        },
    };
    let mut consumed = 1 + n1;
    let unique = crate::token::peek_keyword(tokens, at + consumed, "UNIQUE");
    if unique {
        consumed = consumed + 1;
    }
    if crate::token::peek_keyword(tokens, at + consumed, "OPTIONAL") {
        consumed = consumed + 1;
        Ok(
            (
                ObjectClassFieldSpec::FixedTypeValue {
                    id,
                    field_type,
                    unique,
                    default: None,
                    optional: true,
                    with_syntax: None,
                    resolved: false,
                },
                consumed,
            ),
        )
    } else if crate::token::peek_keyword(tokens, at + consumed, "DEFAULT") {
        consumed = consumed + 1;
        let (value, n2) = match parse_value_at(tokens, at + consumed) {
            Ok(vn) => vn,
            Err(e) => {
                return Err(e);
            },
        };
        consumed = consumed + n2;
        if unique {
            return Err(
                Error::SemanticError {
                    message: "Both 'UNIQUE' and 'DEFAULT' cannot be specified together!".to_owned(),
                },
            );
        }
        Ok(
            (
                ObjectClassFieldSpec::FixedTypeValue {
                    id,
                    field_type,
                    unique: false,
                    default: Some(value),
                    optional: false,
                    with_syntax: None,
                    resolved: false,
                },
                consumed,
            ),
        )
    } else {
        Ok(
            (
                ObjectClassFieldSpec::FixedTypeValue {
                    id,
                    field_type,
                    unique,
                    default: None,
                    optional: false,
                    with_syntax: None,
                    resolved: false,
                },
                consumed,
            ),
        )
    }
}

/// Parses one type field spec starting at `tokens[at]`.
fn parse_type_field_spec_at(tokens: &[Token], at: usize) -> (r: Result<
    (ObjectClassFieldSpec, usize),
    Error,
>)
    ensures
        match r {
            Ok((f, n)) => spec_parse_type_field(tokens@, at as int) == Ok::<_, ErrorModel>(
                (f@, n as nat),
            ) && n <= tokens@.len(),
            Err(e) => spec_parse_type_field(tokens@, at as int) == Err::<(FieldSpecModel, nat), _>(
                e@,
            ),
        },
{
    if !(at < tokens.len() && tokens[at].kind == TokenKind::TypeFieldReference) {
        return Err(mismatch_at(tokens, at, "'TYPE FIELD REF'"));
    }
    let id = tokens[at].text.clone();
    if crate::token::peek_keyword(tokens, at + 1, "OPTIONAL") {
        Ok(
            (
                ObjectClassFieldSpec::Type {
                    id,
                    default: None,
                    optional: true,
                    with_syntax: None,
                    resolved: false,
                },
                2,
            ),
        )
    } else if crate::token::peek_keyword(tokens, at + 1, "DEFAULT") {
        let (ty, n) = match parse_type_at(tokens, at + 2) {
            Ok(tn) => tn,
            Err(e) => {
                return Err(e);
            },
        };
        Ok(
            (
                ObjectClassFieldSpec::Type {
                    id,
                    default: Some(ty),
                    optional: false,
                    with_syntax: None,
                    resolved: false,
                },
                2 + n,
            ),
        )
    } else {
        Ok(
            (
                ObjectClassFieldSpec::Type {
                    id,
                    default: None,
                    optional: false,
                    with_syntax: None,
                    resolved: false,
                },
                1,
            ),
        )
    }
}

/// Parses one field spec starting at `tokens[at]`.
fn parse_field_spec_at(tokens: &[Token], at: usize) -> (r: Result<
    (ObjectClassFieldSpec, usize),
    Error,
>)
    ensures
        match r {
            Ok((f, n)) => spec_parse_field(tokens@, at as int) == Ok::<_, ErrorModel>(
                (f@, n as nat),
            ) && n <= tokens@.len(),
            Err(e) => spec_parse_field(tokens@, at as int) == Err::<(FieldSpecModel, nat), _>(e@),
        },
{
    if at < tokens.len() && tokens[at].kind == TokenKind::ValueFieldReference {
        parse_fixed_type_value_field_spec_at(tokens, at)
    } else if at < tokens.len() && tokens[at].kind == TokenKind::TypeFieldReference {
        parse_type_field_spec_at(tokens, at)
    } else {
        Err(
            Error::SemanticError {
                message: "Unsupported Field Spec in CLASS Definition".to_owned(),
            },
        )
    }
}

/// Parses one fixed-type value field spec (`&id Type [UNIQUE] [OPTIONAL |
/// DEFAULT value]`) from the start of `tokens`.
pub fn parse_fixed_type_value_field_spec(tokens: &[Token]) -> (r: Result<
    (ObjectClassFieldSpec, usize),
    Error,
>)
    ensures
        match r {
            Ok((f, n)) => spec_parse_fixed_field(tokens@, 0) == Ok::<_, ErrorModel>(
                (f@, n as nat),
            ),
            Err(e) => spec_parse_fixed_field(tokens@, 0) == Err::<(FieldSpecModel, nat), _>(e@),
        },
{
    parse_fixed_type_value_field_spec_at(tokens, 0)
}

/// Parses one type field spec (`&Type [OPTIONAL | DEFAULT Type]`) from the
/// start of `tokens`.
pub fn parse_type_field_spec(tokens: &[Token]) -> (r: Result<(ObjectClassFieldSpec, usize), Error>)
    ensures
        match r {
            Ok((f, n)) => spec_parse_type_field(tokens@, 0) == Ok::<_, ErrorModel>((f@, n as nat)),
            Err(e) => spec_parse_type_field(tokens@, 0) == Err::<(FieldSpecModel, nat), _>(e@),
        },
{
    parse_type_field_spec_at(tokens, 0)
}

/// Parses one field spec of either kind from the start of `tokens`.
pub fn parse_field_spec(tokens: &[Token]) -> (r: Result<(ObjectClassFieldSpec, usize), Error>)
    ensures
        match r {
            Ok((f, n)) => spec_parse_field(tokens@, 0) == Ok::<_, ErrorModel>((f@, n as nat)),
            Err(e) => spec_parse_field(tokens@, 0) == Err::<(FieldSpecModel, nat), _>(e@),
        },
{
    parse_field_spec_at(tokens, 0)
}

/// The index of the first field of `fs` whose id is `id`, scanning from
/// `i`; the length of `fs` if there is none.
pub open spec fn spec_field_index_from(fs: Seq<FieldSpecModel>, id: Seq<char>, i: int) -> int
    decreases fs.len() - i,
{
    if i < 0 || i >= fs.len() {
        fs.len() as int
    } else if fs[i].id() == id {
        i
    } else {
        spec_field_index_from(fs, id, i + 1)
    }
}

/// The index of the first field of `fs` whose id is `id`; the length of
/// `fs` if there is none.
pub open spec fn spec_field_index(fs: Seq<FieldSpecModel>, id: Seq<char>) -> int {
    spec_field_index_from(fs, id, 0)
}

/// Some field of `fs` has id `id`.
pub open spec fn spec_has_field_id(fs: Seq<FieldSpecModel>, id: Seq<char>) -> bool {
    spec_field_index(fs, id) < fs.len()
}

/// `spec_field_index` points at the first field with the given id, and past
/// the end exactly when no field has it.
pub proof fn lemma_field_index(fs: Seq<FieldSpecModel>, id: Seq<char>)
    ensures
        0 <= spec_field_index(fs, id) <= fs.len(),
        spec_field_index(fs, id) < fs.len() ==> fs[spec_field_index(fs, id)].id() == id,
        forall|j: int| 0 <= j < spec_field_index(fs, id) ==> fs[j].id() != id,
        spec_field_index(fs, id) == fs.len() ==> forall|j: int|
            0 <= j < fs.len() ==> fs[j].id() != id,
{
    lemma_field_index_from(fs, id, 0);
}

proof fn lemma_field_index_from(fs: Seq<FieldSpecModel>, id: Seq<char>, i: int)
    requires
        0 <= i,
    ensures
        i <= spec_field_index_from(fs, id, i) <= fs.len() || spec_field_index_from(fs, id, i)
            == fs.len(),
        spec_field_index_from(fs, id, i) < fs.len() ==> fs[spec_field_index_from(fs, id, i)].id()
            == id && i <= spec_field_index_from(fs, id, i),
        forall|j: int| i <= j < spec_field_index_from(fs, id, i) ==> fs[j].id() != id,
        spec_field_index_from(fs, id, i) == fs.len() ==> forall|j: int|
            i <= j < fs.len() ==> fs[j].id() != id,
    decreases fs.len() - i,
{
    if i < fs.len() && fs[i].id() != id {
        lemma_field_index_from(fs, id, i + 1);
    }
}

/// The index of the first field of `fields` whose id is `id`, or the length
/// of `fields` if there is none.
fn find_field_index(fields: &Vec<ObjectClassFieldSpec>, id: &String) -> (r: usize)
    ensures
        r as int == spec_field_index(crate::ioc::fields_view(fields@), id@),
        r <= fields@.len(),
{
    let ghost fv = crate::ioc::fields_view(fields@);
    let mut i: usize = 0;
    while i < fields.len()
        invariant
            i <= fields@.len(),
            fv == crate::ioc::fields_view(fields@),
            spec_field_index_from(fv, id@, i as int) == spec_field_index(fv, id@),
        decreases fields@.len() - i,
    {
        proof {
            assert(fv[i as int] == fields@[i as int]@);
        }
        let fid = fields[i].id();
        if fid == *id {
            return i;
        }
        i = i + 1;
    }
    i
}

/// The semantic message for a WITH SYNTAX clause that names a field the
/// class does not have.
pub open spec fn msg_unknown_field(id: Seq<char>) -> Seq<char> {
    "Field "@ + id + " Not found in Class but found in WITH SYNTAX"@
}

/// The semantic message for an optional group wrapping a field that can
/// never be absent.
pub open spec fn msg_optional_group(id: Seq<char>) -> Seq<char> {
    "Optional Group for a field that is not Optional and has no default: '"@ + id + "'"@
}

/// The semantic message for a class declaring the same field id twice.
pub open spec fn msg_duplicate_field(id: Seq<char>) -> Seq<char> {
    "Duplicate field '"@ + id + "' in CLASS Definition"@
}

/// Collects the run of literal syntax words from `at` up to the next
/// `&identifier`, joined with single spaces as the label; a reserved word
/// among them is a semantic error, and running out of input before any
/// `&identifier` is a mismatch. Returns the label and the index of the
/// `&identifier`.
pub open spec fn spec_syntax_label(toks: Seq<Token>, at: int, first: bool, acc: Seq<char>) -> Result<
    (Seq<char>, int),
    ErrorModel,
>
    decreases toks.len() - at,
{
    if at < 0 || at >= toks.len() {
        Err(spec_mismatch(toks, at, "'CLASS field'"@))
    } else if toks[at].spec_is_and_identifier() {
        Ok((acc, at))
    } else if toks[at].spec_is_with_syntax_reserved_word() {
        Err(spec_semantic("Found a WITH SYNTAX RESERVED Word!"@))
    } else {
        spec_syntax_label(
            toks,
            at + 1,
            false,
            if first {
                toks[at].text@
            } else {
                acc + " "@ + toks[at].text@
            },
        )
    }
}

/// A successful word collection ends on an `&identifier` at or after `at`.
pub proof fn lemma_syntax_label_bound(toks: Seq<Token>, at: int, first: bool, acc: Seq<char>)
    ensures
        spec_syntax_label(toks, at, first, acc) matches Ok((l, j)) ==> at <= j < toks.len()
            && has_and_identifier(toks, j),
    decreases toks.len() - at,
{
    if 0 <= at && at < toks.len() && !toks[at].spec_is_and_identifier()
        && !toks[at].spec_is_with_syntax_reserved_word() {
        lemma_syntax_label_bound(
            toks,
            at + 1,
            false,
            if first {
                toks[at].text@
            } else {
                acc + " "@ + toks[at].text@
            },
        );
    }
}

/// One binding round of the With-Syntax binder, starting at `at` with the
/// optional-group flag `in_group` over the field table `fs`, and the rounds
/// after it: an optional `[`, the literal words of the label, the
/// referenced `&field` (which must exist, and must be able to be absent if
/// inside an optional group), an optional `,`, an optional `]` (refused
/// when no group is open), and either the closing `}` (refused while a
/// group is open) or the next round. An error carries the field table as
/// already mutated by the earlier rounds.
pub open spec fn spec_bind_iter(
    toks: Seq<Token>,
    at: int,
    in_group: bool,
    fs: Seq<FieldSpecModel>,
) -> Result<(Seq<FieldSpecModel>, nat), (ErrorModel, Seq<FieldSpecModel>)>
    decreases toks.len() - at,
    via spec_bind_iter_dec
{
    let grp = in_group || has_kind(toks, at, TokenKind::SquareBegin);
    let at1 = if has_kind(toks, at, TokenKind::SquareBegin) {
        at + 1
    } else {
        at
    };
    match spec_syntax_label(toks, at1, true, Seq::empty()) {
        Err(e) => Err((e, fs)),
        Ok((label, j)) => {
            let id = toks[j].text@;
            let k = spec_field_index(fs, id);
            if k >= fs.len() {
                Err((spec_semantic(msg_unknown_field(id)), fs))
            } else if grp && !fs[k].optional() && !fs[k].has_default() {
                Err((spec_semantic(msg_optional_group(id)), fs))
            } else {
                let fs2 = fs.update(k, fs[k].with_label(label));
                let at2 = if has_kind(toks, j + 1, TokenKind::Comma) {
                    j + 2
                } else {
                    j + 1
                };
                if has_kind(toks, at2, TokenKind::SquareEnd) {
                    if !grp {
                        Err((spec_mismatch(toks, at2, "',' or '}' or 'WORD'"@), fs2))
                    } else if has_kind(toks, at2 + 1, TokenKind::CurlyEnd) {
                        Ok((fs2, (at2 + 2 - at) as nat))
                    } else {
                        match spec_bind_iter(toks, at2 + 1, false, fs2) {
                            Ok((f4, m)) => Ok((f4, (at2 + 1 - at + m) as nat)),
                            Err(e) => Err(e),
                        }
                    }
                } else if has_kind(toks, at2, TokenKind::CurlyEnd) {
                    if grp {
                        Err((spec_semantic("Unmatched ']' for Optional Group"@), fs2))
                    } else {
                        Ok((fs2, (at2 + 1 - at) as nat))
                    }
                } else {
                    match spec_bind_iter(toks, at2, grp, fs2) {
                        Ok((f4, m)) => Ok((f4, (at2 - at + m) as nat)),
                        Err(e) => Err(e),
                    }
                }
            }
        },
    }
}

#[via_fn]
proof fn spec_bind_iter_dec(toks: Seq<Token>, at: int, in_group: bool, fs: Seq<FieldSpecModel>) {
    let at1 = if has_kind(toks, at, TokenKind::SquareBegin) {
        at + 1
    } else {
        at
    };
    lemma_syntax_label_bound(toks, at1, true, Seq::empty());
}

/// What the With-Syntax binder does at `at` over the field table `fs`:
/// nothing (zero tokens consumed) when the `WITH SYNTAX` keyword pair is
/// absent; otherwise it expects `{`, then binds labels round by round as
/// [`spec_bind_iter`] describes.
pub open spec fn spec_bind(toks: Seq<Token>, at: int, fs: Seq<FieldSpecModel>) -> Result<
    (Seq<FieldSpecModel>, nat),
    (ErrorModel, Seq<FieldSpecModel>),
> {
    if !(has_keyword(toks, at, "WITH"@) && has_keyword(toks, at + 1, "SYNTAX"@)) {
        Ok((fs, 0))
    } else if !has_kind(toks, at + 2, TokenKind::CurlyBegin) {
        Err((spec_mismatch(toks, at + 2, "'{'"@), fs))
    } else {
        match spec_bind_iter(toks, at + 3, false, fs) {
            Ok((fs2, m)) => Ok((fs2, (m + 3) as nat)),
            Err(e) => Err(e),
        }
    }
}

/// Sets the field's syntax label.
fn set_syntax_label(f: ObjectClassFieldSpec, label: String) -> (r: ObjectClassFieldSpec)
    ensures
        r@ == f@.with_label(label@),
{
    match f {
        ObjectClassFieldSpec::Type { id, default, optional, with_syntax: _, resolved } => {
            ObjectClassFieldSpec::Type { id, default, optional, with_syntax: Some(label), resolved }
        },
        ObjectClassFieldSpec::FixedTypeValue {
            id,
            field_type,
            unique,
            default,
            optional,
            with_syntax: _,
            resolved,
        } => {
            ObjectClassFieldSpec::FixedTypeValue {
                id,
                field_type,
                unique,
                default,
                optional,
                with_syntax: Some(label),
                resolved,
            }
        },
    }
}

/// Binds a WITH SYNTAX clause starting at `tokens[at]` into `fields`.
#[verifier::loop_isolation(false)]
#[verifier::rlimit(100)]
fn parse_with_syntax_for_fields_at(
    tokens: &[Token],
    at: usize,
    fields: &mut Vec<ObjectClassFieldSpec>,
) -> (r: Result<usize, Error>)
    ensures
        match r {
            Ok(n) => spec_bind(tokens@, at as int, crate::ioc::fields_view(old(fields)@))
                == Ok::<_, (ErrorModel, Seq<FieldSpecModel>)>(
                (crate::ioc::fields_view(final(fields)@), n as nat),
            ) && (n == 0 || at + n <= tokens@.len()),
            Err(e) => spec_bind(tokens@, at as int, crate::ioc::fields_view(old(fields)@))
                == Err::<(Seq<FieldSpecModel>, nat), _>(
                (e@, crate::ioc::fields_view(final(fields)@)),
            ),
        },
{
    let end = tokens.len();
    if !crate::token::peek_keyword(tokens, at, "WITH") {
        return Ok(0);
    }
    if !crate::token::peek_keyword(tokens, at + 1, "SYNTAX") {
        return Ok(0);
    }
    if !crate::token::peek_kind(tokens, at + 2, TokenKind::CurlyBegin) {
        return Err(mismatch_at(tokens, at + 2, "'{'"));
    }
    let mut cur: usize = at + 3;
    let mut in_group = false;
    loop
        invariant
            at + 3 <= cur <= tokens@.len(),
            (match spec_bind_iter(
                tokens@,
                cur as int,
                in_group,
                crate::ioc::fields_view(fields@),
            ) {
                Ok((fs2, m)) => spec_bind(
                    tokens@,
                    at as int,
                    crate::ioc::fields_view(old(fields)@),
                ) == Ok::<_, (ErrorModel, Seq<FieldSpecModel>)>(
                    (fs2, (cur as int - at + m) as nat),
                ),
                Err((e, fs2)) => spec_bind(
                    tokens@,
                    at as int,
                    crate::ioc::fields_view(old(fields)@),
                ) == Err::<(Seq<FieldSpecModel>, nat), _>((e, fs2)),
            }),
        decreases tokens@.len() - cur,
    {
        let ghost fs0 = crate::ioc::fields_view(fields@);
        if crate::token::peek_kind(tokens, cur, TokenKind::SquareBegin) {
            in_group = true;
            proof {
                assert(cur < end);
            }
            cur = cur + 1;
        }
        // Collect the literal words of the label, up to the next `&field`.
        let mut label = String::new();
        let mut first = true;
        let ghost lab_start = cur as int;
        while cur < tokens.len() && !tokens[cur].is_and_identifier()
            && !tokens[cur].is_with_syntax_reserved_word()
            invariant
                lab_start <= cur <= tokens@.len(),
                spec_syntax_label(tokens@, lab_start, true, Seq::empty()) == spec_syntax_label(
                    tokens@,
                    cur as int,
                    first,
                    label@,
                ),
            decreases tokens@.len() - cur,
        {
            if first {
                label = tokens[cur].text.clone();
                first = false;
            } else {
                label.append(" ");
                label.append(tokens[cur].text.as_str());
            }
            cur = cur + 1;
        }
        if cur >= tokens.len() {
            return Err(mismatch_at(tokens, cur, "'CLASS field'"));
        }
        if !tokens[cur].is_and_identifier() {
            return Err(
                Error::SemanticError {
                    message: "Found a WITH SYNTAX RESERVED Word!".to_owned(),
                },
            );
        }
        // `tokens[cur]` is the referenced `&field`; look its id up.
        let ghost labv = label@;
        let ghost j = cur as int;
        proof {
            lemma_field_index(fs0, tokens@[j].text@);
        }
        let id_str = tokens[cur].text.clone();
        let k = find_field_index(&*fields, &id_str);
        if k == fields.len() {
            let mut message = "Field ".to_owned();
            message.append(id_str.as_str());
            message.append(" Not found in Class but found in WITH SYNTAX");
            return Err(Error::SemanticError { message });
        }
        let (optional, has_default) = match &fields[k] {
            ObjectClassFieldSpec::Type { optional, default, .. } => (*optional, default.is_some()),
            ObjectClassFieldSpec::FixedTypeValue { optional, default, .. } => (
                *optional,
                default.is_some(),
            ),
        };
        proof {
            assert(fs0[k as int] == fields@[k as int]@);
        }
        if in_group && !optional && !has_default {
            let mut message =
                "Optional Group for a field that is not Optional and has no default: '".to_owned();
            message.append(id_str.as_str());
            message.append("'");
            return Err(Error::SemanticError { message });
        }
        let fld = fields.remove(k);
        let fld2 = set_syntax_label(fld, label);
        fields.insert(k, fld2);
        proof {
            assert(crate::ioc::fields_view(fields@) =~= fs0.update(
                k as int,
                fs0[k as int].with_label(labv),
            ));
        }
        cur = cur + 1;
        if crate::token::peek_kind(tokens, cur, TokenKind::Comma) {
            cur = cur + 1;
        }
        if crate::token::peek_kind(tokens, cur, TokenKind::SquareEnd) {
            if !in_group {
                return Err(mismatch_at(tokens, cur, "',' or '}' or 'WORD'"));
            }
            in_group = false;
            cur = cur + 1;
        }
        if crate::token::peek_kind(tokens, cur, TokenKind::CurlyEnd) {
            if in_group {
                return Err(
                    Error::SemanticError {
                        message: "Unmatched ']' for Optional Group".to_owned(),
                    },
                );
            }
            cur = cur + 1;
            return Ok(cur - at);
        }
    }
}

/// Binds a `WITH SYNTAX { ... }` clause, if one starts `tokens`, into
/// `fields`: each referenced `&field` gets the literal words before it as
/// its syntax label. Absence of the clause is not an error: zero tokens are
/// consumed and `fields` is unchanged. An unknown field reference, a
/// reserved word among the literal words, an optional group wrapping a
/// field that is neither `OPTIONAL` nor defaulted, and unmatched group
/// brackets are errors; an error leaves the bindings made before it.
pub fn parse_with_syntax_for_fields(
    tokens: &[Token],
    fields: &mut Vec<ObjectClassFieldSpec>,
) -> (r: Result<usize, Error>)
    ensures
        match r {
            Ok(n) => spec_bind(tokens@, 0, crate::ioc::fields_view(old(fields)@)) == Ok::<
                _,
                (ErrorModel, Seq<FieldSpecModel>),
            >((crate::ioc::fields_view(final(fields)@), n as nat)) && n <= tokens@.len(),
            Err(e) => spec_bind(tokens@, 0, crate::ioc::fields_view(old(fields)@)) == Err::<
                (Seq<FieldSpecModel>, nat),
                _,
            >((e@, crate::ioc::fields_view(final(fields)@))),
        },
{
    parse_with_syntax_for_fields_at(tokens, 0, fields)
}

/// What the class parser returns: keyword `CLASS`, `{`, the field specs
/// separated by `,` and closed by `}` (a duplicate id is a semantic error),
/// then the optional WITH SYNTAX clause bound into the fields.
pub open spec fn spec_parse_class_fields(
    toks: Seq<Token>,
    at: int,
    acc: Seq<FieldSpecModel>,
) -> Result<(Seq<FieldSpecModel>, nat), ErrorModel>
    decreases toks.len() - at,
{
    match spec_parse_field(toks, at) {
        Err(e) => Err(e),
        Ok((f, n)) => {
            if spec_has_field_id(acc, f.id()) {
                Err(spec_semantic(msg_duplicate_field(f.id())))
            } else if has_kind(toks, at + n, TokenKind::Comma) {
                match spec_parse_class_fields(toks, at + n + 1, acc.push(f)) {
                    Err(e) => Err(e),
                    Ok((fs, m)) => Ok((fs, (n + 1 + m) as nat)),
                }
            } else if has_kind(toks, at + n, TokenKind::CurlyEnd) {
                Ok((acc.push(f), (n + 1) as nat))
            } else {
                Err(spec_mismatch(toks, at + n, "',' or '}'"@))
            }
        },
    }
}

/// What the class parser returns on `tokens`: the field table in
/// declaration order, with syntax labels bound, and the consumed count.
pub open spec fn spec_parse_class(toks: Seq<Token>) -> Result<
    (Seq<FieldSpecModel>, nat),
    ErrorModel,
> {
    if !has_keyword(toks, 0, "CLASS"@) {
        Err(spec_mismatch(toks, 0, "'CLASS'"@))
    } else if !has_kind(toks, 1, TokenKind::CurlyBegin) {
        Err(spec_mismatch(toks, 1, "'{'"@))
    } else {
        match spec_parse_class_fields(toks, 2, Seq::empty()) {
            Err(e) => Err(e),
            Ok((fs, n)) => match spec_bind(toks, 2 + n as int, fs) {
                Ok((fs2, m)) => Ok((fs2, (2 + n + m) as nat)),
                Err((e, _)) => Err(e),
            },
        }
    }
}

/// Parses `CLASS { field-spec, ... }` with its optional trailing
/// `WITH SYNTAX { ... }` clause from the start of `tokens`, returning the
/// class and the number of tokens consumed. Fields keep declaration order;
/// a duplicate field id, and every rule of [`spec_bind`], is an error.
#[verifier::loop_isolation(false)]
pub fn parse_class(tokens: &[Token]) -> (r: Result<(Asn1ObjectClass, usize), Error>)
    ensures
        match r {
            Ok((c, n)) => spec_parse_class(tokens@) == Ok::<_, ErrorModel>((c@, n as nat)) && n
                <= tokens@.len(),
            Err(e) => spec_parse_class(tokens@) == Err::<(Seq<FieldSpecModel>, nat), _>(e@),
        },
{
    let end = tokens.len();
    if !crate::token::peek_keyword(tokens, 0, "CLASS") {
        return Err(mismatch_at(tokens, 0, "'CLASS'"));
    }
    if !crate::token::peek_kind(tokens, 1, TokenKind::CurlyBegin) {
        return Err(mismatch_at(tokens, 1, "'{'"));
    }
    let mut fields: Vec<ObjectClassFieldSpec> = Vec::new();
    let mut cur: usize = 2;
    let mut done = false;
    proof {
        assert(crate::ioc::fields_view(fields@) =~= Seq::<FieldSpecModel>::empty());
    }
    while !done
        invariant
            2 <= cur <= tokens@.len(),
            !done ==> (match spec_parse_class_fields(
                tokens@,
                cur as int,
                crate::ioc::fields_view(fields@),
            ) {
                Ok((fs, m)) => spec_parse_class_fields(tokens@, 2, Seq::empty()) == Ok::<
                    _,
                    ErrorModel,
                >((fs, (cur as int - 2 + m) as nat)),
                Err(e) => spec_parse_class_fields(tokens@, 2, Seq::empty()) == Err::<
                    (Seq<FieldSpecModel>, nat),
                    _,
                >(e),
            }),
            done ==> spec_parse_class_fields(tokens@, 2, Seq::empty()) == Ok::<_, ErrorModel>(
                (crate::ioc::fields_view(fields@), (cur as int - 2) as nat),
            ),
        decreases tokens@.len() - cur,
    {
        let ghost fs0 = crate::ioc::fields_view(fields@);
        let (f, n) = match parse_field_spec_at(tokens, cur) {
            Ok(x) => x,
            Err(e) => {
                proof {
                    assert(spec_parse_class_fields(tokens@, cur as int, fs0) == Err::<
                        (Seq<FieldSpecModel>, nat),
                        ErrorModel,
                    >(e@));
                    assert(has_keyword(tokens@, 0, "CLASS"@));
                    assert(has_kind(tokens@, 1, TokenKind::CurlyBegin));
                    assert(spec_parse_class_fields(tokens@, 2, Seq::<FieldSpecModel>::empty())
                        == Err::<(Seq<FieldSpecModel>, nat), ErrorModel>(e@));
                    assert(spec_parse_class(tokens@) == Err::<(Seq<FieldSpecModel>, nat), _>(e@));
                }
                return Err(e);
            },
        };
        proof {
            lemma_parse_field_bound(tokens@, cur as int);
        }
        let fid = f.id();
        let k = find_field_index(&fields, &fid);
        if k < fields.len() {
            let mut message = "Duplicate field '".to_owned();
            message.append(fid.as_str());
            message.append("' in CLASS Definition");
            proof {
                assert(message@ == msg_duplicate_field(f@.id()));
                assert(spec_has_field_id(fs0, f@.id()));
                assert(spec_parse_class_fields(tokens@, cur as int, fs0) == Err::<
                    (Seq<FieldSpecModel>, nat),
                    ErrorModel,
                >(spec_semantic(msg_duplicate_field(f@.id()))));
                assert(spec_parse_class(tokens@) == Err::<(Seq<FieldSpecModel>, nat), _>(
                    spec_semantic(msg_duplicate_field(f@.id())),
                ));
            }
            return Err(Error::SemanticError { message });
        }
        fields.push(f);
        proof {
            assert(crate::ioc::fields_view(fields@) =~= fs0.push(f@));
        }
        cur = cur + n;
        if crate::token::peek_kind(tokens, cur, TokenKind::Comma) {
            cur = cur + 1;
        } else if crate::token::peek_kind(tokens, cur, TokenKind::CurlyEnd) {
            cur = cur + 1;
            done = true;
        } else {
            return Err(mismatch_at(tokens, cur, "',' or '}'"));
        }
    }
    match parse_with_syntax_for_fields_at(tokens, cur, &mut fields) {
        Ok(m) => Ok((Asn1ObjectClass { fields }, cur + m)),
        Err(e) => Err(e),
    }
}

/// One round of the object-set loop at `at`, with `ext` saying whether the
/// extensibility marker was already seen and `root`/`add` the elements
/// collected so far, and the rounds after it: an optional `...` marker (a
/// second one is a semantic error) with an optional `,`; then an element —
/// an inline `{ ... }` object, an object-set reference, an object
/// reference, or nothing (empty slots are permitted); an optional `,`; an
/// optional `|`; and either the closing `}` or the next round. Running out
/// of input, and a round that consumes nothing, are mismatches.
pub open spec fn spec_parse_os_iter(
    toks: Seq<Token>,
    at: int,
    ext: bool,
    root: Seq<ObjectSetElementModel>,
    add: Seq<ObjectSetElementModel>,
) -> Result<((Seq<ObjectSetElementModel>, Seq<ObjectSetElementModel>), nat), ErrorModel>
    decreases toks.len() - at,
    via spec_parse_os_iter_dec
{
    if at < 0 || at >= toks.len() {
        Err(spec_mismatch(toks, at, "an object set element, ',', '|' or '}'"@))
    } else if has_kind(toks, at, TokenKind::Extension) && ext {
        Err(spec_semantic("More than one extension markers found!"@))
    } else {
        let ext2 = ext || has_kind(toks, at, TokenKind::Extension);
        let at1 = if has_kind(toks, at, TokenKind::Extension) {
            if has_kind(toks, at + 1, TokenKind::Comma) {
                at + 2
            } else {
                at + 1
            }
        } else {
            at
        };
        let (oe, at2) = (match spec_parse_set_ish(toks, at1) {
            Ok((text, n)) => (Some(ObjectSetElementModel::Object(text)), at1 + n),
            Err(_) => if has_kind(toks, at1, TokenKind::UcIdentifier) {
                (Some(ObjectSetElementModel::ObjectSetReference(toks[at1].text@)), at1 + 1)
            } else if has_kind(toks, at1, TokenKind::LcIdentifier) {
                (Some(ObjectSetElementModel::ObjectReference(toks[at1].text@)), at1 + 1)
            } else {
                (None, at1)
            },
        });
        let (root2, add2) = (match oe {
            Some(e) => if !ext2 {
                (root.push(e), add)
            } else {
                (root, add.push(e))
            },
            None => (root, add),
        });
        let at3 = if has_kind(toks, at2, TokenKind::Comma) {
            at2 + 1
        } else {
            at2
        };
        let at4 = if has_kind(toks, at3, TokenKind::SetUnion) {
            at3 + 1
        } else {
            at3
        };
        if has_kind(toks, at4, TokenKind::CurlyEnd) {
            Ok(((root2, add2), (at4 + 1 - at) as nat))
        } else if at4 == at {
            Err(spec_mismatch(toks, at4, "an object set element, ',', '|' or '}'"@))
        } else {
            match spec_parse_os_iter(toks, at4, ext2, root2, add2) {
                Ok((ra, m)) => Ok((ra, (at4 - at + m) as nat)),
                Err(e) => Err(e),
            }
        }
    }
}

#[via_fn]
proof fn spec_parse_os_iter_dec(
    toks: Seq<Token>,
    at: int,
    ext: bool,
    root: Seq<ObjectSetElementModel>,
    add: Seq<ObjectSetElementModel>,
) {
    if 0 <= at && at < toks.len() {
        let at1 = if has_kind(toks, at, TokenKind::Extension) {
            if has_kind(toks, at + 1, TokenKind::Comma) {
                at + 2
            } else {
                at + 1
            }
        } else {
            at
        };
        crate::values::lemma_set_ish_bound(toks, at1);
    }
}

/// What the object-set parser returns on `tokens`: `{`, then elements as
/// [`spec_parse_os_iter`] describes — before the extensibility marker they
/// go to the root, after it to the additional elements, in declaration
/// order.
pub open spec fn spec_parse_object_set(toks: Seq<Token>) -> Result<
    (ObjectSetModel, nat),
    ErrorModel,
> {
    if !has_kind(toks, 0, TokenKind::CurlyBegin) {
        Err(spec_mismatch(toks, 0, "'{'"@))
    } else {
        match spec_parse_os_iter(toks, 1, false, Seq::empty(), Seq::empty()) {
            Ok((ra, m)) => Ok(
                (
                    ObjectSetModel { root_elements: ra.0, additional_elements: ra.1 },
                    (1 + m) as nat,
                ),
            ),
            Err(e) => Err(e),
        }
    }
}

/// Parses `{ element, element, ..., element }` from the start of `tokens`,
/// returning the object set and the number of tokens consumed. Elements
/// before the extensibility marker form the root, those after it the
/// additional elements; at most one marker is legal; inline objects are
/// kept as raw text; empty slots are permitted; running out of input before
/// the closing `}` is an error.
#[verifier::loop_isolation(false)]
#[verifier::rlimit(100)]
#[verifier::spinoff_prover]
pub fn parse_object_set(tokens: &[Token]) -> (r: Result<(ObjectSet, usize), Error>)
    ensures
        match r {
            Ok((s, n)) => spec_parse_object_set(tokens@) == Ok::<_, ErrorModel>((s@, n as nat))
                && n <= tokens@.len(),
            Err(e) => spec_parse_object_set(tokens@) == Err::<(ObjectSetModel, nat), _>(e@),
        },
{
    let end = tokens.len();
    if !crate::token::peek_kind(tokens, 0, TokenKind::CurlyBegin) {
        return Err(mismatch_at(tokens, 0, "'{'"));
    }
    let mut root: Vec<ObjectSetElement> = Vec::new();
    let mut additional: Vec<ObjectSetElement> = Vec::new();
    let mut ext = false;
    let mut cur: usize = 1;
    proof {
        assert(elems_view(root@) =~= Seq::<ObjectSetElementModel>::empty());
        assert(elems_view(additional@) =~= Seq::<ObjectSetElementModel>::empty());
    }
    loop
        invariant
            1 <= cur <= tokens@.len(),
            (match spec_parse_os_iter(
                tokens@,
                cur as int,
                ext,
                elems_view(root@),
                elems_view(additional@),
            ) {
                Ok((ra, m)) => spec_parse_object_set(tokens@) == Ok::<
                    (ObjectSetModel, nat),
                    ErrorModel,
                >(
                    (
                        ObjectSetModel { root_elements: ra.0, additional_elements: ra.1 },
                        (cur as int + m) as nat,
                    ),
                ),
                Err(e) => spec_parse_object_set(tokens@) == Err::<(ObjectSetModel, nat), _>(e),
            }),
        decreases tokens@.len() - cur,
    {
        let start = cur;
        let ghost rv0 = elems_view(root@);
        let ghost av0 = elems_view(additional@);
        let ghost ext0 = ext;
        if cur >= tokens.len() {
            return Err(mismatch_at(tokens, cur, "an object set element, ',', '|' or '}'"));
        }
        if crate::token::peek_kind(tokens, cur, TokenKind::Extension) {
            if ext {
                return Err(
                    Error::SemanticError {
                        message: "More than one extension markers found!".to_owned(),
                    },
                );
            }
            ext = true;
            cur = cur + 1;
            if crate::token::peek_kind(tokens, cur, TokenKind::Comma) {
                cur = cur + 1;
            }
        }
        match parse_set_ish_value_at(tokens, cur) {
            Ok((text, n)) => {
                proof {
                    crate::values::lemma_set_ish_bound(tokens@, cur as int);
                }
                let ghost tv = text@;
                if ext {
                    additional.push(ObjectSetElement::Object(text));
                    proof {
                        assert(elems_view(additional@) =~= av0.push(
                            ObjectSetElementModel::Object(tv),
                        ));
                    }
                } else {
                    root.push(ObjectSetElement::Object(text));
                    proof {
                        assert(elems_view(root@) =~= rv0.push(ObjectSetElementModel::Object(tv)));
                    }
                }
                cur = cur + n;
            },
            Err(unparsed) => {
                if crate::token::peek_kind(tokens, cur, TokenKind::UcIdentifier) {
                    let e = ObjectSetElement::ObjectSetReference(tokens[cur].text.clone());
                    if ext {
                        additional.push(e);
                        proof {
                            assert(elems_view(additional@) =~= av0.push(
                                ObjectSetElementModel::ObjectSetReference(
                                    tokens@[cur as int].text@,
                                ),
                            ));
                        }
                    } else {
                        root.push(e);
                        proof {
                            assert(elems_view(root@) =~= rv0.push(
                                ObjectSetElementModel::ObjectSetReference(
                                    tokens@[cur as int].text@,
                                ),
                            ));
                        }
                    }
                    cur = cur + 1;
                } else if crate::token::peek_kind(tokens, cur, TokenKind::LcIdentifier) {
                    let e = ObjectSetElement::ObjectReference(tokens[cur].text.clone());
                    if ext {
                        additional.push(e);
                        proof {
                            assert(elems_view(additional@) =~= av0.push(
                                ObjectSetElementModel::ObjectReference(tokens@[cur as int].text@),
                            ));
                        }
                    } else {
                        root.push(e);
                        proof {
                            assert(elems_view(root@) =~= rv0.push(
                                ObjectSetElementModel::ObjectReference(tokens@[cur as int].text@),
                            ));
                        }
                    }
                    cur = cur + 1;
                }
            },
        }
        if crate::token::peek_kind(tokens, cur, TokenKind::Comma) {
            cur = cur + 1;
        }
        if crate::token::peek_kind(tokens, cur, TokenKind::SetUnion) {
            cur = cur + 1;
        }
        if crate::token::peek_kind(tokens, cur, TokenKind::CurlyEnd) {
            cur = cur + 1;
            return Ok((ObjectSet { root_elements: root, additional_elements: additional }, cur));
        }
        if cur == start {
            return Err(mismatch_at(tokens, cur, "an object set element, ',', '|' or '}'"));
        }
    }
}

/// A field spec that declares both `UNIQUE` and `DEFAULT` fails with the
/// semantic error that the two cannot be combined — for every field type
/// and every default value.
pub proof fn lemma_unique_default_conflict(toks: Seq<Token>, at: int)
    requires
        has_kind(toks, at, TokenKind::ValueFieldReference),
        spec_parse_type(toks, at + 1) matches Ok((ty, n1)) && (has_keyword(
            toks,
            at + 1 + n1,
            "UNIQUE"@,
        ) && has_keyword(toks, at + 2 + n1, "DEFAULT"@) && spec_parse_value(toks, at + 3 + n1)
            is Ok),
    ensures
        spec_parse_field(toks, at) == Err::<(FieldSpecModel, nat), ErrorModel>(
            spec_semantic("Both 'UNIQUE' and 'DEFAULT' cannot be specified together!"@),
        ),
{
    reveal_strlit("OPTIONAL");
    reveal_strlit("DEFAULT");
    assert("OPTIONAL"@.len() == 8);
    assert("DEFAULT"@.len() == 7);
}

/// A With-Syntax round whose `&field` reference names an id that no field
/// of the class has fails with the semantic error naming that id.
pub proof fn lemma_with_syntax_unknown_field(
    toks: Seq<Token>,
    at: int,
    in_group: bool,
    fs: Seq<FieldSpecModel>,
    label: Seq<char>,
    j: int,
)
    requires
        spec_syntax_label(
            toks,
            if has_kind(toks, at, TokenKind::SquareBegin) {
                at + 1
            } else {
                at
            },
            true,
            Seq::empty(),
        ) == Ok::<(Seq<char>, int), ErrorModel>((label, j)),
        forall|i: int| 0 <= i < fs.len() ==> fs[i].id() != toks[j].text@,
    ensures
        spec_bind_iter(toks, at, in_group, fs) == Err::<
            (Seq<FieldSpecModel>, nat),
            (ErrorModel, Seq<FieldSpecModel>),
        >((spec_semantic(msg_unknown_field(toks[j].text@)), fs)),
{
    lemma_field_index(fs, toks[j].text@);
}

/// A With-Syntax round inside an optional group may only bind a field that
/// can legitimately be absent: if the referenced field is neither
/// `OPTIONAL` nor carries a `DEFAULT`, binding fails with the semantic
/// error naming that id.
pub proof fn lemma_optional_group_needs_absentable_field(
    toks: Seq<Token>,
    at: int,
    in_group: bool,
    fs: Seq<FieldSpecModel>,
    label: Seq<char>,
    j: int,
)
    requires
        spec_syntax_label(
            toks,
            if has_kind(toks, at, TokenKind::SquareBegin) {
                at + 1
            } else {
                at
            },
            true,
            Seq::empty(),
        ) == Ok::<(Seq<char>, int), ErrorModel>((label, j)),
        in_group || has_kind(toks, at, TokenKind::SquareBegin),
        spec_has_field_id(fs, toks[j].text@),
        !fs[spec_field_index(fs, toks[j].text@)].optional(),
        !fs[spec_field_index(fs, toks[j].text@)].has_default(),
    ensures
        spec_bind_iter(toks, at, in_group, fs) == Err::<
            (Seq<FieldSpecModel>, nat),
            (ErrorModel, Seq<FieldSpecModel>),
        >((spec_semantic(msg_optional_group(toks[j].text@)), fs)),
{
    lemma_field_index(fs, toks[j].text@);
}

/// A successful field-list parse consumes at least one token and stays
/// within the token sequence.
pub proof fn lemma_class_fields_bound(toks: Seq<Token>, at: int, acc: Seq<FieldSpecModel>)
    ensures
        spec_parse_class_fields(toks, at, acc) matches Ok((fs, m)) ==> 1 <= m && at + m
            <= toks.len(),
    decreases toks.len() - at,
{
    lemma_parse_field_bound(toks, at);
    match spec_parse_field(toks, at) {
        Ok((f, n)) => {
            if !spec_has_field_id(acc, f.id()) && has_kind(toks, at + n, TokenKind::Comma) {
                lemma_class_fields_bound(toks, at + n + 1, acc.push(f));
            }
        },
        Err(_) => {},
    }
}

/// A successful binder round consumes at least one token and stays within
/// the token sequence.
pub proof fn lemma_bind_iter_bound(toks: Seq<Token>, at: int, g: bool, fs: Seq<FieldSpecModel>)
    ensures
        spec_bind_iter(toks, at, g, fs) matches Ok((fs2, m)) ==> 1 <= m && at + m <= toks.len(),
    decreases toks.len() - at,
{
    let at1 = if has_kind(toks, at, TokenKind::SquareBegin) {
        at + 1
    } else {
        at
    };
    lemma_syntax_label_bound(toks, at1, true, Seq::empty());
    match spec_syntax_label(toks, at1, true, Seq::empty()) {
        Ok((label, j)) => {
            let id = toks[j].text@;
            let k = spec_field_index(fs, id);
            if k < fs.len() {
                let fs2 = fs.update(k, fs[k].with_label(label));
                let at2 = if has_kind(toks, j + 1, TokenKind::Comma) {
                    j + 2
                } else {
                    j + 1
                };
                let grp = g || has_kind(toks, at, TokenKind::SquareBegin);
                if has_kind(toks, at2, TokenKind::SquareEnd) {
                    lemma_bind_iter_bound(toks, at2 + 1, false, fs2);
                } else {
                    lemma_bind_iter_bound(toks, at2, grp, fs2);
                }
            }
        },
        Err(_) => {},
    }
}

/// A successful object-set round consumes at least one token and stays
/// within the token sequence.
pub proof fn lemma_os_iter_bound(
    toks: Seq<Token>,
    at: int,
    ext: bool,
    root: Seq<ObjectSetElementModel>,
    add: Seq<ObjectSetElementModel>,
)
    ensures
        spec_parse_os_iter(toks, at, ext, root, add) matches Ok((ra, m)) ==> 1 <= m && at + m
            <= toks.len(),
    decreases toks.len() - at,
{
    if 0 <= at && at < toks.len() && !(has_kind(toks, at, TokenKind::Extension) && ext) {
        let ext2 = ext || has_kind(toks, at, TokenKind::Extension);
        let at1 = if has_kind(toks, at, TokenKind::Extension) {
            if has_kind(toks, at + 1, TokenKind::Comma) {
                at + 2
            } else {
                at + 1
            }
        } else {
            at
        };
        crate::values::lemma_set_ish_bound(toks, at1);
        let (oe, at2) = (match spec_parse_set_ish(toks, at1) {
            Ok((text, n)) => (Some(ObjectSetElementModel::Object(text)), at1 + n),
            Err(_) => if has_kind(toks, at1, TokenKind::UcIdentifier) {
                (Some(ObjectSetElementModel::ObjectSetReference(toks[at1].text@)), at1 + 1)
            } else if has_kind(toks, at1, TokenKind::LcIdentifier) {
                (Some(ObjectSetElementModel::ObjectReference(toks[at1].text@)), at1 + 1)
            } else {
                (None, at1)
            },
        });
        let (root2, add2) = (match oe {
            Some(e) => if !ext2 {
                (root.push(e), add)
            } else {
                (root, add.push(e))
            },
            None => (root, add),
        });
        let at3 = if has_kind(toks, at2, TokenKind::Comma) {
            at2 + 1
        } else {
            at2
        };
        let at4 = if has_kind(toks, at3, TokenKind::SetUnion) {
            at3 + 1
        } else {
            at3
        };
        if !has_kind(toks, at4, TokenKind::CurlyEnd) && at4 != at {
            lemma_os_iter_bound(toks, at4, ext2, root2, add2);
        }
    }
}

/// A successful type parse is unchanged by truncating the token sequence
/// anywhere past it.
proof fn lemma_parse_type_take(toks: Seq<Token>, at: int, n: int)
    requires
        0 <= at < n <= toks.len(),
    ensures
        spec_parse_type(toks.take(n), at) == spec_parse_type(toks, at),
{
}

/// A successful value parse is unchanged by truncating the token sequence
/// anywhere past it.
proof fn lemma_parse_value_take(toks: Seq<Token>, at: int, n: int)
    requires
        0 <= at < n <= toks.len(),
    ensures
        spec_parse_value(toks.take(n), at) == spec_parse_value(toks, at),
{
}

/// A successful field-spec parse is unchanged by truncating the token
/// sequence anywhere strictly past its consumed tokens.
proof fn lemma_field_take(toks: Seq<Token>, at: int, n: int)
    requires
        0 <= at,
        n <= toks.len(),
        spec_parse_field(toks, at) matches Ok((f, m)) && at + m < n,
    ensures
        spec_parse_field(toks.take(n), at) == spec_parse_field(toks, at),
{
    if has_kind(toks, at, TokenKind::ValueFieldReference) {
        lemma_parse_type_take(toks, at + 1, n);
        match spec_parse_type(toks, at + 1) {
            Ok((ty, n1)) => {
                let unique = has_keyword(toks, at + 1 + n1, "UNIQUE"@);
                let at2 = if unique {
                    at + 2 + n1
                } else {
                    at + 1 + n1
                };
                if !has_keyword(toks, at2, "OPTIONAL"@) && has_keyword(toks, at2, "DEFAULT"@) {
                    lemma_parse_value_take(toks, at2 + 1, n);
                }
            },
            Err(_) => {},
        }
    } else if has_kind(toks, at, TokenKind::TypeFieldReference) {
        if !has_keyword(toks, at + 1, "OPTIONAL"@) && has_keyword(toks, at + 1, "DEFAULT"@) {
            lemma_parse_type_take(toks, at + 2, n);
        }
    }
}

/// A successful field-list parse is unchanged by truncating the token
/// sequence anywhere past its consumed tokens.
proof fn lemma_class_fields_take(toks: Seq<Token>, at: int, acc: Seq<FieldSpecModel>, n: int)
    requires
        0 <= at,
        n <= toks.len(),
        spec_parse_class_fields(toks, at, acc) matches Ok((fs, m)) && at + m <= n,
    ensures
        spec_parse_class_fields(toks.take(n), at, acc) == spec_parse_class_fields(toks, at, acc),
    decreases toks.len() - at,
{
    lemma_parse_field_bound(toks, at);
    match spec_parse_field(toks, at) {
        Ok((f, nf)) => {
            lemma_field_take(toks, at, n);
            if !spec_has_field_id(acc, f.id()) && has_kind(toks, at + nf, TokenKind::Comma) {
                lemma_class_fields_take(toks, at + nf + 1, acc.push(f), n);
            }
        },
        Err(_) => {},
    }
}

/// A successful label collection is unchanged by truncating the token
/// sequence anywhere strictly past the `&identifier` it stops on.
proof fn lemma_label_take(toks: Seq<Token>, at: int, first: bool, acc: Seq<char>, n: int)
    requires
        0 <= at,
        n <= toks.len(),
        spec_syntax_label(toks, at, first, acc) matches Ok((l, j)) && j < n,
    ensures
        spec_syntax_label(toks.take(n), at, first, acc) == spec_syntax_label(toks, at, first, acc),
    decreases toks.len() - at,
{
    lemma_syntax_label_bound(toks, at, first, acc);
    if 0 <= at && at < toks.len() && !toks[at].spec_is_and_identifier()
        && !toks[at].spec_is_with_syntax_reserved_word() {
        lemma_label_take(
            toks,
            at + 1,
            false,
            if first {
                toks[at].text@
            } else {
                acc + " "@ + toks[at].text@
            },
            n,
        );
    }
}

/// A successful binder round sequence is unchanged by truncating the token
/// sequence anywhere past its consumed tokens.
proof fn lemma_bind_iter_take(toks: Seq<Token>, at: int, g: bool, fs: Seq<FieldSpecModel>, n: int)
    requires
        0 <= at,
        n <= toks.len(),
        spec_bind_iter(toks, at, g, fs) matches Ok((fs2, m)) && at + m <= n,
    ensures
        spec_bind_iter(toks.take(n), at, g, fs) == spec_bind_iter(toks, at, g, fs),
    decreases toks.len() - at,
{
    let at1 = if has_kind(toks, at, TokenKind::SquareBegin) {
        at + 1
    } else {
        at
    };
    lemma_syntax_label_bound(toks, at1, true, Seq::empty());
    match spec_syntax_label(toks, at1, true, Seq::empty()) {
        Ok((label, j)) => {
            lemma_label_take(toks, at1, true, Seq::empty(), n);
            let id = toks[j].text@;
            let k = spec_field_index(fs, id);
            if k < fs.len() {
                let fs2 = fs.update(k, fs[k].with_label(label));
                let at2 = if has_kind(toks, j + 1, TokenKind::Comma) {
                    j + 2
                } else {
                    j + 1
                };
                let grp = g || has_kind(toks, at, TokenKind::SquareBegin);
                if has_kind(toks, at2, TokenKind::SquareEnd) {
                    if grp && !has_kind(toks, at2 + 1, TokenKind::CurlyEnd) {
                        lemma_bind_iter_bound(toks, at2 + 1, false, fs2);
                        lemma_bind_iter_take(toks, at2 + 1, false, fs2, n);
                    }
                } else if !has_kind(toks, at2, TokenKind::CurlyEnd) {
                    lemma_bind_iter_bound(toks, at2, grp, fs2);
                    lemma_bind_iter_take(toks, at2, grp, fs2, n);
                }
            }
        },
        Err(_) => {},
    }
}

/// A successful binder run is unchanged by truncating the token sequence
/// anywhere past its consumed tokens; in particular, an absent clause stays
/// absent.
proof fn lemma_bind_take(toks: Seq<Token>, at: int, fs: Seq<FieldSpecModel>, n: int)
    requires
        0 <= at,
        n <= toks.len(),
        spec_bind(toks, at, fs) matches Ok((fs2, m)) && at + m <= n,
    ensures
        spec_bind(toks.take(n), at, fs) == spec_bind(toks, at, fs),
{
    if has_keyword(toks, at, "WITH"@) && has_keyword(toks, at + 1, "SYNTAX"@) {
        lemma_bind_iter_bound(toks, at + 3, false, fs);
        lemma_bind_iter_take(toks, at + 3, false, fs, n);
    }
}

/// Token-consumption correctness for classes: a successfully parsed class
/// lies entirely within its consumed prefix. Parsing exactly the consumed
/// tokens yields the same class and the same count, so a caller may slice
/// the buffer at the count and hand the rest to the next parser
/// independently.
pub proof fn lemma_parse_class_consumes_prefix(toks: Seq<Token>)
    requires
        spec_parse_class(toks) is Ok,
    ensures
        spec_parse_class(toks) matches Ok((c, n)) ==> n <= toks.len() && spec_parse_class(
            toks.take(n as int),
        ) == Ok::<(Seq<FieldSpecModel>, nat), ErrorModel>((c, n)),
{
    match spec_parse_class(toks) {
        Ok((c, n)) => {
            lemma_class_fields_bound(toks, 2, Seq::empty());
            match spec_parse_class_fields(toks, 2, Seq::empty()) {
                Ok((fs, nf)) => {
                    lemma_bind_iter_bound(toks, 2 + nf as int + 3, false, fs);
                    lemma_class_fields_take(toks, 2, Seq::empty(), n as int);
                    lemma_bind_take(toks, 2 + nf as int, fs, n as int);
                },
                Err(_) => {},
            }
        },
        Err(_) => {},
    }
}

/// A successful object-set round sequence is unchanged by truncating the
/// token sequence anywhere past its consumed tokens.
#[verifier::rlimit(100)]
#[verifier::spinoff_prover]
proof fn lemma_os_iter_take(
    toks: Seq<Token>,
    at: int,
    ext: bool,
    root: Seq<ObjectSetElementModel>,
    add: Seq<ObjectSetElementModel>,
    n: int,
)
    requires
        0 <= at,
        n <= toks.len(),
        spec_parse_os_iter(toks, at, ext, root, add) matches Ok((ra, m)) && at + m <= n,
    ensures
        spec_parse_os_iter(toks.take(n), at, ext, root, add) == spec_parse_os_iter(
            toks,
            at,
            ext,
            root,
            add,
        ),
    decreases toks.len() - at,
{
    let ext2 = ext || has_kind(toks, at, TokenKind::Extension);
    let at1 = if has_kind(toks, at, TokenKind::Extension) {
        if has_kind(toks, at + 1, TokenKind::Comma) {
            at + 2
        } else {
            at + 1
        }
    } else {
        at
    };
    crate::values::lemma_set_ish_bound(toks, at1);
    let (oe, at2) = (match spec_parse_set_ish(toks, at1) {
        Ok((text, c)) => (Some(ObjectSetElementModel::Object(text)), at1 + c),
        Err(_) => if has_kind(toks, at1, TokenKind::UcIdentifier) {
            (Some(ObjectSetElementModel::ObjectSetReference(toks[at1].text@)), at1 + 1)
        } else if has_kind(toks, at1, TokenKind::LcIdentifier) {
            (Some(ObjectSetElementModel::ObjectReference(toks[at1].text@)), at1 + 1)
        } else {
            (None, at1)
        },
    });
    let (root2, add2) = (match oe {
        Some(e) => if !ext2 {
            (root.push(e), add)
        } else {
            (root, add.push(e))
        },
        None => (root, add),
    });
    let at3 = if has_kind(toks, at2, TokenKind::Comma) {
        at2 + 1
    } else {
        at2
    };
    let at4 = if has_kind(toks, at3, TokenKind::SetUnion) {
        at3 + 1
    } else {
        at3
    };
    if match spec_parse_set_ish(toks, at1) {
        Ok(_) => false,
        Err(_) => has_kind(toks, at1, TokenKind::CurlyBegin),
    } {
        // The inline attempt opened a brace that never closes; the next
        // round is stuck at the same position, so the whole parse fails,
        // contradicting the premise.
        assert(spec_parse_os_iter(toks, at1, ext2, root2, add2) is Err);
    } else {
        match spec_parse_set_ish(toks, at1) {
            Ok((text, c)) => {
                crate::values::lemma_set_ish_take(toks, at1, n);
            },
            Err(_) => {
                if at1 < n && !has_kind(toks, at1, TokenKind::UcIdentifier) && !has_kind(
                    toks,
                    at1,
                    TokenKind::LcIdentifier,
                ) {
                    assert(spec_parse_set_ish(toks.take(n), at1) is Err);
                }
            },
        }
        if !has_kind(toks, at4, TokenKind::CurlyEnd) && at4 != at {
            lemma_os_iter_bound(toks, at4, ext2, root2, add2);
            lemma_os_iter_take(toks, at4, ext2, root2, add2, n);
        }
    }
}

/// Every parsed field spec respects the model invariant: `UNIQUE` and a
/// `DEFAULT` are mutually exclusive, and a fresh field has no syntax label
/// and is unresolved.
pub proof fn lemma_parse_field_wf(toks: Seq<Token>, at: int)
    ensures
        spec_parse_field(toks, at) matches Ok((f, n)) ==> !(f.unique() && f.has_default())
            && f.with_syntax() is None && !f.resolved(),
{
}

proof fn lemma_class_fields_wf(toks: Seq<Token>, at: int, acc: Seq<FieldSpecModel>)
    requires
        crate::ioc::unique_field_ids(acc),
        forall|i: int| 0 <= i < acc.len() ==> !((#[trigger] acc[i]).unique() && acc[i].has_default()),
    ensures
        spec_parse_class_fields(toks, at, acc) matches Ok((fs, m)) ==> crate::ioc::unique_field_ids(
            fs,
        ) && forall|i: int| 0 <= i < fs.len() ==> !((#[trigger] fs[i]).unique() && fs[i].has_default()),
    decreases toks.len() - at,
{
    lemma_parse_field_wf(toks, at);
    match spec_parse_field(toks, at) {
        Ok((f, n)) => {
            if !spec_has_field_id(acc, f.id()) {
                lemma_field_index(acc, f.id());
                let acc2 = acc.push(f);
                assert(crate::ioc::unique_field_ids(acc2)) by {
                    assert forall|i: int, j: int| 0 <= i < j < acc2.len() implies acc2[i].id()
                        != acc2[j].id() by {
                        if j == acc.len() {
                            assert(acc2[i] == acc[i]);
                        }
                    }
                }
                if has_kind(toks, at + n, TokenKind::Comma) {
                    lemma_class_fields_wf(toks, at + n + 1, acc2);
                }
            }
        },
        Err(_) => {},
    }
}

proof fn lemma_bind_iter_keeps_shape(toks: Seq<Token>, at: int, g: bool, fs: Seq<FieldSpecModel>)
    ensures
        spec_bind_iter(toks, at, g, fs) matches Ok((fs2, m)) ==> fs2.len() == fs.len() && forall|
            i: int,
        |
            0 <= i < fs.len() ==> (#[trigger] fs2[i]).id() == fs[i].id() && fs2[i].unique()
                == fs[i].unique() && fs2[i].has_default() == fs[i].has_default(),
    decreases toks.len() - at,
{
    let at1 = if has_kind(toks, at, TokenKind::SquareBegin) {
        at + 1
    } else {
        at
    };
    lemma_syntax_label_bound(toks, at1, true, Seq::empty());
    match spec_syntax_label(toks, at1, true, Seq::empty()) {
        Ok((label, j)) => {
            let id = toks[j].text@;
            let k = spec_field_index(fs, id);
            if k < fs.len() {
                lemma_field_index(fs, id);
                let fs2 = fs.update(k, fs[k].with_label(label));
                assert forall|i: int| 0 <= i < fs.len() implies (#[trigger] fs2[i]).id()
                    == fs[i].id() && fs2[i].unique() == fs[i].unique() && fs2[i].has_default()
                    == fs[i].has_default() by {
                    if i != k {
                        assert(fs2[i] == fs[i]);
                    }
                }
                let at2 = if has_kind(toks, j + 1, TokenKind::Comma) {
                    j + 2
                } else {
                    j + 1
                };
                let grp = g || has_kind(toks, at, TokenKind::SquareBegin);
                if has_kind(toks, at2, TokenKind::SquareEnd) {
                    lemma_bind_iter_keeps_shape(toks, at2 + 1, false, fs2);
                } else {
                    lemma_bind_iter_keeps_shape(toks, at2, grp, fs2);
                }
            }
        },
        Err(_) => {},
    }
}

/// Invariants of a parsed class, as the data model promises them: field ids
/// are unique within the class, no field combines `UNIQUE` with a
/// `DEFAULT`, and the With-Syntax binder changed nothing but syntax labels.
pub proof fn lemma_parse_class_invariants(toks: Seq<Token>)
    requires
        spec_parse_class(toks) is Ok,
    ensures
        spec_parse_class(toks) matches Ok((c, n)) ==> crate::ioc::unique_field_ids(c) && forall|
            i: int,
        | 0 <= i < c.len() ==> !((#[trigger] c[i]).unique() && c[i].has_default()),
{
    lemma_class_fields_wf(toks, 2, Seq::empty());
    match spec_parse_class_fields(toks, 2, Seq::empty()) {
        Ok((fs, nf)) => {
            match spec_bind(toks, 2 + nf as int, fs) {
                Ok((fs2, mb)) => {
                    if has_keyword(toks, 2 + nf as int, "WITH"@) && has_keyword(
                        toks,
                        2 + nf as int + 1,
                        "SYNTAX"@,
                    ) {
                        lemma_bind_iter_keeps_shape(toks, 2 + nf as int + 3, false, fs);
                    }
                    assert(crate::ioc::unique_field_ids(fs2)) by {
                        assert forall|i: int, j: int| 0 <= i < j < fs2.len() implies fs2[i].id()
                            != fs2[j].id() by {}
                    }
                },
                Err(_) => {},
            }
        },
        Err(_) => {},
    }
}

/// Token-consumption correctness for object sets: a successfully parsed
/// object set lies entirely within its consumed prefix. Parsing exactly
/// the consumed tokens yields the same set and the same count, so a caller
/// may slice the buffer at the count and hand the rest to the next parser
/// independently.
pub proof fn lemma_parse_object_set_consumes_prefix(toks: Seq<Token>)
    requires
        spec_parse_object_set(toks) is Ok,
    ensures
        spec_parse_object_set(toks) matches Ok((s, n)) ==> n <= toks.len()
            && spec_parse_object_set(toks.take(n as int)) == Ok::<
            (ObjectSetModel, nat),
            ErrorModel,
        >((s, n)),
{
    match spec_parse_object_set(toks) {
        Ok((s, n)) => {
            lemma_os_iter_bound(toks, 1, false, Seq::empty(), Seq::empty());
            lemma_os_iter_take(toks, 1, false, Seq::empty(), Seq::empty(), n as int);
        },
        Err(_) => {},
    }
}

} // verus!
