//! The in-memory model of Information Object System declarations: class
//! field specs, object classes, objects and object sets, together with the
//! reference collectors that feed the resolver's dependency graph.

use vstd::prelude::*;

use crate::types::{spec_type_refs, strings_view, Asn1Type, TypeModel};

verus! {

/// One named slot declared inside a CLASS.
pub enum ObjectClassFieldSpec {
    /// `&Type`-style field: its value is itself an ASN.1 type, supplied per
    /// object.
    Type {
        id: String,
        default: Option<Asn1Type>,
        optional: bool,
        with_syntax: Option<String>,
        resolved: bool,
    },
    /// `&id`-style field: its value must conform to `field_type`.
    FixedTypeValue {
        id: String,
        field_type: Asn1Type,
        unique: bool,
        default: Option<String>,
        optional: bool,
        with_syntax: Option<String>,
        resolved: bool,
    },
}

/// The mathematical value of an [`ObjectClassFieldSpec`].
pub enum FieldSpecModel {
    Type {
        id: Seq<char>,
        default: Option<TypeModel>,
        optional: bool,
        with_syntax: Option<Seq<char>>,
        resolved: bool,
    },
    FixedTypeValue {
        id: Seq<char>,
        field_type: TypeModel,
        unique: bool,
        default: Option<Seq<char>>,
        optional: bool,
        with_syntax: Option<Seq<char>>,
        resolved: bool,
    },
}

impl View for ObjectClassFieldSpec {
    type V = FieldSpecModel;

    open spec fn view(&self) -> FieldSpecModel {
        match self {
            ObjectClassFieldSpec::Type { id, default, optional, with_syntax, resolved } => {
                FieldSpecModel::Type {
                    id: id@,
                    default: match default {
                        Some(t) => Some(t@),
                        None => None,
                    },
                    optional: *optional,
                    with_syntax: match with_syntax {
                        Some(s) => Some(s@),
                        None => None,
                    },
                    resolved: *resolved,
                }
            },
            ObjectClassFieldSpec::FixedTypeValue {
                id,
                field_type,
                unique,
                default,
                optional,
                with_syntax,
                resolved,
            } => {
                FieldSpecModel::FixedTypeValue {
                    id: id@,
                    field_type: field_type@,
                    unique: *unique,
                    default: match default {
                        Some(s) => Some(s@),
                        None => None,
                    },
                    optional: *optional,
                    with_syntax: match with_syntax {
                        Some(s) => Some(s@),
                        None => None,
                    },
                    resolved: *resolved,
                }
            },
        }
    }
}

impl FieldSpecModel {
    /// The field's id.
    pub open spec fn id(&self) -> Seq<char> {
        match self {
            FieldSpecModel::Type { id, .. } => *id,
            FieldSpecModel::FixedTypeValue { id, .. } => *id,
        }
    }

    /// Whether the field was declared `OPTIONAL`.
    pub open spec fn optional(&self) -> bool {
        match self {
            FieldSpecModel::Type { optional, .. } => *optional,
            FieldSpecModel::FixedTypeValue { optional, .. } => *optional,
        }
    }

    /// Whether the field carries a `DEFAULT`.
    pub open spec fn has_default(&self) -> bool {
        match self {
            FieldSpecModel::Type { default, .. } => default is Some,
            FieldSpecModel::FixedTypeValue { default, .. } => default is Some,
        }
    }

    /// Whether the field was declared `UNIQUE` (only a fixed-type value
    /// field can be).
    pub open spec fn unique(&self) -> bool {
        match self {
            FieldSpecModel::Type { .. } => false,
            FieldSpecModel::FixedTypeValue { unique, .. } => *unique,
        }
    }

    /// Whether the (external) resolver has resolved the field.
    pub open spec fn resolved(&self) -> bool {
        match self {
            FieldSpecModel::Type { resolved, .. } => *resolved,
            FieldSpecModel::FixedTypeValue { resolved, .. } => *resolved,
        }
    }

    /// The label the With-Syntax binder stored for this field, if any.
    pub open spec fn with_syntax(&self) -> Option<Seq<char>> {
        match self {
            FieldSpecModel::Type { with_syntax, .. } => *with_syntax,
            FieldSpecModel::FixedTypeValue { with_syntax, .. } => *with_syntax,
        }
    }

    /// The same field with its syntax label set to `label`.
    pub open spec fn with_label(self, label: Seq<char>) -> FieldSpecModel {
        match self {
            FieldSpecModel::Type { id, default, optional, with_syntax: _, resolved } => {
                FieldSpecModel::Type { id, default, optional, with_syntax: Some(label), resolved }
            },
            FieldSpecModel::FixedTypeValue {
                id,
                field_type,
                unique,
                default,
                optional,
                with_syntax: _,
                resolved,
            } => {
                FieldSpecModel::FixedTypeValue {
                    id,
                    field_type,
                    unique,
                    default,
                    optional,
                    with_syntax: Some(label),
                    resolved,
                }
            },
        }
    }
}

impl ObjectClassFieldSpec {
    /// The field's id.
    pub fn id(&self) -> (r: String)
        ensures
            r@ == self@.id(),
    {
        match self {
            ObjectClassFieldSpec::Type { id, .. } => id.clone(),
            ObjectClassFieldSpec::FixedTypeValue { id, .. } => id.clone(),
        }
    }

    /// Whether the (external) resolver has resolved the field.
    pub fn resolved(&self) -> (r: bool)
        ensures
            r == self@.resolved(),
    {
        match self {
            ObjectClassFieldSpec::Type { resolved, .. } => *resolved,
            ObjectClassFieldSpec::FixedTypeValue { resolved, .. } => *resolved,
        }
    }
}

/// The view of a field list as a sequence of field models, in declaration
/// order.
pub open spec fn fields_view(fields: Seq<ObjectClassFieldSpec>) -> Seq<FieldSpecModel> {
    fields.map_values(|f: ObjectClassFieldSpec| f@)
}

/// An object class: its field specs, keyed by id, in declaration order.
/// Ids are unique within one class; the class parser refuses a duplicate.
pub struct Asn1ObjectClass {
    pub fields: Vec<ObjectClassFieldSpec>,
}

impl View for Asn1ObjectClass {
    type V = Seq<FieldSpecModel>;

    open spec fn view(&self) -> Seq<FieldSpecModel> {
        fields_view(self.fields@)
    }
}

/// Ids are unique within the field list.
pub open spec fn unique_field_ids(fs: Seq<FieldSpecModel>) -> bool {
    forall|i: int, j: int| 0 <= i < j < fs.len() ==> fs[i].id() != fs[j].id()
}

/// One element of an object set.
pub enum ObjectSetElement {
    /// A reference to an object set declared elsewhere.
    ObjectSetReference(String),
    /// A reference to an object declared elsewhere.
    ObjectReference(String),
    /// An object defined inline, kept as raw text.
    Object(String),
}

/// The mathematical value of an [`ObjectSetElement`].
pub enum ObjectSetElementModel {
    ObjectSetReference(Seq<char>),
    ObjectReference(Seq<char>),
    Object(Seq<char>),
}

impl View for ObjectSetElement {
    type V = ObjectSetElementModel;

    open spec fn view(&self) -> ObjectSetElementModel {
        match self {
            ObjectSetElement::ObjectSetReference(s) => ObjectSetElementModel::ObjectSetReference(
                s@,
            ),
            ObjectSetElement::ObjectReference(s) => ObjectSetElementModel::ObjectReference(s@),
            ObjectSetElement::Object(s) => ObjectSetElementModel::Object(s@),
        }
    }
}

/// The view of an element list as a sequence of element models.
pub open spec fn elems_view(es: Seq<ObjectSetElement>) -> Seq<ObjectSetElementModel> {
    es.map_values(|e: ObjectSetElement| e@)
}

/// An object set: the elements of its fixed root, and the elements after
/// the extensibility marker (non-empty only if a marker was present). Both
/// keep declaration order, which is observable downstream.
pub struct ObjectSet {
    pub root_elements: Vec<ObjectSetElement>,
    pub additional_elements: Vec<ObjectSetElement>,
}

/// The mathematical value of an [`ObjectSet`].
pub struct ObjectSetModel {
    pub root_elements: Seq<ObjectSetElementModel>,
    pub additional_elements: Seq<ObjectSetElementModel>,
}

impl View for ObjectSet {
    type V = ObjectSetModel;

    open spec fn view(&self) -> ObjectSetModel {
        ObjectSetModel {
            root_elements: elems_view(self.root_elements@),
            additional_elements: elems_view(self.additional_elements@),
        }
    }
}

/// A standalone named OBJECT declaration; its value is kept as raw text.
pub struct Asn1Object {
    pub class: String,
    pub value: String,
}

/// The mathematical value of an [`Asn1Object`].
pub struct Asn1ObjectModel {
    pub class: Seq<char>,
    pub value: Seq<char>,
}

impl View for Asn1Object {
    type V = Asn1ObjectModel;

    open spec fn view(&self) -> Asn1ObjectModel {
        Asn1ObjectModel { class: self.class@, value: self.value@ }
    }
}

/// An object set declared for a named class.
pub struct Asn1ObjectSet {
    pub class: String,
    pub objects: ObjectSet,
}

/// The mathematical value of an [`Asn1ObjectSet`].
pub struct Asn1ObjectSetModel {
    pub class: Seq<char>,
    pub objects: ObjectSetModel,
}

impl View for Asn1ObjectSet {
    type V = Asn1ObjectSetModel;

    open spec fn view(&self) -> Asn1ObjectSetModel {
        Asn1ObjectSetModel { class: self.class@, objects: self.objects@ }
    }
}

/// The dependency edges one field contributes: the type references of a
/// fixed-type value field; a type field contributes nothing, since its
/// concrete type is supplied per object.
pub open spec fn field_refs(f: FieldSpecModel) -> Seq<Seq<char>> {
    match f {
        FieldSpecModel::FixedTypeValue { field_type, .. } => spec_type_refs(field_type),
        FieldSpecModel::Type { .. } => Seq::empty(),
    }
}

/// Appends to `acc` those of `xs[j..]` not already present, keeping first
/// occurrences in order.
pub open spec fn spec_dedup_from(xs: Seq<Seq<char>>, j: int, acc: Seq<Seq<char>>) -> Seq<Seq<char>>
    decreases xs.len() - j,
{
    if j < 0 || j >= xs.len() {
        acc
    } else if acc.contains(xs[j]) {
        spec_dedup_from(xs, j + 1, acc)
    } else {
        spec_dedup_from(xs, j + 1, acc.push(xs[j]))
    }
}

/// Folds the de-duplicated reference lists of the fields from `i` on into
/// `acc`.
pub open spec fn spec_class_refs_from(
    fs: Seq<FieldSpecModel>,
    i: int,
    acc: Seq<Seq<char>>,
) -> Seq<Seq<char>>
    decreases fs.len() - i,
{
    if i < 0 || i >= fs.len() {
        acc
    } else {
        spec_class_refs_from(fs, i + 1, spec_dedup_from(field_refs(fs[i]), 0, acc))
    }
}

/// The names of the other declarations a class depends on: the type
/// references of its fixed-type value fields, flattened in declaration
/// order and de-duplicated (first occurrence kept).
pub open spec fn spec_class_refs(fs: Seq<FieldSpecModel>) -> Seq<Seq<char>> {
    spec_class_refs_from(fs, 0, Seq::empty())
}

/// The sequence has no repeated element.
pub open spec fn no_dup(s: Seq<Seq<char>>) -> bool {
    forall|i: int, j: int| 0 <= i < j < s.len() ==> s[i] != s[j]
}

proof fn lemma_dedup_from_props(xs: Seq<Seq<char>>, j: int, acc: Seq<Seq<char>>)
    requires
        0 <= j,
    ensures
        forall|x: Seq<char>| #[trigger] spec_dedup_from(xs, j, acc).contains(x) <==> (acc.contains(
            x,
        ) || exists|k: int| j <= k < xs.len() && xs[k] == x),
        no_dup(acc) ==> no_dup(spec_dedup_from(xs, j, acc)),
    decreases xs.len() - j,
{
    if j < 0 || j >= xs.len() {
    } else if acc.contains(xs[j]) {
        lemma_dedup_from_props(xs, j + 1, acc);
        assert forall|x: Seq<char>| #[trigger] spec_dedup_from(xs, j, acc).contains(x) implies (
        acc.contains(x) || exists|k: int| j <= k < xs.len() && xs[k] == x) by {
            assert(spec_dedup_from(xs, j + 1, acc).contains(x));
            if !acc.contains(x) {
                let k = choose|k: int| j + 1 <= k < xs.len() && xs[k] == x;
                assert(j <= k < xs.len() && xs[k] == x);
            }
        }
        assert forall|x: Seq<char>|
            acc.contains(x) || (exists|k: int| j <= k < xs.len() && xs[k] == x) implies #[trigger]
        spec_dedup_from(xs, j, acc).contains(x) by {
            if acc.contains(x) {
                assert(spec_dedup_from(xs, j + 1, acc).contains(x));
            } else {
                let k = choose|k: int| j <= k < xs.len() && xs[k] == x;
                if k == j {
                    assert(acc.contains(x));
                } else {
                    assert(j + 1 <= k < xs.len() && xs[k] == x);
                    assert(spec_dedup_from(xs, j + 1, acc).contains(x));
                }
            }
        }
    } else {
        let acc2 = acc.push(xs[j]);
        lemma_dedup_from_props(xs, j + 1, acc2);
        assert forall|x: Seq<char>| #[trigger] acc2.contains(x) implies (acc.contains(x) || xs[j]
            == x) by {
            let k = choose|k: int| 0 <= k < acc2.len() && acc2[k] == x;
            if k < acc.len() {
                assert(acc[k] == x);
                assert(acc.contains(x));
            }
        }
        assert forall|x: Seq<char>| acc.contains(x) implies #[trigger] acc2.contains(x) by {
            let k = choose|k: int| 0 <= k < acc.len() && acc[k] == x;
            assert(acc2[k] == x);
            assert(acc2.contains(x));
        }
        assert(acc2.contains(xs[j])) by {
            assert(acc2[acc.len() as int] == xs[j]);
        }
        assert forall|x: Seq<char>| #[trigger] spec_dedup_from(xs, j, acc).contains(x) implies (
        acc.contains(x) || exists|k: int| j <= k < xs.len() && xs[k] == x) by {
            assert(spec_dedup_from(xs, j + 1, acc2).contains(x));
            if !acc.contains(x) {
                if acc2.contains(x) {
                    assert(xs[j] == x);
                    assert(j <= j < xs.len() && xs[j] == x);
                } else {
                    let k = choose|k: int| j + 1 <= k < xs.len() && xs[k] == x;
                    assert(j <= k < xs.len() && xs[k] == x);
                }
            }
        }
        assert forall|x: Seq<char>|
            acc.contains(x) || (exists|k: int| j <= k < xs.len() && xs[k] == x) implies #[trigger]
        spec_dedup_from(xs, j, acc).contains(x) by {
            if acc.contains(x) {
                assert(acc2.contains(x));
                assert(spec_dedup_from(xs, j + 1, acc2).contains(x));
            } else {
                let k = choose|k: int| j <= k < xs.len() && xs[k] == x;
                if k == j {
                    assert(acc2.contains(x));
                } else {
                    assert(j + 1 <= k < xs.len() && xs[k] == x);
                }
                assert(spec_dedup_from(xs, j + 1, acc2).contains(x));
            }
        }
        if no_dup(acc) {
            assert(no_dup(acc2)) by {
                assert forall|i1: int, j1: int| 0 <= i1 < j1 < acc2.len() implies acc2[i1]
                    != acc2[j1] by {
                    if j1 == acc.len() {
                        assert(acc2[i1] == acc[i1]);
                        assert(acc.contains(acc[i1]));
                    }
                }
            }
        }
    }
}

proof fn lemma_class_refs_from_props(fs: Seq<FieldSpecModel>, i: int, acc: Seq<Seq<char>>)
    requires
        0 <= i,
    ensures
        forall|x: Seq<char>| #[trigger] spec_class_refs_from(fs, i, acc).contains(x) <==> (
        acc.contains(x) || exists|k: int|
            i <= k < fs.len() && #[trigger] field_refs(fs[k]).contains(x)),
        no_dup(acc) ==> no_dup(spec_class_refs_from(fs, i, acc)),
    decreases fs.len() - i,
{
    if i < 0 || i >= fs.len() {
    } else {
        let fr = field_refs(fs[i]);
        let acc2 = spec_dedup_from(fr, 0, acc);
        lemma_dedup_from_props(fr, 0, acc);
        lemma_class_refs_from_props(fs, i + 1, acc2);
        assert forall|x: Seq<char>| #[trigger] spec_class_refs_from(fs, i, acc).contains(
            x,
        ) implies (acc.contains(x) || exists|k: int|
            i <= k < fs.len() && #[trigger] field_refs(fs[k]).contains(x)) by {
            assert(spec_class_refs_from(fs, i + 1, acc2).contains(x));
            if !acc.contains(x) {
                if acc2.contains(x) {
                    assert(fr.contains(x));
                    assert(i <= i < fs.len() && field_refs(fs[i]).contains(x));
                } else {
                    let k = choose|k: int|
                        i + 1 <= k < fs.len() && #[trigger] field_refs(fs[k]).contains(x);
                    assert(i <= k < fs.len() && field_refs(fs[k]).contains(x));
                }
            }
        }
        assert forall|x: Seq<char>|
            acc.contains(x) || (exists|k: int|
                i <= k < fs.len() && #[trigger] field_refs(fs[k]).contains(x)) implies #[trigger]
        spec_class_refs_from(fs, i, acc).contains(x) by {
            if acc.contains(x) {
                assert(acc2.contains(x));
                assert(spec_class_refs_from(fs, i + 1, acc2).contains(x));
            } else {
                let k = choose|k: int|
                    i <= k < fs.len() && #[trigger] field_refs(fs[k]).contains(x);
                if k == i {
                    assert(fr.contains(x));
                    assert(acc2.contains(x));
                } else {
                    assert(i + 1 <= k < fs.len() && field_refs(fs[k]).contains(x));
                }
                assert(spec_class_refs_from(fs, i + 1, acc2).contains(x));
            }
        }
    }
}

/// The reference collector of a class de-duplicates and flattens: its result
/// holds a name exactly when some field's type references hold it, and holds
/// no name twice.
pub proof fn lemma_class_dependent_references(fs: Seq<FieldSpecModel>)
    ensures
        forall|x: Seq<char>| #[trigger] spec_class_refs(fs).contains(x) <==> exists|k: int|
            0 <= k < fs.len() && #[trigger] field_refs(fs[k]).contains(x),
        no_dup(spec_class_refs(fs)),
{
    lemma_class_refs_from_props(fs, 0, Seq::empty());
}

/// `strings_view` distributes over push.
pub proof fn lemma_strings_view_push(v: Seq<String>, s: String)
    ensures
        strings_view(v.push(s)) == strings_view(v).push(s@),
{
    assert(strings_view(v.push(s)) =~= strings_view(v).push(s@));
}

/// Is `s` already among the strings of `v`?
fn contains_string(v: &Vec<String>, s: &String) -> (r: bool)
    ensures
        r == strings_view(v@).contains(s@),
{
    let mut i: usize = 0;
    while i < v.len()
        invariant
            i <= v@.len(),
            forall|k: int| 0 <= k < i ==> v@[k]@ != s@,
        decreases v@.len() - i,
    {
        if v[i] == *s {
            proof {
                assert(strings_view(v@)[i as int] == s@);
            }
            return true;
        }
        i = i + 1;
    }
    proof {
        if strings_view(v@).contains(s@) {
            let k = choose|k: int| 0 <= k < strings_view(v@).len() && strings_view(v@)[k] == s@;
            assert(v@[k]@ == s@);
        }
    }
    false
}

impl Asn1ObjectClass {
    /// The names of the other declarations this class depends on: the type
    /// references of its fixed-type value fields, flattened in declaration
    /// order, first occurrence kept, no name twice.
    pub fn dependent_references(&self) -> (r: Vec<String>)
        ensures
            strings_view(r@) == spec_class_refs(self@),
    {
        let mut out: Vec<String> = Vec::new();
        let mut i: usize = 0;
        proof {
            assert(self@.len() == self.fields@.len());
            assert(strings_view(out@) =~= Seq::<Seq<char>>::empty());
        }
        while i < self.fields.len()
            invariant
                i <= self.fields@.len(),
                self@ == fields_view(self.fields@),
                self@.len() == self.fields@.len(),
                spec_class_refs_from(self@, i as int, strings_view(out@)) == spec_class_refs(
                    self@,
                ),
            decreases self.fields@.len() - i,
        {
            proof {
                assert(self@[i as int] == self.fields@[i as int]@);
            }
            match &self.fields[i] {
                ObjectClassFieldSpec::FixedTypeValue { field_type, .. } => {
                    let refs = field_type.dependent_references();
                    proof {
                        assert(strings_view(refs@) == field_refs(self@[i as int]));
                    }
                    let mut j: usize = 0;
                    while j < refs.len()
                        invariant
                            j <= refs@.len(),
                            i < self.fields@.len(),
                            self@ == fields_view(self.fields@),
                            self@.len() == self.fields@.len(),
                            strings_view(refs@) == field_refs(self@[i as int]),
                            spec_class_refs_from(
                                self@,
                                i + 1,
                                spec_dedup_from(
                                    field_refs(self@[i as int]),
                                    j as int,
                                    strings_view(out@),
                                ),
                            ) == spec_class_refs(self@),
                        decreases refs@.len() - j,
                    {
                        proof {
                            assert(field_refs(self@[i as int])[j as int] == refs@[j as int]@);
                        }
                        if !contains_string(&out, &refs[j]) {
                            let ghost old_out = out@;
                            out.push(refs[j].clone());
                            proof {
                                lemma_strings_view_push(old_out, refs@[j as int]);
                            }
                        }
                        j = j + 1;
                    }
                },
                ObjectClassFieldSpec::Type { .. } => {
                    proof {
                        assert(field_refs(self@[i as int]) == Seq::<Seq<char>>::empty());
                    }
                },
            }
            i = i + 1;
        }
        out
    }
}

/// The dependency edge one object-set element contributes: the referenced
/// name for a reference, nothing for an inline object (its opaque text is
/// not traversed — a known limitation).
pub open spec fn elem_refs(e: ObjectSetElementModel) -> Seq<Seq<char>> {
    match e {
        ObjectSetElementModel::ObjectSetReference(n) => seq![n],
        ObjectSetElementModel::ObjectReference(n) => seq![n],
        ObjectSetElementModel::Object(_) => Seq::empty(),
    }
}

/// Appends the references of the elements from `i` on to `acc`, in order.
pub open spec fn spec_elems_refs_from(
    es: Seq<ObjectSetElementModel>,
    i: int,
    acc: Seq<Seq<char>>,
) -> Seq<Seq<char>>
    decreases es.len() - i,
{
    if i < 0 || i >= es.len() {
        acc
    } else {
        spec_elems_refs_from(es, i + 1, acc + elem_refs(es[i]))
    }
}

/// The names an object set references: every object-set and object
/// reference of the root elements, then of the additional elements, in
/// declaration order.
pub open spec fn spec_object_set_refs(m: ObjectSetModel) -> Seq<Seq<char>> {
    spec_elems_refs_from(
        m.additional_elements,
        0,
        spec_elems_refs_from(m.root_elements, 0, Seq::empty()),
    )
}

/// Appends the references of `es` to `out`.
fn collect_elem_refs(es: &Vec<ObjectSetElement>, out: &mut Vec<String>)
    ensures
        strings_view(final(out)@) == spec_elems_refs_from(
            elems_view(es@),
            0,
            strings_view(old(out)@),
        ),
{
    let mut i: usize = 0;
    while i < es.len()
        invariant
            i <= es@.len(),
            spec_elems_refs_from(elems_view(es@), i as int, strings_view(out@))
                == spec_elems_refs_from(elems_view(es@), 0, strings_view(old(out)@)),
        decreases es@.len() - i,
    {
        proof {
            assert(elems_view(es@)[i as int] == es@[i as int]@);
        }
        let ghost prev = out@;
        match &es[i] {
            ObjectSetElement::ObjectSetReference(n) => {
                out.push(n.clone());
                proof {
                    assert(strings_view(out@) =~= strings_view(prev) + elem_refs(
                        elems_view(es@)[i as int],
                    ));
                }
            },
            ObjectSetElement::ObjectReference(n) => {
                out.push(n.clone());
                proof {
                    assert(strings_view(out@) =~= strings_view(prev) + elem_refs(
                        elems_view(es@)[i as int],
                    ));
                }
            },
            ObjectSetElement::Object(_) => {
                proof {
                    assert(strings_view(out@) =~= strings_view(prev) + elem_refs(
                        elems_view(es@)[i as int],
                    ));
                }
            },
        }
        i = i + 1;
    }
}

impl ObjectSet {
    /// The names this object set references: every object-set and object
    /// reference of the root elements, then of the additional elements, in
    /// declaration order.
    pub fn dependent_references(&self) -> (r: Vec<String>)
        ensures
            strings_view(r@) == spec_object_set_refs(self@),
    {
        let mut out: Vec<String> = Vec::new();
        proof {
            assert(strings_view(out@) =~= Seq::<Seq<char>>::empty());
        }
        collect_elem_refs(&self.root_elements, &mut out);
        collect_elem_refs(&self.additional_elements, &mut out);
        out
    }
}

impl Asn1ObjectSet {
    /// The names this named object set depends on: its class, then every
    /// reference of its object set.
    pub fn dependent_references(&self) -> (r: Vec<String>)
        ensures
            strings_view(r@) == seq![self.class@] + spec_object_set_refs(self.objects@),
    {
        let mut out: Vec<String> = Vec::new();
        out.push(self.class.clone());
        let mut rest = self.objects.dependent_references();
        out.append(&mut rest);
        proof {
            assert(strings_view(out@) =~= seq![self.class@] + spec_object_set_refs(self.objects@));
        }
        out
    }
}

} // verus!
