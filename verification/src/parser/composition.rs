//! Structures put together from several schemas.
use crate::models::{Field, FieldView, ModelType, ModelTypeView};
use crate::openapi::view::{
    lemma_schema_view, RefOrView, SchemaShapeView, SchemaTypeView, SchemaView,
};
use crate::openapi::{RefOr, SchemaDef, SchemaShape, SchemaType};
use crate::parser::fields::{find_schema, referenced_schema};
use crate::parser::parts::{extract_fields_from_schema, part_fields, part_models};
use crate::slots::{find_slot, keys_of, lemma_position_of, new_slots, position_of, set_slot, slots};
use crate::text::{concat3, same_text};
use vstd::hash_set::StringHashSet;
use vstd::prelude::*;

verus! {

broadcast use lemma_schema_view;

/// The schema that a part of a composition stands for: itself, or the one that it refers to.
pub open spec fn resolved(
    schema: RefOrView<SchemaView>,
    schemas: Seq<(Seq<char>, RefOrView<SchemaView>)>,
) -> Option<RefOrView<SchemaView>> {
    match schema {
        RefOrView::Reference { reference } => referenced_schema(reference, schemas),
        RefOrView::Item(_) => Some(schema),
    }
}

/// Finds the schema that a part of a composition stands for.
pub(crate) fn resolve<'a>(
    schema: &'a RefOr<SchemaDef>,
    all_schemas: &'a Vec<(String, RefOr<SchemaDef>)>,
) -> (r: Option<&'a RefOr<SchemaDef>>)
    ensures
        r.deep_view() == resolved(schema.deep_view(), all_schemas.deep_view()),
{
    match schema {
        RefOr::Reference { reference } => find_schema(reference.as_str(), all_schemas),
        RefOr::Item(_) => Some(schema),
    }
}

/// The field that is left of two with the same name. A field of an unknown type gives way to
/// the later one; one that holds values of an unknown type takes over the later one's type;
/// any other stays as it is.
pub open spec fn refined(existing: FieldView, later: FieldView) -> FieldView {
    let t = existing.field_type;
    if t == "serde_json::Value"@ || t == "std::collections::HashMap<String, serde_json::Value>"@ {
        later
    } else if t == "Option<serde_json::Value>"@ || t
        == "Option<std::collections::HashMap<String, serde_json::Value>>"@ {
        FieldView { field_type: "Option<"@ + later.field_type + ">"@, ..existing }
    } else if t == "Vec<serde_json::Value>"@ {
        FieldView { field_type: "Vec<"@ + later.field_type + ">"@, ..existing }
    } else if t == "Option<Vec<serde_json::Value>>"@ {
        FieldView { field_type: "Option<Vec<"@ + later.field_type + ">>"@, ..existing }
    } else {
        existing
    }
}

/// The names of some fields.
pub open spec fn names_of(fields: Seq<FieldView>) -> Seq<Seq<char>> {
    fields.map_values(|f: FieldView| f.name)
}

/// The fields with one more: merged into the one of its name, or added at the end.
pub open spec fn with_field(fields: Seq<FieldView>, field: FieldView) -> Seq<FieldView> {
    match position_of(names_of(fields), field.name) {
        Some(i) => fields.update(i, refined(fields[i], field)),
        None => fields.push(field),
    }
}

/// The fields with some more, one after the other.
pub open spec fn with_fields(fields: Seq<FieldView>, more: Seq<FieldView>) -> Seq<FieldView>
    decreases more.len(),
{
    if more.len() == 0 {
        fields
    } else {
        with_field(with_fields(fields, more.drop_last()), more.last())
    }
}

/// The merged fields of some parts.
pub open spec fn merged_fields(
    parts: Seq<RefOrView<SchemaView>>,
    schemas: Seq<(Seq<char>, RefOrView<SchemaView>)>,
) -> Seq<FieldView>
    decreases parts.len(),
{
    if parts.len() == 0 {
        Seq::empty()
    } else {
        let before = merged_fields(parts.drop_last(), schemas);
        match resolved(parts.last(), schemas) {
            Some(part) => with_fields(before, part_fields(part, schemas)),
            None => before,
        }
    }
}

/// The models that some parts contribute, in order.
pub open spec fn models_of_parts(
    parts: Seq<RefOrView<SchemaView>>,
    schemas: Seq<(Seq<char>, RefOrView<SchemaView>)>,
) -> Seq<ModelTypeView>
    decreases parts.len(),
{
    if parts.len() == 0 {
        Seq::empty()
    } else {
        let before = models_of_parts(parts.drop_last(), schemas);
        match resolved(parts.last(), schemas) {
            Some(part) => before + part_models(part, schemas),
            None => before,
        }
    }
}

/// Whether a part is an object that requires the given field.
pub open spec fn part_requires(
    part: RefOrView<SchemaView>,
    name: Seq<char>,
    schemas: Seq<(Seq<char>, RefOrView<SchemaView>)>,
) -> bool {
    resolved(part, schemas) matches Some(RefOrView::Item(schema))
        && schema.schema_kind matches SchemaShapeView::Type(SchemaTypeView::Object(obj))
        && obj.required.contains(name)
}

/// Whether one of the parts requires the given field.
pub open spec fn any_part_requires(
    parts: Seq<RefOrView<SchemaView>>,
    name: Seq<char>,
    schemas: Seq<(Seq<char>, RefOrView<SchemaView>)>,
) -> bool {
    exists|i: int| 0 <= i < parts.len() && part_requires(#[trigger] parts[i], name, schemas)
}

/// The fields of a composition: those of its parts, merged, each required where one of the
/// parts requires it.
pub open spec fn all_of_fields(
    parts: Seq<RefOrView<SchemaView>>,
    schemas: Seq<(Seq<char>, RefOrView<SchemaView>)>,
) -> Seq<FieldView> {
    merged_fields(parts, schemas).map_values(
        |f: FieldView|
            FieldView {
                is_required: f.is_required || any_part_requires(parts, f.name, schemas),
                ..f
            },
    )
}

fn refine(existing: &mut Field, later: Field)
    ensures
        final(existing).deep_view() == refined(old(existing).deep_view(), later.deep_view()),
{
    let t = existing.field_type.as_str();
    let inner = later.field_type.as_str();
    if same_text(t, "serde_json::Value") || same_text(
        t,
        "std::collections::HashMap<String, serde_json::Value>",
    ) {
        *existing = later;
    } else if same_text(t, "Option<serde_json::Value>") || same_text(
        t,
        "Option<std::collections::HashMap<String, serde_json::Value>>",
    ) {
        existing.field_type = concat3("Option<", inner, ">");
    } else if same_text(t, "Vec<serde_json::Value>") {
        existing.field_type = concat3("Vec<", inner, ">");
    } else if same_text(t, "Option<Vec<serde_json::Value>>") {
        existing.field_type = concat3("Option<Vec<", inner, ">>");
    }
}

/// Fields under their names, in the order in which the names first came.
struct FieldTable {
    fields: Vec<Field>,
    index: indexmap::IndexMap<String, usize>,
}

impl FieldTable {
    /// The slot of each name is the place of the field of that name.
    spec fn well_formed(self) -> bool {
        slots(self.index) == Seq::new(
            self.fields@.len(),
            |i: int| (self.fields@[i].name@, i as usize),
        )
    }

    fn new() -> (r: Self)
        ensures
            r.well_formed(),
            r.fields.deep_view() == Seq::<FieldView>::empty(),
    {
        let r = FieldTable { fields: Vec::new(), index: new_slots() };
        assert(slots(r.index) =~= Seq::new(
            r.fields@.len(),
            |i: int| (r.fields@[i].name@, i as usize),
        ));
        assert(r.fields.deep_view() =~= Seq::<FieldView>::empty());
        r
    }

    /// Merges a field into the one of its name, or adds it at the end.
    fn put(&mut self, field: Field)
        requires
            old(self).well_formed(),
        ensures
            final(self).well_formed(),
            final(self).fields.deep_view() == with_field(
                old(self).fields.deep_view(),
                field.deep_view(),
            ),
    {
        let ghost before = self.fields.deep_view();
        let ghost name = field.name@;
        assert(keys_of(slots(self.index)) =~= names_of(before));
        proof {
            lemma_position_of(names_of(before), name);
        }
        let slot: usize = self.fields.len();
        match find_slot(&self.index, field.name.as_str()) {
            Some(i) => {
                assert(position_of(names_of(before), name) == Some(i as int));
                refine(&mut self.fields[i], field);
                assert(self.fields.deep_view() =~= with_field(before, field.deep_view()));
                assert(slots(self.index) =~= Seq::new(
                    self.fields@.len(),
                    |i: int| (self.fields@[i].name@, i as usize),
                ));
            },
            None => {
                let key = field.name.clone();
                self.fields.push(field);
                set_slot(&mut self.index, key, slot);
                assert(slots(self.index) =~= Seq::new(
                    self.fields@.len(),
                    |i: int| (self.fields@[i].name@, i as usize),
                ));
                assert(self.fields.deep_view() =~= with_field(before, field.deep_view()));
            },
        }
    }
}

/// Collects the names of the fields that the parts of a composition require.
fn collect_required(
    all_of: &Vec<RefOr<SchemaDef>>,
    all_schemas: &Vec<(String, RefOr<SchemaDef>)>,
) -> (r: StringHashSet)
    ensures
        forall|name: Seq<char>| #[trigger]
            r@.contains(name) == any_part_requires(
                all_of.deep_view(),
                name,
                all_schemas.deep_view(),
            ),
{
    let mut required = StringHashSet::new();
    for i in 0..all_of.len()
        invariant
            forall|name: Seq<char>| #[trigger]
                required@.contains(name) == any_part_requires(
                    all_of.deep_view().take(i as int),
                    name,
                    all_schemas.deep_view(),
                ),
    {
        let ghost before = required@;
        let ghost here = all_of.deep_view().take(i as int);
        let ghost next = all_of.deep_view().take(i + 1);
        assert forall|name: Seq<char>|
            any_part_requires(next, name, all_schemas.deep_view()) == (any_part_requires(
                here,
                name,
                all_schemas.deep_view(),
            ) || part_requires(all_of.deep_view()[i as int], name, all_schemas.deep_view())) by {
            lemma_any_part_requires_push(
                here,
                all_of.deep_view()[i as int],
                name,
                all_schemas.deep_view(),
            );
            assert(here.push(all_of.deep_view()[i as int]) =~= next);
        }
        if let Some(RefOr::Item(schema)) = resolve(&all_of[i], all_schemas) {
            if let SchemaShape::Type(SchemaType::Object(obj)) = &schema.schema_kind {
                for k in 0..obj.required.len()
                    invariant
                        forall|name: Seq<char>| #[trigger]
                            required@.contains(name) == (before.contains(name)
                                || obj.required.deep_view().take(k as int).contains(name)),
                {
                    let ghost names = obj.required.deep_view();
                    assert(names.take(k + 1) =~= names.take(k as int).push(names[k as int]));
                    required.insert(obj.required[k].clone());
                    assert forall|name: Seq<char>|
                        names.take(k + 1).contains(name) == (names.take(k as int).contains(name)
                            || name == names[k as int]) by {
                        lemma_push_contains(names.take(k as int), names[k as int], name);
                    }
                }
                let ghost names = obj.required.deep_view();
                assert(names.take(names.len() as int) =~= names);
            }
        }
    }
    assert(all_of.deep_view().take(all_of.len() as int) =~= all_of.deep_view());
    required
}

proof fn lemma_push_contains<A>(s: Seq<A>, a: A, x: A)
    ensures
        s.push(a).contains(x) == (s.contains(x) || x == a),
{
    if s.contains(x) {
        let i = choose|i: int| 0 <= i < s.len() && s[i] == x;
        assert(s.push(a)[i] == x);
    }
    assert(s.push(a)[s.len() as int] == a);
}

proof fn lemma_any_part_requires_push(
    parts: Seq<RefOrView<SchemaView>>,
    part: RefOrView<SchemaView>,
    name: Seq<char>,
    schemas: Seq<(Seq<char>, RefOrView<SchemaView>)>,
)
    ensures
        any_part_requires(parts.push(part), name, schemas) == (any_part_requires(
            parts,
            name,
            schemas,
        ) || part_requires(part, name, schemas)),
{
    let more = parts.push(part);
    if any_part_requires(parts, name, schemas) {
        let i = choose|i: int|
            0 <= i < parts.len() && part_requires(#[trigger] parts[i], name, schemas);
        assert(part_requires(more[i], name, schemas));
    }
    if part_requires(part, name, schemas) {
        assert(part_requires(more[parts.len() as int], name, schemas));
    }
    if any_part_requires(more, name, schemas) && !part_requires(part, name, schemas) {
        let i = choose|i: int|
            0 <= i < more.len() && part_requires(#[trigger] more[i], name, schemas);
        assert(part_requires(parts[i], name, schemas));
    }
}

/// Puts the fields of a composition together from its parts, and collects the models that the
/// parts contribute.
pub fn resolve_all_of_fields(
    all_of: &Vec<RefOr<SchemaDef>>,
    all_schemas: &Vec<(String, RefOr<SchemaDef>)>,
) -> (r: (Vec<Field>, Vec<ModelType>))
    ensures
        r.0.deep_view() == all_of_fields(all_of.deep_view(), all_schemas.deep_view()),
        r.1.deep_view() == models_of_parts(all_of.deep_view(), all_schemas.deep_view()),
{
    let required = collect_required(all_of, all_schemas);
    let mut table = FieldTable::new();
    let mut models: Vec<ModelType> = Vec::new();
    for i in 0..all_of.len()
        invariant
            table.well_formed(),
            table.fields.deep_view() == merged_fields(
                all_of.deep_view().take(i as int),
                all_schemas.deep_view(),
            ),
            models.deep_view() == models_of_parts(
                all_of.deep_view().take(i as int),
                all_schemas.deep_view(),
            ),
    {
        assert(all_of.deep_view().take(i + 1).drop_last() =~= all_of.deep_view().take(i as int));
        if let Some(part) = resolve(&all_of[i], all_schemas) {
            let ghost fields_before = table.fields.deep_view();
            let ghost models_before = models.deep_view();
            let (fields, mut inline_models) = extract_fields_from_schema(part, all_schemas);
            let ghost more = fields.deep_view();
            for field in it: fields
                invariant
                    it.seq() == fields@,
                    more == fields.deep_view(),
                    table.well_formed(),
                    table.fields.deep_view() == with_fields(fields_before, more.take(it.index())),
            {
                assert(more.take(it.index() + 1).drop_last() =~= more.take(it.index()));
                assert(more[it.index()] == field.deep_view());
                table.put(field);
            }
            assert(more.take(more.len() as int) =~= more);
            let ghost new_models = inline_models.deep_view();
            models.append(&mut inline_models);
            assert(models.deep_view() =~= models_before + new_models);
        }
    }
    assert(all_of.deep_view().take(all_of.len() as int) =~= all_of.deep_view());
    let mut all_fields = table.fields;
    let ghost merged = all_fields.deep_view();
    let ghost result = all_of_fields(all_of.deep_view(), all_schemas.deep_view());
    let count: usize = all_fields.len();
    for i in 0..count
        invariant
            count == merged.len(),
            merged == merged_fields(all_of.deep_view(), all_schemas.deep_view()),
            result == all_of_fields(all_of.deep_view(), all_schemas.deep_view()),
            all_fields@.len() == merged.len(),
            forall|k: int| 0 <= k < i ==> (#[trigger] all_fields@[k]).deep_view() == result[k],
            forall|k: int|
                i <= k < merged.len() ==> (#[trigger] all_fields@[k]).deep_view() == merged[k],
            forall|name: Seq<char>| #[trigger]
                required@.contains(name) == any_part_requires(
                    all_of.deep_view(),
                    name,
                    all_schemas.deep_view(),
                ),
    {
        let is_required: bool = all_fields[i].is_required || required.contains(
            all_fields[i].name.as_str(),
        );
        all_fields[i].is_required = is_required;
        assert(all_fields@[i as int].deep_view() =~= result[i as int]);
    }
    assert(all_fields.deep_view() =~= result);
    (all_fields, models)
}

} // verus!
