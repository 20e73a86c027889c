//! The parameters of operations.
use crate::models::{Field, FieldView};
use crate::openapi::view::{
    lemma_schema_view, ParameterInfoView, ParameterSchemaOrContentView, ParameterView, RefOrView,
    SchemaShapeView, SchemaTypeView, SchemaView,
};
use crate::openapi::{
    find_entry, lookup, ParameterDef, ParameterLocation, ParameterSchemaOrContent, RefOr, SchemaDef,
    SchemaShape, SchemaType,
};
use crate::parser::composition::{resolve, resolved};
use crate::parser::fields::copy_text;
use crate::parser::types::{
    custom_attrs, extract_custom_attrs, extract_type_and_format, type_and_format,
};
use crate::slots::{
    all_slots, keys_of, lemma_position_of, new_slots, position_of, set_slot, slots, with_slot,
};
use crate::text::{concat2, pascal_case, strip_prefix, stripped, to_pascal_case};
use vstd::prelude::*;

verus! {

broadcast use lemma_schema_view;

/// The parameter that is given in place or by reference to `#/components/parameters/`.
pub open spec fn resolved_parameter(
    parameter: RefOrView<ParameterView>,
    parameters: Seq<(Seq<char>, RefOrView<ParameterView>)>,
) -> Option<ParameterView> {
    match parameter {
        RefOrView::Item(p) => Some(p),
        RefOrView::Reference { reference } => match component_name(parameter) {
            Some(name) => match lookup(parameters, name) {
                Some(RefOrView::Item(p)) => Some(p),
                _ => None,
            },
            None => None,
        },
    }
}

/// The name under which a parameter that is given by reference is declared.
pub open spec fn component_name(parameter: RefOrView<ParameterView>) -> Option<Seq<char>> {
    match parameter {
        RefOrView::Item(_) => None,
        RefOrView::Reference { reference } => stripped(
            reference,
            "#/components/parameters/"@,
        ),
    }
}

/// Finds the parameter that is given in place or by reference.
pub fn resolve_parameter<'a>(
    param_ref: &'a RefOr<ParameterDef>,
    parameters: &'a Vec<(String, RefOr<ParameterDef>)>,
) -> (r: Option<&'a ParameterDef>)
    ensures
        r.deep_view() == resolved_parameter(param_ref.deep_view(), parameters.deep_view()),
{
    match param_ref {
        RefOr::Item(param) => Some(param),
        RefOr::Reference { reference } => {
            match strip_prefix(reference.as_str(), "#/components/parameters/") {
                Some(name) => match find_entry(parameters, name) {
                    Some(RefOr::Item(param)) => Some(param),
                    _ => None,
                },
                None => None,
            }
        },
    }
}

/// Whether a parameter stands in the query.
pub fn is_query_parameter(param: &ParameterDef) -> (r: bool)
    ensures
        r == (param.location is Query),
{
    match param.location {
        ParameterLocation::Query => true,
        _ => false,
    }
}

/// The query parameters among some parameters, each with the name that it is declared under.
pub open spec fn query_parameters(
    given: Seq<RefOrView<ParameterView>>,
    parameters: Seq<(Seq<char>, RefOrView<ParameterView>)>,
) -> Seq<(ParameterView, Option<Seq<char>>)>
    decreases given.len(),
{
    if given.len() == 0 {
        Seq::empty()
    } else {
        let before = query_parameters(given.drop_last(), parameters);
        match resolved_parameter(given.last(), parameters) {
            Some(p) => if p.location is Query {
                before.push((p, component_name(given.last())))
            } else {
                before
            },
            None => before,
        }
    }
}

/// The names of some parameters.
pub open spec fn parameter_names(list: Seq<(ParameterView, Option<Seq<char>>)>) -> Seq<Seq<char>> {
    list.map_values(|p: (ParameterView, Option<Seq<char>>)| p.0.parameter_data.name)
}

/// The parameters with each name once: where it first came, as it last came.
pub open spec fn overridden(list: Seq<(ParameterView, Option<Seq<char>>)>) -> Seq<
    (ParameterView, Option<Seq<char>>),
>
    decreases list.len(),
{
    if list.len() == 0 {
        Seq::empty()
    } else {
        let before = overridden(list.drop_last());
        match position_of(parameter_names(before), list.last().0.parameter_data.name) {
            Some(i) => before.update(i, list.last()),
            None => before.push(list.last()),
        }
    }
}

/// Whether a schema is an object with properties.
pub open spec fn has_properties(schema: RefOrView<SchemaView>) -> bool {
    schema matches RefOrView::Item(s) && s.schema_kind matches SchemaShapeView::Type(
        SchemaTypeView::Object(obj),
    ) && obj.properties.len() > 0
}

/// Whether a schema is an object with properties.
pub(crate) fn check_properties(schema: &RefOr<SchemaDef>) -> (r: bool)
    ensures
        r == has_properties(schema.deep_view()),
{
    match schema {
        RefOr::Item(s) => match &s.schema_kind {
            SchemaShape::Type(SchemaType::Object(obj)) => obj.properties.len() > 0,
            _ => false,
        },
        _ => false,
    }
}

/// The schema that is given in place or by reference; a reference that leads nowhere stands
/// for itself.
pub open spec fn resolved_or_self(
    schema: RefOrView<SchemaView>,
    schemas: Seq<(Seq<char>, RefOrView<SchemaView>)>,
) -> RefOrView<SchemaView> {
    match resolved(schema, schemas) {
        Some(s) => s,
        None => schema,
    }
}

/// Finds the schema that is given in place or by reference.
pub(crate) fn resolve_or_self<'a>(
    schema: &'a RefOr<SchemaDef>,
    all_schemas: &'a Vec<(String, RefOr<SchemaDef>)>,
) -> (r: &'a RefOr<SchemaDef>)
    ensures
        r.deep_view() == resolved_or_self(schema.deep_view(), all_schemas.deep_view()),
{
    match resolve(schema, all_schemas) {
        Some(s) => s,
        None => schema,
    }
}

/// Whether a value of the schema that is given in place or by reference may be null.
pub open spec fn nullable(
    schema: RefOrView<SchemaView>,
    schemas: Seq<(Seq<char>, RefOrView<SchemaView>)>,
) -> bool {
    resolved_or_self(schema, schemas) matches RefOrView::Item(s) && s.schema_data.nullable
}

/// The attributes that the schema that is given in place or by reference asks for.
pub open spec fn resolved_attrs(
    schema: RefOrView<SchemaView>,
    schemas: Seq<(Seq<char>, RefOrView<SchemaView>)>,
) -> Option<Seq<Seq<char>>> {
    match resolved_or_self(schema, schemas) {
        RefOrView::Item(s) => custom_attrs(s),
        _ => None,
    }
}

/// Whether a value of the schema may be null, and the attributes that it asks for.
pub(crate) fn extract_nullable_and_attrs(
    schema: &RefOr<SchemaDef>,
    all_schemas: &Vec<(String, RefOr<SchemaDef>)>,
) -> (r: (bool, Option<Vec<String>>))
    ensures
        r.0 == nullable(schema.deep_view(), all_schemas.deep_view()),
        r.1.deep_view() == resolved_attrs(schema.deep_view(), all_schemas.deep_view()),
{
    match resolve_or_self(schema, all_schemas) {
        RefOr::Item(s) => (s.schema_data.nullable, extract_custom_attrs(s)),
        _ => (false, None),
    }
}

/// The structure whose fields stand in place of a query parameter: that of an object, or of a
/// declared parameter with a declared schema.
pub open spec fn flattened_type(
    data: ParameterInfoView,
    component: Option<Seq<char>>,
    schema: RefOrView<SchemaView>,
    schemas: Seq<(Seq<char>, RefOrView<SchemaView>)>,
) -> Option<Seq<char>> {
    if has_properties(resolved_or_self(schema, schemas)) {
        match component {
            Some(name) => Some(pascal_case(name)),
            None => Some(pascal_case(data.name) + "Param"@),
        }
    } else if schema is Reference && component is Some {
        Some(pascal_case(component->0))
    } else {
        None
    }
}

/// The field that a query parameter becomes. One whose structure stands in its place is
/// required and not null: its own fields say what may be left out.
pub open spec fn query_field(
    data: ParameterInfoView,
    component: Option<Seq<char>>,
    schema: RefOrView<SchemaView>,
    schemas: Seq<(Seq<char>, RefOrView<SchemaView>)>,
) -> FieldView {
    let flattened = flattened_type(data, component, schema, schemas);
    FieldView {
        name: data.name,
        field_type: match flattened {
            Some(t) => t,
            None => type_and_format(schema, schemas).0,
        },
        format: Seq::empty(),
        is_required: flattened is Some || data.required,
        is_nullable: flattened is None && nullable(schema, schemas),
        is_array_ref: false,
        flatten: flattened is Some,
        description: data.description,
        custom_attrs: resolved_attrs(schema, schemas),
    }
}

/// The fields that some query parameters become; one that holds content has none.
pub open spec fn query_fields(
    list: Seq<(ParameterView, Option<Seq<char>>)>,
    schemas: Seq<(Seq<char>, RefOrView<SchemaView>)>,
) -> Seq<FieldView>
    decreases list.len(),
{
    if list.len() == 0 {
        Seq::empty()
    } else {
        let before = query_fields(list.drop_last(), schemas);
        let data = list.last().0.parameter_data;
        match data.format {
            ParameterSchemaOrContentView::Schema(schema) => before.push(
                query_field(data, list.last().1, schema, schemas),
            ),
            ParameterSchemaOrContentView::Content => before,
        }
    }
}

/// What the slots say: each name once, with the place at which it last came.
spec fn slots_agree(
    entries: Seq<(Seq<char>, usize)>,
    list: Seq<(ParameterView, Option<Seq<char>>)>,
) -> bool {
    &&& entries.len() == overridden(list).len()
    &&& forall|i: int|
        0 <= i < entries.len() ==> {
            &&& (#[trigger] entries[i]).1 < list.len()
            &&& overridden(list)[i] == list[entries[i].1 as int]
            &&& entries[i].0 == list[entries[i].1 as int].0.parameter_data.name
        }
}

proof fn lemma_slots_agree_push(
    entries: Seq<(Seq<char>, usize)>,
    list: Seq<(ParameterView, Option<Seq<char>>)>,
    next: (ParameterView, Option<Seq<char>>),
)
    requires
        slots_agree(entries, list),
        list.len() <= usize::MAX,
    ensures
        slots_agree(
            with_slot(entries, next.0.parameter_data.name, list.len() as usize),
            list.push(next),
        ),
{
    let name = next.0.parameter_data.name;
    let more = list.push(next);
    assert(more.drop_last() =~= list);
    assert(keys_of(entries) =~= parameter_names(overridden(list)));
    lemma_position_of(keys_of(entries), name);
}

pub(crate) proof fn lemma_query_parameters_of_both(
    first: Seq<RefOrView<ParameterView>>,
    second: Seq<RefOrView<ParameterView>>,
    parameters: Seq<(Seq<char>, RefOrView<ParameterView>)>,
)
    ensures
        query_parameters(first + second, parameters) == query_parameters(first, parameters)
            + query_parameters(second, parameters),
    decreases second.len(),
{
    if second.len() == 0 {
        assert(first + second =~= first);
    } else {
        assert((first + second).drop_last() =~= first + second.drop_last());
        lemma_query_parameters_of_both(first, second.drop_last(), parameters);
    }
}

/// Adds the query parameters among some parameters to those that were collected.
fn add_query_parameters<'a>(
    given: &'a Vec<RefOr<ParameterDef>>,
    parameters: &'a Vec<(String, RefOr<ParameterDef>)>,
    list: &mut Vec<(&'a ParameterDef, Option<String>)>,
    index: &mut indexmap::IndexMap<String, usize>,
)
    requires
        slots_agree(slots(*old(index)), old(list).deep_view()),
    ensures
        slots_agree(slots(*final(index)), final(list).deep_view()),
        final(list).deep_view() == old(list).deep_view() + query_parameters(
            given.deep_view(),
            parameters.deep_view(),
        ),
{
    let ghost start = list.deep_view();
    assert(start + query_parameters(given.deep_view().take(0), parameters.deep_view()) =~= start);
    for i in 0..given.len()
        invariant
            slots_agree(slots(*index), list.deep_view()),
            list.deep_view() == start + query_parameters(
                given.deep_view().take(i as int),
                parameters.deep_view(),
            ),
    {
        let param_ref = &given[i];
        assert(given.deep_view().take(i + 1).drop_last() =~= given.deep_view().take(i as int));
        if let Some(param) = resolve_parameter(param_ref, parameters) {
            if is_query_parameter(param) {
                let component: Option<String> = match param_ref {
                    RefOr::Reference { reference } => {
                        match strip_prefix(reference.as_str(), "#/components/parameters/") {
                            Some(s) => Some(s.to_string()),
                            None => None,
                        }
                    },
                    _ => None,
                };
                let ghost before = list.deep_view();
                let ghost next = (param.deep_view(), component.deep_view());
                let slot: usize = list.len();
                list.push((param, component));
                assert(list.deep_view() =~= before.push(next));
                assert(list.deep_view() =~= start + query_parameters(
                    given.deep_view().take(i + 1),
                    parameters.deep_view(),
                ));
                proof {
                    lemma_slots_agree_push(slots(*index), before, next);
                }
                set_slot(index, param.parameter_data.name.clone(), slot);
            }
        }
    }
    assert(given.deep_view().take(given.len() as int) =~= given.deep_view());
}

fn make_query_field(
    param: &ParameterDef,
    component: &Option<String>,
    schema: &RefOr<SchemaDef>,
    all_schemas: &Vec<(String, RefOr<SchemaDef>)>,
) -> (r: Field)
    ensures
        r.deep_view() == query_field(
            param.parameter_data.deep_view(),
            component.deep_view(),
            schema.deep_view(),
            all_schemas.deep_view(),
        ),
{
    let data = &param.parameter_data;
    let is_reference: bool = match schema {
        RefOr::Reference { .. } => true,
        _ => false,
    };
    let flattened: Option<String> = if check_properties(resolve_or_self(schema, all_schemas)) {
        match component {
            Some(name) => Some(to_pascal_case(name.as_str())),
            None => Some(concat2(to_pascal_case(data.name.as_str()).as_str(), "Param")),
        }
    } else if is_reference {
        match component {
            Some(name) => Some(to_pascal_case(name.as_str())),
            None => None,
        }
    } else {
        None
    };
    let (is_nullable, custom_attrs) = extract_nullable_and_attrs(schema, all_schemas);
    let flatten: bool = flattened.is_some();
    let field_type = match flattened {
        Some(t) => t,
        None => extract_type_and_format(schema, all_schemas).0,
    };
    Field {
        name: data.name.clone(),
        field_type,
        format: String::new(),
        is_required: flatten || data.required,
        is_nullable: !flatten && is_nullable,
        is_array_ref: false,
        flatten,
        description: copy_text(&data.description),
        custom_attrs,
    }
}

/// The query parameters that an operation takes: those of its path and its own, where a later
/// one overrides an earlier one of the same name.
pub open spec fn operation_parameters(
    path_parameters: Seq<RefOrView<ParameterView>>,
    own_parameters: Seq<RefOrView<ParameterView>>,
    parameters: Seq<(Seq<char>, RefOrView<ParameterView>)>,
) -> Seq<(ParameterView, Option<Seq<char>>)> {
    overridden(query_parameters(path_parameters + own_parameters, parameters))
}

/// Makes the fields for the query parameters that an operation takes.
pub fn make_query_fields(
    path_parameters: &Vec<RefOr<ParameterDef>>,
    own_parameters: &Vec<RefOr<ParameterDef>>,
    parameters: &Vec<(String, RefOr<ParameterDef>)>,
    all_schemas: &Vec<(String, RefOr<SchemaDef>)>,
) -> (r: Vec<Field>)
    ensures
        r.deep_view() == query_fields(
            operation_parameters(
                path_parameters.deep_view(),
                own_parameters.deep_view(),
                parameters.deep_view(),
            ),
            all_schemas.deep_view(),
        ),
{
    let mut list: Vec<(&ParameterDef, Option<String>)> = Vec::new();
    let mut index = new_slots();
    assert(list.deep_view() =~= Seq::empty());
    add_query_parameters(path_parameters, parameters, &mut list, &mut index);
    add_query_parameters(own_parameters, parameters, &mut list, &mut index);
    let ghost all = list.deep_view();
    let ghost kept = overridden(all);
    proof {
        lemma_query_parameters_of_both(
            path_parameters.deep_view(),
            own_parameters.deep_view(),
            parameters.deep_view(),
        );
        assert(all =~= query_parameters(
            path_parameters.deep_view() + own_parameters.deep_view(),
            parameters.deep_view(),
        ));
    }
    let order = all_slots(&index);
    let mut fields: Vec<Field> = Vec::new();
    for i in 0..order.len()
        invariant
            all == list.deep_view(),
            kept == overridden(all),
            order@.len() == kept.len(),
            forall|k: int|
                0 <= k < order@.len() ==> (#[trigger] order@[k]) < list@.len() && kept[k]
                    == all[order@[k] as int],
            fields.deep_view() == query_fields(kept.take(i as int), all_schemas.deep_view()),
    {
        assert(kept.take(i + 1).drop_last() =~= kept.take(i as int));
        let ghost before = fields.deep_view();
        let (param, component) = &list[order[i]];
        if let ParameterSchemaOrContent::Schema(schema) = &param.parameter_data.format {
            let field = make_query_field(param, component, schema, all_schemas);
            fields.push(field);
            assert(fields.deep_view() =~= before.push(field.deep_view()));
        }
    }
    assert(kept.take(kept.len() as int) =~= kept);
    fields
}

} // verus!
