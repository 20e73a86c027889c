//! What holds of the models of a document as a whole.
use crate::models::{FieldView, ModelTypeView};
use crate::openapi::view::{
    DocumentView, MediaTypeView, OperationView, ParameterView, PathItemView, RefOrView,
    RequestBodyView, SchemaShapeView, SchemaTypeView, SchemaView,
};
use crate::parser::composition::{
    all_of_fields, any_part_requires, merged_fields, names_of, part_requires, refined, resolved,
    with_field, with_fields,
};
use crate::parser::fields::{alias_of, field_info, referenced_schema};
use crate::parser::operations::{
    is_inline_object, models_of_content, operation_id_or, operation_models, operation_name,
    query_models, request_type,
};
use crate::parser::parameters::{
    has_properties, lemma_query_parameters_of_both, operation_parameters, overridden,
    parameter_names, query_fields, query_parameters, resolved_or_self,
};
use crate::parser::parts::part_fields;
use crate::parser::schemas::model_types;
use crate::parser::types::{custom_attrs, rust_type, type_and_format};
use crate::parser::unions::{listed_values, union_values, with_texts};
use crate::parser::{
    all_models, declared_bodies, declared_parameters, declared_schemas, document_models,
    document_operations, first_of_each_name, has_model, models_of_bodies, models_of_body,
    models_of_operations, models_of_parameter, models_of_parameters, models_of_schemas,
    parameter_struct,
};
use crate::slots::{lemma_position_of, position_of};
use crate::text::{ascending, ascii_upper, is_separator, lemma_with_text, pascal_case};
use vstd::prelude::*;

verus! {

/// Upper-case letters stay as they are.
proof fn lemma_ascii_upper(c: char)
    ensures
        ascii_upper(ascii_upper(c)) == ascii_upper(c),
        !is_separator(c) ==> !is_separator(ascii_upper(c)),
{
}

/// A name in PascalCase has no separators.
pub proof fn law_pascal_case_has_no_separators(s: Seq<char>, i: int)
    requires
        0 <= i < pascal_case(s).len(),
    ensures
        !is_separator(pascal_case(s)[i]),
    decreases s.len(),
{
    let rest = s.drop_last();
    if i < pascal_case(rest).len() {
        law_pascal_case_has_no_separators(rest, i);
    } else {
        lemma_ascii_upper(s.last());
    }
}

/// A name of which nothing is left in PascalCase ends with a separator, if it is not empty.
proof fn lemma_empty_pascal_case(s: Seq<char>)
    ensures
        pascal_case(s).len() == 0 && s.len() > 0 ==> is_separator(s.last()),
{
}

/// The first character of a name in PascalCase is no lower-case letter.
proof fn lemma_first_of_pascal_case(s: Seq<char>)
    requires
        pascal_case(s).len() > 0,
    ensures
        ascii_upper(pascal_case(s)[0]) == pascal_case(s)[0],
    decreases s.len(),
{
    let rest = s.drop_last();
    if pascal_case(rest).len() > 0 {
        lemma_first_of_pascal_case(rest);
    } else {
        lemma_empty_pascal_case(rest);
        lemma_ascii_upper(s.last());
        if rest.len() > 0 {
            assert(rest.last() == s[s.len() - 2]);
        }
    }
}

/// In PascalCase a name without separators keeps all but its first character.
proof fn lemma_pascal_case_of_one_word(s: Seq<char>)
    requires
        forall|i: int| 0 <= i < s.len() ==> !is_separator(#[trigger] s[i]),
    ensures
        s.len() == 0 ==> pascal_case(s) == s,
        s.len() > 0 ==> pascal_case(s) == s.update(0, ascii_upper(s[0])),
    decreases s.len(),
{
    if s.len() > 0 {
        let rest = s.drop_last();
        assert forall|i: int| 0 <= i < rest.len() implies !is_separator(#[trigger] rest[i]) by {
            assert(rest[i] == s[i]);
        }
        lemma_pascal_case_of_one_word(rest);
        assert(!is_separator(s[s.len() - 1]));
        if s.len() > 1 {
            assert(!is_separator(s[s.len() - 2]));
            assert(rest.update(0, ascii_upper(rest[0])).push(s.last()) =~= s.update(
                0,
                ascii_upper(s[0]),
            ));
        } else {
            assert(Seq::<char>::empty().push(ascii_upper(s[0])) =~= s.update(
                0,
                ascii_upper(s[0]),
            ));
            assert(rest =~= Seq::<char>::empty());
        }
    } else {
        assert(s =~= Seq::<char>::empty());
    }
}

/// Putting a name in PascalCase a second time changes nothing.
pub proof fn law_pascal_case_is_idempotent(s: Seq<char>)
    ensures
        pascal_case(pascal_case(s)) == pascal_case(s),
{
    let t = pascal_case(s);
    assert forall|i: int| 0 <= i < t.len() implies !is_separator(#[trigger] t[i]) by {
        law_pascal_case_has_no_separators(s, i);
    }
    lemma_pascal_case_of_one_word(t);
    if t.len() > 0 {
        lemma_first_of_pascal_case(s);
        assert(t.update(0, ascii_upper(t[0])) =~= t);
    }
}

/// Whether no two of the models have the same name.
pub open spec fn unique_names(models: Seq<ModelTypeView>) -> bool {
    forall|i: int, j: int|
        0 <= i < j < models.len() ==> (#[trigger] models[i]).name() != (#[trigger] models[j]).name()
}

/// Whether the model at a place is the first with its name.
pub open spec fn is_first(models: Seq<ModelTypeView>, k: int) -> bool {
    &&& 0 <= k < models.len()
    &&& forall|l: int| 0 <= l < k ==> (#[trigger] models[l]).name() != models[k].name()
}

/// Whether a model is the first with its name.
pub open spec fn is_some_first(models: Seq<ModelTypeView>, model: ModelTypeView) -> bool {
    exists|k: int| #[trigger] is_first(models, k) && models[k] == model
}

proof fn lemma_has_model_push(models: Seq<ModelTypeView>, model: ModelTypeView, name: Seq<char>)
    ensures
        has_model(models.push(model), name) == (has_model(models, name) || model.name() == name),
{
    let more = models.push(model);
    if has_model(models, name) {
        let i = choose|i: int| 0 <= i < models.len() && (#[trigger] models[i]).name() == name;
        assert(more[i].name() == name);
    }
    if model.name() == name {
        assert(more[models.len() as int].name() == name);
    }
    if has_model(more, name) && model.name() != name {
        let i = choose|i: int| 0 <= i < more.len() && (#[trigger] more[i]).name() == name;
        assert(models[i].name() == name);
    }
}

/// Keeping the first model of each name leaves every name, once, with its first model.
pub proof fn law_first_of_each_name(models: Seq<ModelTypeView>)
    ensures
        unique_names(first_of_each_name(models)),
        forall|name: Seq<char>| #[trigger]
            has_model(first_of_each_name(models), name) == has_model(models, name),
        forall|i: int|
            0 <= i < first_of_each_name(models).len() ==> is_some_first(
                models,
                #[trigger] first_of_each_name(models)[i],
            ),
    decreases models.len(),
{
    let kept = first_of_each_name(models);
    if models.len() > 0 {
        let rest = models.drop_last();
        let last = models.last();
        law_first_of_each_name(rest);
        let before = first_of_each_name(rest);
        assert(rest.push(last) =~= models);
        assert forall|name: Seq<char>| #[trigger] has_model(kept, name) == has_model(
            models,
            name,
        ) by {
            lemma_has_model_push(rest, last, name);
            lemma_has_model_push(before, last, name);
            assert(has_model(before, name) == has_model(rest, name));
        }
        assert forall|i: int| 0 <= i < kept.len() implies is_some_first(
            models,
            #[trigger] kept[i],
        ) by {
            if i < before.len() {
                assert(kept[i] == before[i]);
                let k = choose|k: int| #[trigger] is_first(rest, k) && rest[k] == before[i];
                assert forall|l: int| 0 <= l < k implies (#[trigger] models[l]).name()
                    != models[k].name() by {
                    assert(rest[l] == models[l]);
                }
                assert(is_first(models, k) && models[k] == kept[i]);
            } else {
                let k: int = models.len() - 1;
                assert(!has_model(before, last.name()));
                assert(!has_model(rest, last.name()));
                assert forall|l: int| 0 <= l < k implies (#[trigger] models[l]).name()
                    != models[k].name() by {
                    assert(rest[l] == models[l]);
                }
                assert(is_first(models, k) && models[k] == kept[i]);
            }
        }
        assert forall|i: int, j: int| 0 <= i < j < kept.len() implies (#[trigger] kept[i]).name()
            != (#[trigger] kept[j]).name() by {
            assert(before[i] == kept[i]);
            if j < before.len() {
                assert(before[j] == kept[j]);
            } else {
                assert(!has_model(before, last.name()));
            }
        }
    } else {
        assert forall|name: Seq<char>| #[trigger] has_model(kept, name) == has_model(
            models,
            name,
        ) by {}
    }
}

/// No two models of a document have the same name.
pub proof fn law_model_names_are_unique(document: DocumentView)
    ensures
        unique_names(document_models(document)),
{
    law_first_of_each_name(all_models(document));
}

proof fn lemma_has_model_of_both(
    first: Seq<ModelTypeView>,
    second: Seq<ModelTypeView>,
    name: Seq<char>,
)
    ensures
        has_model(first + second, name) == (has_model(first, name) || has_model(second, name)),
{
    let both = first + second;
    if has_model(first, name) {
        let i = choose|i: int| 0 <= i < first.len() && (#[trigger] first[i]).name() == name;
        assert(both[i].name() == name);
    }
    if has_model(second, name) {
        let i = choose|i: int| 0 <= i < second.len() && (#[trigger] second[i]).name() == name;
        assert(both[first.len() + i].name() == name);
    }
    if has_model(both, name) {
        let i = choose|i: int| 0 <= i < both.len() && (#[trigger] both[i]).name() == name;
        if i < first.len() {
            assert(first[i].name() == name);
        } else {
            assert(second[i - first.len()].name() == name);
        }
    }
}

/// A schema that names a Rust type outright becomes another name for that type, whatever else it
/// says.
pub proof fn law_rust_type_is_an_alias(
    name: Seq<char>,
    schema: SchemaView,
    t: Seq<char>,
    schemas: Seq<(Seq<char>, RefOrView<SchemaView>)>,
)
    requires
        rust_type(schema) == Some(t),
    ensures
        model_types(name, RefOrView::Item(schema), schemas) == seq![
            alias_of(pascal_case(name), t, schema),
        ],
{
}

/// An object, a choice between alternatives, and a schema that names a Rust type outright have a
/// model under their own name.
pub proof fn law_schema_has_its_model(
    name: Seq<char>,
    schema: SchemaView,
    schemas: Seq<(Seq<char>, RefOrView<SchemaView>)>,
)
    requires
        rust_type(schema) is Some || schema.schema_kind is OneOf || schema.schema_kind is AnyOf
            || schema.schema_kind matches SchemaShapeView::Type(SchemaTypeView::Object(_)),
    ensures
        has_model(model_types(name, RefOrView::Item(schema), schemas), pascal_case(name)),
{
    let models = model_types(name, RefOrView::Item(schema), schemas);
    assert(models.len() > 0);
    assert(models[models.len() - 1].name() == pascal_case(name));
}

proof fn lemma_schema_among_models(
    named: Seq<(Seq<char>, RefOrView<SchemaView>)>,
    schemas: Seq<(Seq<char>, RefOrView<SchemaView>)>,
    k: int,
    name: Seq<char>,
)
    requires
        0 <= k < named.len(),
        has_model(model_types(named[k].0, named[k].1, schemas), name),
    ensures
        has_model(models_of_schemas(named, schemas), name),
    decreases named.len(),
{
    let rest = named.drop_last();
    lemma_has_model_of_both(
        models_of_schemas(rest, schemas),
        model_types(named.last().0, named.last().1, schemas),
        name,
    );
    if k < rest.len() {
        assert(rest[k] == named[k]);
        lemma_schema_among_models(rest, schemas, k, name);
    }
}

/// A name that one of the four sources of models has is among the models of the document.
proof fn lemma_name_among_models(document: DocumentView, name: Seq<char>)
    ensures
        ({
            let schemas = declared_schemas(document);
            let parameters = declared_parameters(document);
            has_model(document_models(document), name) <==> {
                ||| has_model(models_of_schemas(schemas, schemas), name)
                ||| has_model(models_of_bodies(declared_bodies(document), schemas), name)
                ||| has_model(models_of_parameters(parameters, schemas), name)
                ||| has_model(
                    models_of_operations(document_operations(document.paths), schemas, parameters),
                    name,
                )
            }
        }),
{
    let schemas = declared_schemas(document);
    let parameters = declared_parameters(document);
    let a = models_of_schemas(schemas, schemas);
    let b = models_of_bodies(declared_bodies(document), schemas);
    let c = models_of_parameters(parameters, schemas);
    let d = models_of_operations(document_operations(document.paths), schemas, parameters);
    lemma_has_model_of_both(a, b, name);
    lemma_has_model_of_both(a + b, c, name);
    lemma_has_model_of_both(a + b + c, d, name);
    law_first_of_each_name(all_models(document));
}

/// Every model that a declared schema gives rise to has its name among the models of the
/// document.
pub proof fn law_declared_schemas_have_their_models(
    document: DocumentView,
    k: int,
    name: Seq<char>,
)
    requires
        0 <= k < declared_schemas(document).len(),
        has_model(
            model_types(
                declared_schemas(document)[k].0,
                declared_schemas(document)[k].1,
                declared_schemas(document),
            ),
            name,
        ),
    ensures
        has_model(document_models(document), name),
{
    let schemas = declared_schemas(document);
    lemma_schema_among_models(schemas, schemas, k, name);
    lemma_name_among_models(document, name);
}

proof fn lemma_parameter_among_models(
    named: Seq<(Seq<char>, RefOrView<ParameterView>)>,
    schemas: Seq<(Seq<char>, RefOrView<SchemaView>)>,
    k: int,
    name: Seq<char>,
)
    requires
        0 <= k < named.len(),
        has_model(models_of_parameter(named[k].0, named[k].1, schemas), name),
    ensures
        has_model(models_of_parameters(named, schemas), name),
    decreases named.len(),
{
    let rest = named.drop_last();
    lemma_has_model_of_both(
        models_of_parameters(rest, schemas),
        models_of_parameter(named.last().0, named.last().1, schemas),
        name,
    );
    if k < rest.len() {
        assert(rest[k] == named[k]);
        lemma_parameter_among_models(rest, schemas, k, name);
    }
}

/// A declared parameter with a schema has a model under its own name: the type that a query
/// field has where the parameter's structure stands in its place.
pub proof fn law_declared_parameters_have_their_models(document: DocumentView, k: int)
    requires
        0 <= k < declared_parameters(document).len(),
        declared_parameters(document)[k].1 matches RefOrView::Item(p)
            && p.parameter_data.format is Schema,
    ensures
        has_model(document_models(document), pascal_case(declared_parameters(document)[k].0)),
{
    let schemas = declared_schemas(document);
    let parameters = declared_parameters(document);
    let (name, parameter) = parameters[k];
    let data = parameter->Item_0.parameter_data;
    let schema = data.format->Schema_0;
    let target = resolved_or_self(schema, schemas);
    if has_properties(target) {
        law_schema_has_its_model(name, target->Item_0, schemas);
    } else {
        let models = models_of_parameter(name, parameter, schemas);
        assert(models[0] == parameter_struct(name, data, schema, schemas));
    }
    lemma_parameter_among_models(parameters, schemas, k, pascal_case(name));
    lemma_name_among_models(document, pascal_case(name));
}

proof fn lemma_content_among_models(
    name: Seq<char>,
    content: Seq<(Seq<char>, MediaTypeView)>,
    schemas: Seq<(Seq<char>, RefOrView<SchemaView>)>,
    k: int,
)
    requires
        has_inline_object(content, k),
    ensures
        has_model(models_of_body(name, content, schemas), pascal_case(name)),
    decreases content.len(),
{
    let rest = content.drop_last();
    if let Some(schema) = content.last().1.schema {
        lemma_has_model_of_both(
            models_of_body(name, rest, schemas),
            model_types(name, schema, schemas),
            pascal_case(name),
        );
    }
    if k < rest.len() {
        assert(rest[k] == content[k]);
        lemma_content_among_models(name, rest, schemas, k);
    } else {
        law_schema_has_its_model(name, content.last().1.schema->0->Item_0, schemas);
    }
}

proof fn lemma_body_among_models(
    named: Seq<(Seq<char>, RefOrView<RequestBodyView>)>,
    schemas: Seq<(Seq<char>, RefOrView<SchemaView>)>,
    i: int,
    name: Seq<char>,
)
    requires
        0 <= i < named.len(),
        named[i].1 matches RefOrView::Item(body) && has_model(
            models_of_body(named[i].0, body.content, schemas),
            name,
        ),
    ensures
        has_model(models_of_bodies(named, schemas), name),
    decreases named.len(),
{
    let rest = named.drop_last();
    if let RefOrView::Item(body) = named.last().1 {
        lemma_has_model_of_both(
            models_of_bodies(rest, schemas),
            models_of_body(named.last().0, body.content, schemas),
            name,
        );
    }
    if i < rest.len() {
        assert(rest[i] == named[i]);
        lemma_body_among_models(rest, schemas, i, name);
    }
}

/// A declared request body that is an object written in place has a model under its own name.
pub proof fn law_declared_bodies_have_their_models(document: DocumentView, i: int, k: int)
    requires
        0 <= i < declared_bodies(document).len(),
        declared_bodies(document)[i].1 matches RefOrView::Item(body) && has_inline_object(
            body.content,
            k,
        ),
    ensures
        has_model(document_models(document), pascal_case(declared_bodies(document)[i].0)),
{
    let schemas = declared_schemas(document);
    let bodies = declared_bodies(document);
    let name = bodies[i].0;
    lemma_content_among_models(name, bodies[i].1->Item_0.content, schemas, k);
    lemma_body_among_models(bodies, schemas, i, pascal_case(name));
    lemma_name_among_models(document, pascal_case(name));
}

/// The name of an operation's body is in PascalCase.
proof fn lemma_body_name(s: Seq<char>)
    ensures
        pascal_case(pascal_case(s) + "RequestBody"@) == pascal_case(s) + "RequestBody"@,
{
    reveal_strlit("RequestBody");
    let start = pascal_case(s);
    let end = "RequestBody"@;
    let t = start + end;
    assert forall|i: int| 0 <= i < t.len() implies !is_separator(#[trigger] t[i]) by {
        if i < start.len() {
            law_pascal_case_has_no_separators(s, i);
        } else {
            assert(t[i] == end[i - start.len()]);
        }
    }
    lemma_pascal_case_of_one_word(t);
    if start.len() > 0 {
        lemma_first_of_pascal_case(s);
        assert(t[0] == start[0]);
    } else {
        assert(t[0] == end[0]);
    }
    assert(t.update(0, ascii_upper(t[0])) =~= t);
}

/// Whether a body has, under a content type, an object that is written in place.
pub open spec fn has_inline_object(
    content: Seq<(Seq<char>, MediaTypeView)>,
    k: int,
) -> bool {
    &&& 0 <= k < content.len()
    &&& content[k].1.schema matches Some(schema)
    &&& is_inline_object(schema)
}

proof fn lemma_inline_object_among_models(
    operation: OperationView,
    content: Seq<(Seq<char>, MediaTypeView)>,
    schemas: Seq<(Seq<char>, RefOrView<SchemaView>)>,
    k: int,
)
    requires
        has_inline_object(content, k),
    ensures
        has_model(
            models_of_content(operation, content, schemas),
            operation_name(operation) + "RequestBody"@,
        ),
    decreases content.len(),
{
    let name = operation_name(operation) + "RequestBody"@;
    let rest = content.drop_last();
    let before = models_of_content(operation, rest, schemas);
    if let Some(schema) = content.last().1.schema {
        lemma_has_model_of_both(before, model_types(name, schema, schemas), name);
        if is_inline_object(schema) {
            law_schema_has_its_model(name, schema->Item_0, schemas);
            lemma_body_name(operation_id_or(operation, "Unknown"@));
        }
    }
    if k < rest.len() {
        assert(rest[k] == content[k]);
        lemma_inline_object_among_models(operation, rest, schemas, k);
    }
}

proof fn lemma_operation_among_models(
    operations: Seq<
        (OperationView, PathItemView),
    >,
    schemas: Seq<(Seq<char>, RefOrView<SchemaView>)>,
    parameters: Seq<(Seq<char>, RefOrView<ParameterView>)>,
    i: int,
    name: Seq<char>,
)
    requires
        0 <= i < operations.len(),
        has_model(operation_models(operations[i].0, operations[i].1, schemas, parameters), name),
    ensures
        has_model(models_of_operations(operations, schemas, parameters), name),
    decreases operations.len(),
{
    let rest = operations.drop_last();
    lemma_has_model_of_both(
        models_of_operations(rest, schemas, parameters),
        operation_models(operations.last().0, operations.last().1, schemas, parameters),
        name,
    );
    if i < rest.len() {
        assert(rest[i] == operations[i]);
        lemma_operation_among_models(rest, schemas, parameters, i, name);
    }
}

/// The type of a request whose body is an object written in place is that of a model of the
/// document.
pub proof fn law_inline_bodies_have_their_models(document: DocumentView, i: int, k: int)
    requires
        0 <= i < document_operations(document.paths).len(),
        document_operations(document.paths)[i].0.request_body matches Some(RefOrView::Item(body))
            && has_inline_object(body.content, k),
    ensures
        ({
            let operation = document_operations(document.paths)[i].0;
            let schema = operation.request_body->0->Item_0.content[k].1.schema->0;
            has_model(
                document_models(document),
                request_type(operation, true, schema, declared_schemas(document)),
            )
        }),
{
    let operations = document_operations(document.paths);
    let (operation, path_item) = operations[i];
    let content = operation.request_body->0->Item_0.content;
    let schemas = declared_schemas(document);
    let parameters = declared_parameters(document);
    let name = operation_name(operation) + "RequestBody"@;
    lemma_inline_object_among_models(operation, content, schemas, k);
    lemma_has_model_of_both(
        query_models(operation, path_item, schemas, parameters),
        models_of_content(operation, content, schemas),
        name,
    );
    lemma_operation_among_models(operations, schemas, parameters, i, name);
    lemma_name_among_models(document, name);
}

/// A list of attributes is never empty.
pub proof fn law_attributes_are_never_empty(schema: SchemaView)
    ensures
        custom_attrs(schema) matches Some(attrs) ==> attrs.len() > 0,
{
}

/// A field that is given by reference may be null if and only if the schema that it refers to
/// may be.
pub proof fn law_nullable_through_a_reference(
    field_name: Seq<char>,
    reference: Seq<char>,
    target: SchemaView,
    schemas: Seq<(Seq<char>, RefOrView<SchemaView>)>,
)
    requires
        referenced_schema(reference, schemas) == Some(RefOrView::Item(target)),
    ensures
        field_info(field_name, RefOrView::Reference { reference }, schemas).is_nullable
            == target.schema_data.nullable,
{
}

/// A field that is a composition of one part has the type of that part, and may be null if and
/// only if it says so itself.
pub proof fn law_composition_of_one_part(
    field_name: Seq<char>,
    schema: SchemaView,
    part: RefOrView<SchemaView>,
    schemas: Seq<(Seq<char>, RefOrView<SchemaView>)>,
)
    requires
        rust_type(schema) is None,
        schema.schema_kind == (SchemaShapeView::AllOf { all_of: seq![part] }),
    ensures
        field_info(field_name, RefOrView::Item(schema), schemas).field_type == type_and_format(
            part,
            schemas,
        ).0,
        field_info(field_name, RefOrView::Item(schema), schemas).is_nullable
            == schema.schema_data.nullable,
{
}

/// Whether no text occurs twice.
pub open spec fn distinct(texts: Seq<Seq<char>>) -> bool {
    forall|i: int, j: int| 0 <= i < j < texts.len() ==> #[trigger] texts[i] != #[trigger] texts[j]
}

/// Merging a field keeps its name.
proof fn lemma_refined(existing: FieldView, later: FieldView)
    requires
        existing.name == later.name,
    ensures
        refined(existing, later).name == existing.name,
        refined(existing, later).is_required ==> existing.is_required || later.is_required,
{
}

/// One more field adds its name where it is new, and keeps the names distinct.
proof fn lemma_with_field(fields: Seq<FieldView>, field: FieldView)
    requires
        distinct(names_of(fields)),
    ensures
        distinct(names_of(with_field(fields, field))),
        forall|name: Seq<char>| #[trigger]
            names_of(with_field(fields, field)).contains(name) <==> names_of(fields).contains(name)
                || name == field.name,
{
    let names = names_of(fields);
    let after = with_field(fields, field);
    lemma_position_of(names, field.name);
    match position_of(names, field.name) {
        Some(i) => {
            lemma_refined(fields[i], field);
            assert(names_of(after) =~= names);
            assert(names[i] == field.name);
        },
        None => {
            assert(names_of(after) =~= names.push(field.name));
            assert forall|name: Seq<char>| #[trigger]
                names_of(after).contains(name) <==> names.contains(name) || name == field.name by {
                if names.contains(name) {
                    let k = choose|k: int| 0 <= k < names.len() && names[k] == name;
                    assert(names_of(after)[k] == name);
                }
                assert(names_of(after)[names.len() as int] == field.name);
            }
        },
    }
}

proof fn lemma_with_fields(fields: Seq<FieldView>, more: Seq<FieldView>)
    requires
        distinct(names_of(fields)),
    ensures
        distinct(names_of(with_fields(fields, more))),
        forall|name: Seq<char>| #[trigger]
            names_of(with_fields(fields, more)).contains(name) <==> names_of(fields).contains(name)
                || names_of(more).contains(name),
    decreases more.len(),
{
    if more.len() > 0 {
        let rest = more.drop_last();
        lemma_with_fields(fields, rest);
        lemma_with_field(with_fields(fields, rest), more.last());
        assert forall|name: Seq<char>|
            names_of(more).contains(name) <==> names_of(rest).contains(name) || name
                == more.last().name by {
            if names_of(rest).contains(name) {
                let k = choose|k: int| 0 <= k < rest.len() && names_of(rest)[k] == name;
                assert(names_of(more)[k] == name);
            }
            assert(names_of(more)[more.len() - 1] == more.last().name);
            if names_of(more).contains(name) && name != more.last().name {
                let k = choose|k: int| 0 <= k < more.len() && names_of(more)[k] == name;
                assert(names_of(rest)[k] == name);
            }
        }
        assert forall|name: Seq<char>| #[trigger]
            names_of(with_fields(fields, more)).contains(name) <==> names_of(fields).contains(name)
                || names_of(more).contains(name) by {
            assert(names_of(with_fields(fields, rest)).contains(name) <==> names_of(
                fields,
            ).contains(name) || names_of(rest).contains(name));
        }
    } else {
        assert(names_of(more) =~= Seq::<Seq<char>>::empty());
    }
}

/// Whether a part of a composition has a field with the given name.
pub open spec fn part_has_field(
    part: RefOrView<SchemaView>,
    name: Seq<char>,
    schemas: Seq<(Seq<char>, RefOrView<SchemaView>)>,
) -> bool {
    resolved(part, schemas) matches Some(target) && names_of(part_fields(target, schemas)).contains(
        name,
    )
}

/// Whether one of the parts of a composition has a field with the given name.
pub open spec fn any_part_has_field(
    parts: Seq<RefOrView<SchemaView>>,
    name: Seq<char>,
    schemas: Seq<(Seq<char>, RefOrView<SchemaView>)>,
) -> bool {
    exists|i: int| 0 <= i < parts.len() && part_has_field(#[trigger] parts[i], name, schemas)
}

proof fn lemma_any_part_has_field(
    parts: Seq<RefOrView<SchemaView>>,
    name: Seq<char>,
    schemas: Seq<(Seq<char>, RefOrView<SchemaView>)>,
)
    requires
        parts.len() > 0,
    ensures
        any_part_has_field(parts, name, schemas) <==> any_part_has_field(
            parts.drop_last(),
            name,
            schemas,
        ) || part_has_field(parts.last(), name, schemas),
{
    let rest = parts.drop_last();
    if any_part_has_field(rest, name, schemas) {
        let i = choose|i: int|
            0 <= i < rest.len() && part_has_field(#[trigger] rest[i], name, schemas);
        assert(part_has_field(parts[i], name, schemas));
    }
    if part_has_field(parts.last(), name, schemas) {
        assert(part_has_field(parts[parts.len() - 1], name, schemas));
    }
    if any_part_has_field(parts, name, schemas) && !part_has_field(parts.last(), name, schemas) {
        let i = choose|i: int|
            0 <= i < parts.len() && part_has_field(#[trigger] parts[i], name, schemas);
        assert(part_has_field(rest[i], name, schemas));
    }
}

proof fn lemma_merged_fields(
    parts: Seq<RefOrView<SchemaView>>,
    schemas: Seq<(Seq<char>, RefOrView<SchemaView>)>,
)
    ensures
        distinct(names_of(merged_fields(parts, schemas))),
        forall|name: Seq<char>| #[trigger]
            names_of(merged_fields(parts, schemas)).contains(name) <==> any_part_has_field(
                parts,
                name,
                schemas,
            ),
    decreases parts.len(),
{
    let names = names_of(merged_fields(parts, schemas));
    if parts.len() > 0 {
        let rest = parts.drop_last();
        lemma_merged_fields(rest, schemas);
        let before = merged_fields(rest, schemas);
        if let Some(part) = resolved(parts.last(), schemas) {
            lemma_with_fields(before, part_fields(part, schemas));
        }
        assert forall|name: Seq<char>| #[trigger] names.contains(name) <==> any_part_has_field(
            parts,
            name,
            schemas,
        ) by {
            lemma_any_part_has_field(parts, name, schemas);
            assert(names_of(before).contains(name) <==> any_part_has_field(rest, name, schemas));
        }
    } else {
        assert(names =~= Seq::<Seq<char>>::empty());
    }
}

/// The fields of a composition have different names, and they are those of the fields of its
/// parts.
pub proof fn law_fields_of_a_composition(
    parts: Seq<RefOrView<SchemaView>>,
    schemas: Seq<(Seq<char>, RefOrView<SchemaView>)>,
)
    ensures
        distinct(names_of(all_of_fields(parts, schemas))),
        forall|name: Seq<char>| #[trigger]
            names_of(all_of_fields(parts, schemas)).contains(name) <==> any_part_has_field(
                parts,
                name,
                schemas,
            ),
{
    lemma_merged_fields(parts, schemas);
    assert(names_of(all_of_fields(parts, schemas)) =~= names_of(merged_fields(parts, schemas)));
}

/// Whether each field is required only where one of the parts requires it.
spec fn required_by_parts(
    fields: Seq<FieldView>,
    parts: Seq<RefOrView<SchemaView>>,
    schemas: Seq<(Seq<char>, RefOrView<SchemaView>)>,
) -> bool {
    forall|i: int|
        0 <= i < fields.len() && (#[trigger] fields[i]).is_required ==> any_part_requires(
            parts,
            fields[i].name,
            schemas,
        )
}

proof fn lemma_with_fields_required(
    fields: Seq<FieldView>,
    more: Seq<FieldView>,
    parts: Seq<RefOrView<SchemaView>>,
    schemas: Seq<(Seq<char>, RefOrView<SchemaView>)>,
)
    requires
        required_by_parts(fields, parts, schemas),
        required_by_parts(more, parts, schemas),
    ensures
        required_by_parts(with_fields(fields, more), parts, schemas),
    decreases more.len(),
{
    if more.len() > 0 {
        let rest = more.drop_last();
        let last = more.last();
        assert forall|i: int| 0 <= i < rest.len() && (
        #[trigger] rest[i]).is_required implies any_part_requires(
            parts,
            rest[i].name,
            schemas,
        ) by {
            assert(rest[i] == more[i]);
        }
        assert(more[more.len() - 1] == last);
        lemma_with_fields_required(fields, rest, parts, schemas);
        let before = with_fields(fields, rest);
        lemma_position_of(names_of(before), last.name);
        if let Some(i) = position_of(names_of(before), last.name) {
            assert(before[i].name == names_of(before)[i]);
            lemma_refined(before[i], last);
        }
    }
}

proof fn lemma_merged_required(
    parts: Seq<RefOrView<SchemaView>>,
    schemas: Seq<(Seq<char>, RefOrView<SchemaView>)>,
    n: int,
)
    requires
        0 <= n <= parts.len(),
    ensures
        required_by_parts(merged_fields(parts.take(n), schemas), parts, schemas),
    decreases n,
{
    if n > 0 {
        let here = parts.take(n);
        assert(here.drop_last() =~= parts.take(n - 1));
        lemma_merged_required(parts, schemas, n - 1);
        if let Some(part) = resolved(parts[n - 1], schemas) {
            let more = part_fields(part, schemas);
            assert forall|i: int| 0 <= i < more.len() && (
            #[trigger] more[i]).is_required implies any_part_requires(
                parts,
                more[i].name,
                schemas,
            ) by {
                assert(part_requires(parts[n - 1], more[i].name, schemas));
            }
            lemma_with_fields_required(
                merged_fields(here.drop_last(), schemas),
                more,
                parts,
                schemas,
            );
        }
    }
}

/// A field of a composition is required if and only if one of its parts requires it.
pub proof fn law_required_fields_of_a_composition(
    parts: Seq<RefOrView<SchemaView>>,
    schemas: Seq<(Seq<char>, RefOrView<SchemaView>)>,
    i: int,
)
    requires
        0 <= i < all_of_fields(parts, schemas).len(),
    ensures
        all_of_fields(parts, schemas)[i].is_required <==> any_part_requires(
            parts,
            all_of_fields(parts, schemas)[i].name,
            schemas,
        ),
{
    lemma_merged_required(parts, schemas, parts.len() as int);
    assert(parts.take(parts.len() as int) =~= parts);
    let merged = merged_fields(parts, schemas);
    assert(merged[i].name == all_of_fields(parts, schemas)[i].name);
}

proof fn lemma_with_texts(texts: Seq<Seq<char>>, more: Seq<Seq<char>>)
    requires
        ascending(texts),
    ensures
        ascending(with_texts(texts, more)),
        forall|t: Seq<char>| #[trigger]
            with_texts(texts, more).contains(t) <==> texts.contains(t) || more.contains(t),
    decreases more.len(),
{
    if more.len() > 0 {
        let rest = more.drop_last();
        lemma_with_texts(texts, rest);
        lemma_with_text(with_texts(texts, rest), more.last());
        assert forall|t: Seq<char>| #[trigger]
            with_texts(texts, more).contains(t) <==> texts.contains(t) || more.contains(t) by {
            assert(with_texts(texts, rest).contains(t) <==> texts.contains(t) || rest.contains(t));
            if rest.contains(t) {
                let k = choose|k: int| 0 <= k < rest.len() && rest[k] == t;
                assert(more[k] == t);
            }
            assert(more[more.len() - 1] == more.last());
            if more.contains(t) && t != more.last() {
                let k = choose|k: int| 0 <= k < more.len() && more[k] == t;
                assert(rest[k] == t);
            }
        }
    }
}

/// Whether an alternative lists the given value.
pub open spec fn lists_value(
    alternative: RefOrView<SchemaView>,
    value: Seq<char>,
    schemas: Seq<(Seq<char>, RefOrView<SchemaView>)>,
) -> bool {
    listed_values(alternative, schemas) matches Some(values) && values.contains(value)
}

/// Whether one of the alternatives lists the given value.
pub open spec fn any_lists_value(
    alternatives: Seq<RefOrView<SchemaView>>,
    value: Seq<char>,
    schemas: Seq<(Seq<char>, RefOrView<SchemaView>)>,
) -> bool {
    exists|i: int|
        0 <= i < alternatives.len() && lists_value(#[trigger] alternatives[i], value, schemas)
}

/// The values of a union are in ascending order, each of them once, and they are those that its
/// alternatives list.
pub proof fn law_values_of_a_union(
    alternatives: Seq<RefOrView<SchemaView>>,
    schemas: Seq<(Seq<char>, RefOrView<SchemaView>)>,
)
    ensures
        ascending(union_values(alternatives, schemas)),
        forall|value: Seq<char>| #[trigger]
            union_values(alternatives, schemas).contains(value) <==> any_lists_value(
                alternatives,
                value,
                schemas,
            ),
    decreases alternatives.len(),
{
    let all = union_values(alternatives, schemas);
    if alternatives.len() > 0 {
        let rest = alternatives.drop_last();
        let last = alternatives.last();
        law_values_of_a_union(rest, schemas);
        let before = union_values(rest, schemas);
        if let Some(values) = listed_values(last, schemas) {
            lemma_with_texts(before, values);
        }
        assert forall|value: Seq<char>| #[trigger] all.contains(value) <==> any_lists_value(
            alternatives,
            value,
            schemas,
        ) by {
            assert(before.contains(value) <==> any_lists_value(rest, value, schemas));
            if any_lists_value(rest, value, schemas) {
                let i = choose|i: int|
                    0 <= i < rest.len() && lists_value(#[trigger] rest[i], value, schemas);
                assert(lists_value(alternatives[i], value, schemas));
            }
            if lists_value(last, value, schemas) {
                assert(lists_value(alternatives[alternatives.len() - 1], value, schemas));
            }
            if any_lists_value(alternatives, value, schemas) && !lists_value(
                last,
                value,
                schemas,
            ) {
                let i = choose|i: int|
                    0 <= i < alternatives.len() && lists_value(
                        #[trigger] alternatives[i],
                        value,
                        schemas,
                    );
                assert(lists_value(rest[i], value, schemas));
            }
        }
    }
}

/// Whether the parameter at a place is the last with its name.
pub open spec fn is_last(list: Seq<(ParameterView, Option<Seq<char>>)>, k: int) -> bool {
    &&& 0 <= k < list.len()
    &&& forall|l: int|
        k < l < list.len() ==> (#[trigger] list[l]).0.parameter_data.name
            != list[k].0.parameter_data.name
}

/// Whether a parameter is the last with its name.
pub open spec fn is_some_last(
    list: Seq<(ParameterView, Option<Seq<char>>)>,
    parameter: (ParameterView, Option<Seq<char>>),
) -> bool {
    exists|k: int| #[trigger] is_last(list, k) && list[k] == parameter
}

/// Of the parameters with one name the last is kept: the names that are kept are distinct, they
/// are all that there are, and each has the last parameter of that name.
pub proof fn law_later_parameters_override(list: Seq<(ParameterView, Option<Seq<char>>)>)
    ensures
        distinct(parameter_names(overridden(list))),
        forall|name: Seq<char>| #[trigger]
            parameter_names(overridden(list)).contains(name) <==> parameter_names(list).contains(
                name,
            ),
        forall|i: int|
            0 <= i < overridden(list).len() ==> is_some_last(
                list,
                #[trigger] overridden(list)[i],
            ),
    decreases list.len(),
{
    let kept = overridden(list);
    if list.len() > 0 {
        let rest = list.drop_last();
        let last = list.last();
        let name = last.0.parameter_data.name;
        law_later_parameters_override(rest);
        let before = overridden(rest);
        let names = parameter_names(before);
        lemma_position_of(names, name);
        assert(list[list.len() - 1] == last);
        assert forall|n: Seq<char>|
            parameter_names(list).contains(n) <==> parameter_names(rest).contains(n) || n
                == name by {
            if parameter_names(rest).contains(n) {
                let k = choose|k: int| 0 <= k < rest.len() && parameter_names(rest)[k] == n;
                assert(parameter_names(list)[k] == n);
            }
            assert(parameter_names(list)[list.len() - 1] == name);
            if parameter_names(list).contains(n) && n != name {
                let k = choose|k: int| 0 <= k < list.len() && parameter_names(list)[k] == n;
                assert(parameter_names(rest)[k] == n);
            }
        }
        match position_of(names, name) {
            Some(i) => {
                assert(parameter_names(kept) =~= names);
                assert(names[i] == name);
            },
            None => {
                assert(parameter_names(kept) =~= names.push(name));
                assert forall|n: Seq<char>|
                    parameter_names(kept).contains(n) <==> names.contains(n) || n == name by {
                    if names.contains(n) {
                        let k = choose|k: int| 0 <= k < names.len() && names[k] == n;
                        assert(parameter_names(kept)[k] == n);
                    }
                    assert(parameter_names(kept)[names.len() as int] == name);
                }
            },
        }
        assert forall|n: Seq<char>| #[trigger]
            parameter_names(kept).contains(n) <==> parameter_names(list).contains(n) by {
            assert(names.contains(n) <==> parameter_names(rest).contains(n));
        }
        assert forall|i: int| 0 <= i < kept.len() implies is_some_last(
            list,
            #[trigger] kept[i],
        ) by {
            if kept[i] == last {
                assert(is_last(list, list.len() - 1));
            } else {
                assert(kept[i] == before[i]);
                assert(names[i] != name);
                let k = choose|k: int| #[trigger] is_last(rest, k) && rest[k] == before[i];
                assert forall|l: int| k < l < list.len() implies (
                #[trigger] list[l]).0.parameter_data.name != list[k].0.parameter_data.name by {
                    if l < rest.len() {
                        assert(rest[l] == list[l]);
                    }
                }
                assert(is_last(list, k) && list[k] == kept[i]);
            }
        }
    } else {
        assert(parameter_names(kept) =~= parameter_names(list));
    }
}

/// The query parameters of an operation override those of its path: where the operation itself
/// has parameters of a name, the last of these is the one that is kept.
pub proof fn law_own_parameters_override(
    path_parameters: Seq<RefOrView<ParameterView>>,
    own_parameters: Seq<RefOrView<ParameterView>>,
    parameters: Seq<(Seq<char>, RefOrView<ParameterView>)>,
    i: int,
)
    requires
        0 <= i < operation_parameters(path_parameters, own_parameters, parameters).len(),
        parameter_names(query_parameters(own_parameters, parameters)).contains(
            operation_parameters(
                path_parameters,
                own_parameters,
                parameters,
            )[i].0.parameter_data.name,
        ),
    ensures
        is_some_last(
            query_parameters(own_parameters, parameters),
            operation_parameters(path_parameters, own_parameters, parameters)[i],
        ),
{
    let own = query_parameters(own_parameters, parameters);
    let of_path = query_parameters(path_parameters, parameters);
    let list = query_parameters(path_parameters + own_parameters, parameters);
    let kept = overridden(list);
    let name = kept[i].0.parameter_data.name;
    lemma_query_parameters_of_both(
        path_parameters,
        own_parameters,
        parameters,
    );
    law_later_parameters_override(list);
    let k = choose|k: int| #[trigger] is_last(list, k) && list[k] == kept[i];
    let o = choose|o: int| 0 <= o < own.len() && parameter_names(own)[o] == name;
    assert(own[o].0.parameter_data.name == name);
    assert(list[of_path.len() + o] == own[o]);
    assert(k >= of_path.len() + o);
    let j = k - of_path.len();
    assert(own[j] == list[k]);
    assert forall|l: int| j < l < own.len() implies (#[trigger] own[l]).0.parameter_data.name
        != own[j].0.parameter_data.name by {
        assert(list[of_path.len() + l] == own[l]);
    }
    assert(is_last(own, j));
}

/// A query field whose structure stands in its place is required and not null.
pub proof fn law_flattened_fields(
    list: Seq<(ParameterView, Option<Seq<char>>)>,
    schemas: Seq<(Seq<char>, RefOrView<SchemaView>)>,
    i: int,
)
    requires
        0 <= i < query_fields(list, schemas).len(),
        query_fields(list, schemas)[i].flatten,
    ensures
        query_fields(list, schemas)[i].is_required,
        !query_fields(list, schemas)[i].is_nullable,
    decreases list.len(),
{
    let rest = list.drop_last();
    if i < query_fields(rest, schemas).len() {
        law_flattened_fields(rest, schemas, i);
    }
}

} // verus!
