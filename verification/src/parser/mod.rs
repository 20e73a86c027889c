//! Models from documents.
pub mod composition;
pub mod fields;
pub mod laws;
pub mod operations;
pub mod parameters;
pub mod parts;
pub mod schemas;
pub mod types;
pub mod unions;

use crate::error::DocumentError;
use crate::models::{
    Field, FieldView, Model, ModelType, ModelTypeView, ModelView, RequestModel, RequestModelView,
    ResponseModel, ResponseModelView,
};
use crate::openapi::view::{
    DocumentView, MediaTypeView, OperationView, ParameterInfoView, ParameterSchemaOrContentView,
    ParameterView, PathItemView, RefOrView, RequestBodyView, SchemaView,
};
use crate::openapi::{
    Document, OperationDef, ParameterDef, ParameterSchemaOrContent, PathItemDef, RefOr,
    RequestBodyDef, SchemaDef,
};
use crate::parser::fields::copy_text;
use crate::parser::operations::{
    operation_models, operation_requests, operation_responses, process_operation,
};
use crate::parser::parameters::{
    check_properties, extract_nullable_and_attrs, has_properties, nullable, resolve_or_self,
    resolved_attrs, resolved_or_self,
};
use crate::parser::schemas::{model_types, parse_schema_to_model_type};
use crate::parser::types::{extract_type_and_format, type_and_format};
use crate::text::{pascal_case, to_pascal_case};
use vstd::hash_set::StringHashSet;
use vstd::prelude::*;

verus! {

/// Whether one of the models has the given name.
pub open spec fn has_model(models: Seq<ModelTypeView>, name: Seq<char>) -> bool {
    exists|i: int| 0 <= i < models.len() && (#[trigger] models[i]).name() == name
}

/// The models with some more, one after the other, of which those are left out whose name is
/// taken.
pub open spec fn with_models(models: Seq<ModelTypeView>, more: Seq<ModelTypeView>) -> Seq<
    ModelTypeView,
>
    decreases more.len(),
{
    if more.len() == 0 {
        models
    } else {
        let before = with_models(models, more.drop_last());
        if has_model(before, more.last().name()) {
            before
        } else {
            before.push(more.last())
        }
    }
}

/// The models without those whose name an earlier one has.
pub open spec fn first_of_each_name(models: Seq<ModelTypeView>) -> Seq<ModelTypeView> {
    with_models(Seq::empty(), models)
}

/// The models of named schemas, in order.
pub open spec fn models_of_schemas(
    named: Seq<(Seq<char>, RefOrView<SchemaView>)>,
    schemas: Seq<(Seq<char>, RefOrView<SchemaView>)>,
) -> Seq<ModelTypeView>
    decreases named.len(),
{
    if named.len() == 0 {
        Seq::empty()
    } else {
        models_of_schemas(named.drop_last(), schemas) + model_types(
            named.last().0,
            named.last().1,
            schemas,
        )
    }
}

/// The models of a declared body: those of the schema of each of its content types, under the
/// name of the body.
pub open spec fn models_of_body(
    name: Seq<char>,
    content: Seq<(Seq<char>, MediaTypeView)>,
    schemas: Seq<(Seq<char>, RefOrView<SchemaView>)>,
) -> Seq<ModelTypeView>
    decreases content.len(),
{
    if content.len() == 0 {
        Seq::empty()
    } else {
        let before = models_of_body(name, content.drop_last(), schemas);
        match content.last().1.schema {
            Some(schema) => before + model_types(name, schema, schemas),
            None => before,
        }
    }
}

/// The models of declared bodies, in order.
pub open spec fn models_of_bodies(
    named: Seq<(Seq<char>, RefOrView<RequestBodyView>)>,
    schemas: Seq<(Seq<char>, RefOrView<SchemaView>)>,
) -> Seq<ModelTypeView>
    decreases named.len(),
{
    if named.len() == 0 {
        Seq::empty()
    } else {
        let before = models_of_bodies(named.drop_last(), schemas);
        match named.last().1 {
            RefOrView::Item(body) => before + models_of_body(
                named.last().0,
                body.content,
                schemas,
            ),
            _ => before,
        }
    }
}

/// The structure of a declared parameter that is not an object: one field.
pub open spec fn parameter_struct(
    name: Seq<char>,
    data: ParameterInfoView,
    schema: RefOrView<SchemaView>,
    schemas: Seq<(Seq<char>, RefOrView<SchemaView>)>,
) -> ModelTypeView {
    let (field_type, format) = type_and_format(schema, schemas);
    ModelTypeView::Struct(
        ModelView {
            name: pascal_case(name),
            fields: seq![
                FieldView {
                    name: data.name,
                    field_type,
                    format,
                    is_required: data.required,
                    is_nullable: nullable(schema, schemas),
                    is_array_ref: false,
                    flatten: false,
                    description: data.description,
                    custom_attrs: resolved_attrs(schema, schemas),
                },
            ],
            custom_attrs: None,
            description: data.description,
        },
    )
}

/// The models of a declared parameter: those of an object with properties, or a structure of
/// one field. One that is given by reference or holds content has none.
pub open spec fn models_of_parameter(
    name: Seq<char>,
    parameter: RefOrView<ParameterView>,
    schemas: Seq<(Seq<char>, RefOrView<SchemaView>)>,
) -> Seq<ModelTypeView> {
    match parameter {
        RefOrView::Item(p) => match p.parameter_data.format {
            ParameterSchemaOrContentView::Schema(schema) => {
                let target = resolved_or_self(schema, schemas);
                if has_properties(target) {
                    model_types(name, target, schemas)
                } else {
                    seq![parameter_struct(name, p.parameter_data, schema, schemas)]
                }
            },
            ParameterSchemaOrContentView::Content => Seq::empty(),
        },
        _ => Seq::empty(),
    }
}

/// The models of declared parameters, in order.
pub open spec fn models_of_parameters(
    named: Seq<(Seq<char>, RefOrView<ParameterView>)>,
    schemas: Seq<(Seq<char>, RefOrView<SchemaView>)>,
) -> Seq<ModelTypeView>
    decreases named.len(),
{
    if named.len() == 0 {
        Seq::empty()
    } else {
        models_of_parameters(named.drop_last(), schemas) + models_of_parameter(
            named.last().0,
            named.last().1,
            schemas,
        )
    }
}

/// A list with one value, or none.
pub open spec fn present<A>(value: Option<A>) -> Seq<A> {
    match value {
        Some(a) => seq![a],
        None => Seq::empty(),
    }
}

/// The operations on a path that models are made from, in their order.
pub open spec fn operations_of(path_item: PathItemView) -> Seq<OperationView> {
    present(path_item.get) + present(path_item.post) + present(path_item.put) + present(
        path_item.delete,
    ) + present(path_item.patch)
}

/// The operations of a document, each with its path.
pub open spec fn document_operations(paths: Seq<(Seq<char>, RefOrView<PathItemView>)>) -> Seq<
    (OperationView, PathItemView),
>
    decreases paths.len(),
{
    if paths.len() == 0 {
        Seq::empty()
    } else {
        let before = document_operations(paths.drop_last());
        match paths.last().1 {
            RefOrView::Item(path_item) => before + operations_of(path_item).map_values(
                |operation: OperationView| (operation, path_item),
            ),
            _ => before,
        }
    }
}

/// The models of some operations, in order.
pub open spec fn models_of_operations(
    operations: Seq<(OperationView, PathItemView)>,
    schemas: Seq<(Seq<char>, RefOrView<SchemaView>)>,
    parameters: Seq<(Seq<char>, RefOrView<ParameterView>)>,
) -> Seq<ModelTypeView>
    decreases operations.len(),
{
    if operations.len() == 0 {
        Seq::empty()
    } else {
        models_of_operations(operations.drop_last(), schemas, parameters) + operation_models(
            operations.last().0,
            operations.last().1,
            schemas,
            parameters,
        )
    }
}

/// The requests of some operations, in order.
pub open spec fn requests_of_operations(
    operations: Seq<(OperationView, PathItemView)>,
    schemas: Seq<(Seq<char>, RefOrView<SchemaView>)>,
    request_bodies: Seq<(Seq<char>, RefOrView<RequestBodyView>)>,
) -> Seq<RequestModelView>
    decreases operations.len(),
{
    if operations.len() == 0 {
        Seq::empty()
    } else {
        requests_of_operations(operations.drop_last(), schemas, request_bodies)
            + operation_requests(operations.last().0, schemas, request_bodies)
    }
}

/// The responses of some operations, in order.
pub open spec fn responses_of_operations(
    operations: Seq<(OperationView, PathItemView)>,
    schemas: Seq<(Seq<char>, RefOrView<SchemaView>)>,
) -> Seq<ResponseModelView>
    decreases operations.len(),
{
    if operations.len() == 0 {
        Seq::empty()
    } else {
        responses_of_operations(operations.drop_last(), schemas) + operation_responses(
            operations.last().0,
            operations.last().0.responses,
            schemas,
        )
    }
}

/// The schemas that a document declares.
pub open spec fn declared_schemas(
    openapi: DocumentView,
) -> Seq<(Seq<char>, RefOrView<SchemaView>)> {
    match openapi.components {
        Some(c) => c.schemas,
        None => Seq::empty(),
    }
}

/// The request bodies that a document declares.
pub open spec fn declared_bodies(
    openapi: DocumentView,
) -> Seq<(Seq<char>, RefOrView<RequestBodyView>)> {
    match openapi.components {
        Some(c) => c.request_bodies,
        None => Seq::empty(),
    }
}

/// The parameters that a document declares.
pub open spec fn declared_parameters(
    openapi: DocumentView,
) -> Seq<(Seq<char>, RefOrView<ParameterView>)> {
    match openapi.components {
        Some(c) => c.parameters,
        None => Seq::empty(),
    }
}

/// Everything that a document gives rise to, in order: the models of its schemas, of its
/// request bodies, of its parameters, and then of its operations.
pub open spec fn all_models(openapi: DocumentView) -> Seq<ModelTypeView> {
    let schemas = declared_schemas(openapi);
    let parameters = declared_parameters(openapi);
    models_of_schemas(schemas, schemas) + models_of_bodies(declared_bodies(openapi), schemas)
        + models_of_parameters(parameters, schemas) + models_of_operations(
        document_operations(openapi.paths),
        schemas,
        parameters,
    )
}

/// The models of a document: the first of each name.
pub open spec fn document_models(openapi: DocumentView) -> Seq<ModelTypeView> {
    first_of_each_name(all_models(openapi))
}

/// The requests of a document.
pub open spec fn document_requests(openapi: DocumentView) -> Seq<RequestModelView> {
    requests_of_operations(
        document_operations(openapi.paths),
        declared_schemas(openapi),
        declared_bodies(openapi),
    )
}

/// The responses of a document.
pub open spec fn document_responses(openapi: DocumentView) -> Seq<ResponseModelView> {
    responses_of_operations(document_operations(openapi.paths), declared_schemas(openapi))
}

proof fn lemma_with_models_of_both(
    models: Seq<ModelTypeView>,
    first: Seq<ModelTypeView>,
    second: Seq<ModelTypeView>,
)
    ensures
        with_models(models, first + second) == with_models(with_models(models, first), second),
    decreases second.len(),
{
    if second.len() == 0 {
        assert(first + second =~= first);
    } else {
        assert((first + second).drop_last() =~= first + second.drop_last());
        lemma_with_models_of_both(models, first, second.drop_last());
    }
}

/// Models under names of which no two are the same.
struct ModelTable {
    models: Vec<ModelType>,
    names: StringHashSet,
}

impl ModelTable {
    /// The names are those of the models.
    spec fn well_formed(self) -> bool {
        forall|name: Seq<char>| #[trigger]
            self.names@.contains(name) == has_model(self.models.deep_view(), name)
    }

    fn new() -> (r: Self)
        ensures
            r.well_formed(),
            r.models.deep_view() == Seq::<ModelTypeView>::empty(),
    {
        let r = ModelTable { models: Vec::new(), names: StringHashSet::new() };
        assert(r.models.deep_view() =~= Seq::<ModelTypeView>::empty());
        r
    }

    /// Adds the models whose name is not taken.
    fn add_all(&mut self, more: Vec<ModelType>)
        requires
            old(self).well_formed(),
        ensures
            final(self).well_formed(),
            final(self).models.deep_view() == with_models(
                old(self).models.deep_view(),
                more.deep_view(),
            ),
    {
        let ghost start = self.models.deep_view();
        let ghost all = more.deep_view();
        for model in it: more
            invariant
                it.seq() == more@,
                all == more.deep_view(),
                self.well_formed(),
                self.models.deep_view() == with_models(start, all.take(it.index())),
        {
            assert(all.take(it.index() + 1).drop_last() =~= all.take(it.index()));
            assert(all[it.index()] == model.deep_view());
            let ghost before = self.models.deep_view();
            if self.names.insert(model.name().to_string()) {
                self.models.push(model);
                let ghost after = self.models.deep_view();
                assert(after =~= before.push(model.deep_view()));
                assert forall|name: Seq<char>| #[trigger]
                    self.names@.contains(name) == has_model(after, name) by {
                    if has_model(before, name) {
                        let i = choose|i: int|
                            0 <= i < before.len() && (#[trigger] before[i]).name() == name;
                        assert(after[i].name() == name);
                    }
                    if name == model.deep_view().name() {
                        assert(after[before.len() as int].name() == name);
                    }
                    if has_model(after, name) && name != model.deep_view().name() {
                        let i = choose|i: int|
                            0 <= i < after.len() && (#[trigger] after[i]).name() == name;
                        assert(before[i].name() == name);
                    }
                }
            }
        }
        assert(all.take(all.len() as int) =~= all);
    }
}

fn add_schemas(table: &mut ModelTable, schemas: &Vec<(String, RefOr<SchemaDef>)>)
    requires
        old(table).well_formed(),
    ensures
        final(table).well_formed(),
        final(table).models.deep_view() == with_models(
            old(table).models.deep_view(),
            models_of_schemas(schemas.deep_view(), schemas.deep_view()),
        ),
{
    let ghost start = table.models.deep_view();
    for i in 0..schemas.len()
        invariant
            table.well_formed(),
            table.models.deep_view() == with_models(
                start,
                models_of_schemas(schemas.deep_view().take(i as int), schemas.deep_view()),
            ),
    {
        assert(schemas.deep_view().take(i + 1).drop_last() =~= schemas.deep_view().take(i as int));
        let (name, schema) = &schemas[i];
        let models = parse_schema_to_model_type(name.as_str(), schema, schemas);
        proof {
            lemma_with_models_of_both(
                start,
                models_of_schemas(schemas.deep_view().take(i as int), schemas.deep_view()),
                models.deep_view(),
            );
        }
        table.add_all(models);
    }
    assert(schemas.deep_view().take(schemas.len() as int) =~= schemas.deep_view());
}

fn add_body(
    table: &mut ModelTable,
    name: &str,
    body: &RequestBodyDef,
    schemas: &Vec<(String, RefOr<SchemaDef>)>,
)
    requires
        old(table).well_formed(),
    ensures
        final(table).well_formed(),
        final(table).models.deep_view() == with_models(
            old(table).models.deep_view(),
            models_of_body(name@, body.content.deep_view(), schemas.deep_view()),
        ),
{
    let ghost start = table.models.deep_view();
    let ghost content = body.content.deep_view();
    for i in 0..body.content.len()
        invariant
            content == body.content.deep_view(),
            table.well_formed(),
            table.models.deep_view() == with_models(
                start,
                models_of_body(name@, content.take(i as int), schemas.deep_view()),
            ),
    {
        assert(content.take(i + 1).drop_last() =~= content.take(i as int));
        if let Some(schema) = &body.content[i].1.schema {
            let models = parse_schema_to_model_type(name, schema, schemas);
            proof {
                lemma_with_models_of_both(
                    start,
                    models_of_body(name@, content.take(i as int), schemas.deep_view()),
                    models.deep_view(),
                );
            }
            table.add_all(models);
        }
    }
    assert(content.take(content.len() as int) =~= content);
}

fn add_bodies(
    table: &mut ModelTable,
    request_bodies: &Vec<(String, RefOr<RequestBodyDef>)>,
    schemas: &Vec<(String, RefOr<SchemaDef>)>,
)
    requires
        old(table).well_formed(),
    ensures
        final(table).well_formed(),
        final(table).models.deep_view() == with_models(
            old(table).models.deep_view(),
            models_of_bodies(request_bodies.deep_view(), schemas.deep_view()),
        ),
{
    let ghost start = table.models.deep_view();
    let ghost whole = request_bodies.deep_view();
    for i in 0..request_bodies.len()
        invariant
            whole == request_bodies.deep_view(),
            table.well_formed(),
            table.models.deep_view() == with_models(
                start,
                models_of_bodies(whole.take(i as int), schemas.deep_view()),
            ),
    {
        assert(whole.take(i + 1).drop_last() =~= whole.take(i as int));
        let (name, body_ref) = &request_bodies[i];
        if let RefOr::Item(body) = body_ref {
            proof {
                lemma_with_models_of_both(
                    start,
                    models_of_bodies(whole.take(i as int), schemas.deep_view()),
                    models_of_body(name@, body.content.deep_view(), schemas.deep_view()),
                );
            }
            add_body(table, name.as_str(), body, schemas);
        }
    }
    assert(whole.take(whole.len() as int) =~= whole);
}

fn parse_parameter(
    name: &str,
    param_ref: &RefOr<ParameterDef>,
    schemas: &Vec<(String, RefOr<SchemaDef>)>,
) -> (r: Vec<ModelType>)
    ensures
        r.deep_view() == models_of_parameter(name@, param_ref.deep_view(), schemas.deep_view()),
{
    let mut models: Vec<ModelType> = Vec::new();
    if let RefOr::Item(parameter) = param_ref {
        let data = &parameter.parameter_data;
        if let ParameterSchemaOrContent::Schema(schema) = &data.format {
            let target = resolve_or_self(schema, schemas);
            if check_properties(target) {
                return parse_schema_to_model_type(name, target, schemas);
            }
            let (field_type, format) = extract_type_and_format(schema, schemas);
            let (is_nullable, custom_attrs) = extract_nullable_and_attrs(schema, schemas);
            let mut fields: Vec<Field> = Vec::new();
            fields.push(
                Field {
                    name: data.name.clone(),
                    field_type,
                    format,
                    is_required: data.required,
                    is_nullable,
                    is_array_ref: false,
                    flatten: false,
                    description: copy_text(&data.description),
                    custom_attrs,
                },
            );
            let model = ModelType::Struct(
                Model {
                    name: to_pascal_case(name),
                    fields,
                    custom_attrs: None,
                    description: copy_text(&data.description),
                },
            );
            assert(model.deep_view() =~= parameter_struct(
                name@,
                data.deep_view(),
                schema.deep_view(),
                schemas.deep_view(),
            ));
            models.push(model);
        }
    }
    assert(models.deep_view() =~= models_of_parameter(
        name@,
        param_ref.deep_view(),
        schemas.deep_view(),
    ));
    models
}

fn add_parameters(
    table: &mut ModelTable,
    parameters: &Vec<(String, RefOr<ParameterDef>)>,
    schemas: &Vec<(String, RefOr<SchemaDef>)>,
)
    requires
        old(table).well_formed(),
    ensures
        final(table).well_formed(),
        final(table).models.deep_view() == with_models(
            old(table).models.deep_view(),
            models_of_parameters(parameters.deep_view(), schemas.deep_view()),
        ),
{
    let ghost start = table.models.deep_view();
    let ghost whole = parameters.deep_view();
    for i in 0..parameters.len()
        invariant
            whole == parameters.deep_view(),
            table.well_formed(),
            table.models.deep_view() == with_models(
                start,
                models_of_parameters(whole.take(i as int), schemas.deep_view()),
            ),
    {
        assert(whole.take(i + 1).drop_last() =~= whole.take(i as int));
        let (name, param_ref) = &parameters[i];
        let models = parse_parameter(name.as_str(), param_ref, schemas);
        proof {
            lemma_with_models_of_both(
                start,
                models_of_parameters(whole.take(i as int), schemas.deep_view()),
                models.deep_view(),
            );
        }
        table.add_all(models);
    }
    assert(whole.take(whole.len() as int) =~= whole);
}

/// Lists the operations of a document, each with its path.
fn list_operations(paths: &Vec<(String, RefOr<PathItemDef>)>) -> (r: Vec<
    (&OperationDef, &PathItemDef),
>)
    ensures
        r.deep_view() == document_operations(paths.deep_view()),
{
    let mut list: Vec<(&OperationDef, &PathItemDef)> = Vec::new();
    let ghost whole = paths.deep_view();
    assert(list.deep_view() =~= Seq::empty());
    for i in 0..paths.len()
        invariant
            whole == paths.deep_view(),
            list.deep_view() == document_operations(whole.take(i as int)),
    {
        assert(whole.take(i + 1).drop_last() =~= whole.take(i as int));
        let ghost before = list.deep_view();
        if let RefOr::Item(path_item) = &paths[i].1 {
            if let Some(operation) = &path_item.get {
                list.push((operation, path_item));
            }
            if let Some(operation) = &path_item.post {
                list.push((operation, path_item));
            }
            if let Some(operation) = &path_item.put {
                list.push((operation, path_item));
            }
            if let Some(operation) = &path_item.delete {
                list.push((operation, path_item));
            }
            if let Some(operation) = &path_item.patch {
                list.push((operation, path_item));
            }
            let ghost view = path_item.deep_view();
            assert(list.deep_view() =~= before + operations_of(view).map_values(
                |operation: OperationView| (operation, view),
            ));
        }
    }
    assert(whole.take(paths.len() as int) =~= whole);
    list
}

/// Turns a document into its models, its requests and its responses. This never fails.
pub fn parse_openapi(openapi: &Document) -> (r: Result<
    (Vec<ModelType>, Vec<RequestModel>, Vec<ResponseModel>),
    DocumentError,
>)
    ensures
        r matches Ok((models, requests, responses)) && {
            &&& models.deep_view() == document_models(openapi.deep_view())
            &&& requests.deep_view() == document_requests(openapi.deep_view())
            &&& responses.deep_view() == document_responses(openapi.deep_view())
        },
{
    let mut table = ModelTable::new();
    let mut requests: Vec<RequestModel> = Vec::new();
    let mut responses: Vec<ResponseModel> = Vec::new();
    let empty_schemas: Vec<(String, RefOr<SchemaDef>)> = Vec::new();
    let empty_bodies: Vec<(String, RefOr<RequestBodyDef>)> = Vec::new();
    let empty_parameters: Vec<(String, RefOr<ParameterDef>)> = Vec::new();
    let (schemas, request_bodies, parameters) = match &openapi.components {
        Some(c) => (&c.schemas, &c.request_bodies, &c.parameters),
        None => (&empty_schemas, &empty_bodies, &empty_parameters),
    };
    let ghost view = openapi.deep_view();
    assert(schemas.deep_view() =~= declared_schemas(view));
    assert(request_bodies.deep_view() =~= declared_bodies(view));
    assert(parameters.deep_view() =~= declared_parameters(view));

    add_schemas(&mut table, schemas);
    add_bodies(&mut table, request_bodies, schemas);
    add_parameters(&mut table, parameters, schemas);

    let operations = list_operations(&openapi.paths);
    let ghost pairs = operations.deep_view();
    let ghost start = table.models.deep_view();
    assert(requests.deep_view() =~= Seq::empty());
    assert(responses.deep_view() =~= Seq::empty());
    for i in 0..operations.len()
        invariant
            pairs == operations.deep_view(),
            table.well_formed(),
            table.models.deep_view() == with_models(
                start,
                models_of_operations(
                    pairs.take(i as int),
                    schemas.deep_view(),
                    parameters.deep_view(),
                ),
            ),
            requests.deep_view() == requests_of_operations(
                pairs.take(i as int),
                schemas.deep_view(),
                request_bodies.deep_view(),
            ),
            responses.deep_view() == responses_of_operations(
                pairs.take(i as int),
                schemas.deep_view(),
            ),
    {
        assert(pairs.take(i + 1).drop_last() =~= pairs.take(i as int));
        let (operation, path_item) = operations[i];
        let models = process_operation(
            operation,
            path_item,
            &mut requests,
            &mut responses,
            schemas,
            request_bodies,
            parameters,
        );
        proof {
            lemma_with_models_of_both(
                start,
                models_of_operations(
                    pairs.take(i as int),
                    schemas.deep_view(),
                    parameters.deep_view(),
                ),
                models.deep_view(),
            );
        }
        table.add_all(models);
    }
    assert(pairs.take(pairs.len() as int) =~= pairs);
    proof {
        let a = models_of_schemas(schemas.deep_view(), schemas.deep_view());
        let b = models_of_bodies(request_bodies.deep_view(), schemas.deep_view());
        let c = models_of_parameters(parameters.deep_view(), schemas.deep_view());
        let d = models_of_operations(pairs, schemas.deep_view(), parameters.deep_view());
        let none = Seq::<ModelTypeView>::empty();
        lemma_with_models_of_both(none, a, b);
        lemma_with_models_of_both(none, a + b, c);
        lemma_with_models_of_both(none, a + b + c, d);
    }
    Ok((table.models, requests, responses))
}

} // verus!
