use colmenar::context::Context;
use colmenar::error::Error;
use colmenar::model::Model;
use colmenar::operation::{
    BodyEntry, HttpMethod, MediaTypeInput, Operation, OperationInput, ParamEntry, ParamLocation,
    ParameterInput, PathEntry, PathItemInput, RequestBodyInput, ResponseEntry, ResponseInput,
    StatusCodeInput,
};
use colmenar::parameter::{Parameter, ParameterData, ParameterFormat};
use colmenar::resource::Resource;
use colmenar::schema::{Schema, SchemaRef, SchemaShape};
use colmenar::typeref::TypeRef;

fn plain_text() -> Schema {
    Schema { description: None, nullable: false, shape: SchemaShape::Text { enumeration: vec![] } }
}

fn inline(s: Schema) -> SchemaRef {
    SchemaRef::Item(Box::new(s))
}

fn empty_operation(id: &str) -> OperationInput {
    OperationInput {
        operation_id: Some(id.to_string()),
        description: None,
        parameters: vec![],
        request_body: None,
        responses: vec![],
    }
}

fn json_body(schema: Schema) -> RequestBodyInput {
    RequestBodyInput {
        content: vec![(
            "application/json".to_string(),
            MediaTypeInput { schema: Some(inline(schema)) },
        )],
    }
}

fn json_response(schema: Schema) -> ResponseInput {
    ResponseInput {
        content: vec![(
            "application/json".to_string(),
            MediaTypeInput { schema: Some(inline(schema)) },
        )],
    }
}

fn string_param(name: &str, location: ParamLocation, required: bool) -> ParamEntry {
    ParamEntry::Item(ParameterInput {
        location,
        data: ParameterData {
            name: name.to_string(),
            description: None,
            required,
            format: ParameterFormat::Schema(inline(plain_text())),
        },
    })
}

#[test]
fn missing_operation_id_is_fatal() {
    let mut ctx = Context::new();
    let mut op = empty_operation("x");
    op.operation_id = None;
    let r = Operation::discover(&mut ctx, "/v1/environments", HttpMethod::Get, &op);
    assert!(matches!(r, Err(Error::MissingOperationId { .. })));
}

#[test]
fn operation_name_is_snake_cased_identifier() {
    let mut ctx = Context::new();
    Operation::discover(
        &mut ctx,
        "/v1/environments",
        HttpMethod::Get,
        &empty_operation("GetEnvironments"),
    )
    .unwrap();
    let o = Operation::get(&ctx, "get_environments").unwrap();
    assert_eq!(o.name, "get_environments");
    assert_eq!(o.path, "/v1/environments");
    assert!(matches!(o.method, HttpMethod::Get));
    assert!(o.request.is_none());
    assert!(o.response.is_none());
}

#[test]
fn parameters_partition_by_binding_site() {
    let mut ctx = Context::new();
    let mut op = empty_operation("get_environment");
    op.parameters = vec![
        string_param("id", ParamLocation::Path, true),
        string_param("page", ParamLocation::Query, false),
    ];
    Operation::discover(&mut ctx, "/v1/environments/{id}", HttpMethod::Get, &op).unwrap();
    let o = Operation::get(&ctx, "get_environment").unwrap();
    assert_eq!(o.parameters.len(), 1);
    assert_eq!(o.parameters[0].original_name, "id");
    assert!(o.parameters[0].required);
    assert_eq!(o.query.len(), 1);
    assert_eq!(o.query[0].original_name, "page");
    assert!(!o.query[0].required);
}

#[test]
fn header_parameter_is_unsupported() {
    let mut ctx = Context::new();
    let mut op = empty_operation("get_environment");
    op.parameters = vec![string_param("x-trace", ParamLocation::Header, false)];
    let r = Operation::discover(&mut ctx, "/v1/environments", HttpMethod::Get, &op);
    assert!(matches!(r, Err(Error::UnsupportedParameter { .. })));
}

#[test]
fn referenced_parameter_resolves_from_registry() {
    let mut ctx = Context::new();
    let shared = ParameterData {
        name: "page".to_string(),
        description: None,
        required: false,
        format: ParameterFormat::Schema(inline(plain_text())),
    };
    Parameter::discover(&mut ctx, "Page", &shared).unwrap();
    let mut op = empty_operation("list_things");
    op.parameters = vec![ParamEntry::Reference {
        reference: "#/components/parameters/Page".to_string(),
    }];
    Operation::discover(&mut ctx, "/v1/things", HttpMethod::Get, &op).unwrap();
    let o = Operation::get(&ctx, "list_things").unwrap();
    assert_eq!(o.query.len(), 1);
    assert_eq!(o.query[0].ty_name, "Page");
}

#[test]
fn unknown_parameter_reference_is_fatal() {
    let mut ctx = Context::new();
    let mut op = empty_operation("list_things");
    op.parameters = vec![ParamEntry::Reference {
        reference: "#/components/parameters/Missing".to_string(),
    }];
    let r = Operation::discover(&mut ctx, "/v1/things", HttpMethod::Get, &op);
    assert!(matches!(r, Err(Error::UnresolvedParameter { .. })));
}

#[test]
fn request_body_resolves_under_request_suffix() {
    let mut ctx = Context::new();
    let mut op = empty_operation("create_environment");
    op.request_body = Some(BodyEntry::Item(json_body(Schema {
        description: None,
        nullable: false,
        shape: SchemaShape::Object {
            required: vec!["name".to_string()],
            properties: vec![("name".to_string(), inline(plain_text()))],
        },
    })));
    Operation::discover(&mut ctx, "/v1/environments", HttpMethod::Post, &op).unwrap();
    let o = Operation::get(&ctx, "create_environment").unwrap();
    assert_eq!(o.request.as_deref(), Some("CreateEnvironmentRequest"));
    assert!(Model::get(&ctx, "CreateEnvironmentRequest").is_some());
}

#[test]
fn request_body_without_json_content_is_fatal() {
    let mut ctx = Context::new();
    let mut op = empty_operation("create_environment");
    op.request_body = Some(BodyEntry::Item(RequestBodyInput {
        content: vec![("text/plain".to_string(), MediaTypeInput { schema: None })],
    }));
    let r = Operation::discover(&mut ctx, "/v1/environments", HttpMethod::Post, &op);
    assert!(matches!(r, Err(Error::MissingRequestJson { .. })));
}

#[test]
fn only_the_200_response_yields_a_model() {
    let mut ctx = Context::new();
    let mut op = empty_operation("get_environment");
    op.responses = vec![
        (
            StatusCodeInput::Code(200),
            ResponseEntry::Item(json_response(Schema {
                description: None,
                nullable: false,
                shape: SchemaShape::Object {
                    required: vec![],
                    properties: vec![("id".to_string(), inline(plain_text()))],
                },
            })),
        ),
        (
            StatusCodeInput::Code(404),
            ResponseEntry::Item(json_response(plain_text())),
        ),
    ];
    Operation::discover(&mut ctx, "/v1/environments/{id}", HttpMethod::Get, &op).unwrap();
    let o = Operation::get(&ctx, "get_environment").unwrap();
    assert_eq!(o.response.as_deref(), Some("GetEnvironmentResponse"));
    assert!(Model::get(&ctx, "GetEnvironmentResponse").is_some());
    assert_eq!(Model::all(&ctx).len(), 1);
}

#[test]
fn status_ranges_are_ignored() {
    let mut ctx = Context::new();
    let mut op = empty_operation("probe");
    op.responses = vec![(
        StatusCodeInput::Range(2),
        ResponseEntry::Item(json_response(plain_text())),
    )];
    Operation::discover(&mut ctx, "/v1/probe", HttpMethod::Get, &op).unwrap();
    let o = Operation::get(&ctx, "probe").unwrap();
    assert!(o.response.is_none());
    assert!(Model::all(&ctx).is_empty());
}

#[test]
fn path_entry_walks_methods_in_fixed_order() {
    let mut ctx = Context::new();
    let entry = PathEntry::Item(PathItemInput {
        get: Some(empty_operation("list_environments")),
        put: None,
        post: Some(empty_operation("create_environment")),
        delete: None,
        options: None,
        head: None,
        patch: None,
        trace: None,
    });
    Operation::discover_all_from_path(&mut ctx, "/v1/environments", &entry).unwrap();
    assert_eq!(Operation::all(&ctx).len(), 2);
    let r = Resource::all(&ctx);
    assert_eq!(r.len(), 1);
    assert_eq!(r[0].path, "/v1/environments");
    assert_eq!(
        r[0].operations,
        vec!["list_environments".to_string(), "create_environment".to_string()]
    );
}

#[test]
fn referenced_path_entry_is_fatal() {
    let mut ctx = Context::new();
    let entry = PathEntry::Reference { reference: "#/paths/other".to_string() };
    let r = Operation::discover_all_from_path(&mut ctx, "/v1/environments", &entry);
    assert!(matches!(r, Err(Error::ReferenceNotImplemented { .. })));
}

#[test]
fn duplicate_operation_name_is_fatal() {
    let mut ctx = Context::new();
    Operation::discover(&mut ctx, "/v1/a", HttpMethod::Get, &empty_operation("same")).unwrap();
    let r = Operation::discover(&mut ctx, "/v1/b", HttpMethod::Get, &empty_operation("same"));
    assert!(matches!(r, Err(Error::DuplicateOperation { .. })));
}

#[test]
fn duplicate_operation_on_one_resource_is_fatal() {
    let mut ctx = Context::new();
    Resource::add_operation(&mut ctx, "/v1/environments", "get_environments").unwrap();
    Resource::add_operation(&mut ctx, "/v1/environments", "create_environment").unwrap();
    let r = Resource::add_operation(&mut ctx, "/v1/environments", "get_environments");
    assert!(matches!(r, Err(Error::DuplicateResourceOperation { .. })));
}

#[test]
fn duplicate_resource_path_is_fatal() {
    let mut ctx = Context::new();
    Resource::add(
        &mut ctx,
        Resource { path: "/v1/environments".to_string(), operations: vec![] },
    )
    .unwrap();
    let r = Resource::add(
        &mut ctx,
        Resource { path: "/v1/environments".to_string(), operations: vec![] },
    );
    assert!(matches!(r, Err(Error::DuplicateResource { .. })));
}

#[test]
fn string_parameter_resolves_to_text() {
    let mut ctx = Context::new();
    let data = ParameterData {
        name: "sort".to_string(),
        description: None,
        required: false,
        format: ParameterFormat::Schema(inline(plain_text())),
    };
    let p = Parameter::discover(&mut ctx, "ListSort", &data).unwrap();
    assert_eq!(p.ty_name, "ListSort");
    assert_eq!(p.original_name, "sort");
    assert!(matches!(p.ty, TypeRef::Text));
    assert_eq!(Parameter::all(&ctx).len(), 1);
}

#[test]
fn array_parameter_with_inline_enum_collapses_to_item_model() {
    let mut ctx = Context::new();
    let data = ParameterData {
        name: "filter".to_string(),
        description: None,
        required: false,
        format: ParameterFormat::Schema(inline(Schema {
            description: None,
            nullable: false,
            shape: SchemaShape::Array {
                items: Some(Box::new(inline(Schema {
                    description: None,
                    nullable: false,
                    shape: SchemaShape::Text {
                        enumeration: vec![Some("all".to_string()), Some("none".to_string())],
                    },
                }))),
            },
        })),
    };
    let p = Parameter::discover(&mut ctx, "GetEnvironmentsFilter", &data).unwrap();
    match &p.ty {
        TypeRef::Named(n) => assert_eq!(n, "GetEnvironmentsFilter"),
        _ => panic!("expected the synthesized item model's name"),
    }
    assert!(Model::get(&ctx, "GetEnvironmentsFilter").is_some());
}

#[test]
fn array_parameter_of_plain_strings_stays_a_list() {
    let mut ctx = Context::new();
    let data = ParameterData {
        name: "tags".to_string(),
        description: None,
        required: false,
        format: ParameterFormat::Schema(inline(Schema {
            description: None,
            nullable: false,
            shape: SchemaShape::Array {
                items: Some(Box::new(inline(plain_text()))),
            },
        })),
    };
    let p = Parameter::discover(&mut ctx, "ListTags", &data).unwrap();
    match &p.ty {
        TypeRef::List(e) => assert!(matches!(&**e, TypeRef::Text)),
        _ => panic!("expected a list type"),
    }
}

#[test]
fn content_parameter_is_fatal() {
    let mut ctx = Context::new();
    let data = ParameterData {
        name: "blob".to_string(),
        description: None,
        required: false,
        format: ParameterFormat::Content,
    };
    let r = Parameter::discover(&mut ctx, "Blob", &data);
    assert!(matches!(r, Err(Error::ParameterContent { .. })));
}

#[test]
fn duplicate_parameter_type_name_is_fatal() {
    let mut ctx = Context::new();
    let data = ParameterData {
        name: "page".to_string(),
        description: None,
        required: false,
        format: ParameterFormat::Schema(inline(plain_text())),
    };
    Parameter::discover(&mut ctx, "Page", &data).unwrap();
    let r = Parameter::discover(&mut ctx, "Page", &data);
    assert!(matches!(r, Err(Error::DuplicateParameter { .. })));
}

#[test]
fn parameter_schema_given_by_reference_is_fatal() {
    let mut ctx = Context::new();
    let data = ParameterData {
        name: "page".to_string(),
        description: None,
        required: false,
        format: ParameterFormat::Schema(SchemaRef::Reference {
            reference: "#/components/schemas/Page".to_string(),
        }),
    };
    let r = Parameter::discover(&mut ctx, "Page", &data);
    assert!(matches!(r, Err(Error::ParameterSchemaReference { .. })));
}

#[test]
fn request_body_given_by_reference_is_fatal() {
    let mut ctx = Context::new();
    let mut op = empty_operation("create_environment");
    op.request_body = Some(BodyEntry::Reference {
        reference: "#/components/requestBodies/Env".to_string(),
    });
    let r = Operation::discover(&mut ctx, "/v1/environments", HttpMethod::Post, &op);
    assert!(matches!(r, Err(Error::RequestBodyReference { .. })));
}

#[test]
fn success_response_without_json_content_is_fatal() {
    let mut ctx = Context::new();
    let mut op = empty_operation("get_environment");
    op.responses = vec![(
        StatusCodeInput::Code(200),
        ResponseEntry::Item(ResponseInput {
            content: vec![("text/plain".to_string(), MediaTypeInput { schema: None })],
        }),
    )];
    let r = Operation::discover(&mut ctx, "/v1/environments", HttpMethod::Get, &op);
    assert!(matches!(r, Err(Error::MissingResponseJson { .. })));
}

#[test]
fn json_content_without_schema_is_fatal() {
    let mut ctx = Context::new();
    let mut op = empty_operation("get_environment");
    op.responses = vec![(
        StatusCodeInput::Code(200),
        ResponseEntry::Item(ResponseInput {
            content: vec![("application/json".to_string(), MediaTypeInput { schema: None })],
        }),
    )];
    let r = Operation::discover(&mut ctx, "/v1/environments", HttpMethod::Get, &op);
    assert!(matches!(r, Err(Error::MissingContentSchema { .. })));
}

#[test]
fn keyword_parameter_name_is_escaped() {
    let mut ctx = Context::new();
    let data = ParameterData {
        name: "type".to_string(),
        description: None,
        required: true,
        format: ParameterFormat::Schema(inline(plain_text())),
    };
    let p = Parameter::discover(&mut ctx, "GetType", &data).unwrap();
    assert_eq!(p.name, "type");
    assert_eq!(p.safe_name, "r#type");
    assert_eq!(p.original_name, "type");
}
