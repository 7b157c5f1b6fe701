//! An operation: one HTTP method bound to one path, with resolved
//! parameters and optional request/response models; and the input forms a
//! path entry declares them in.

use vstd::prelude::*;
use crate::context::Context;
use crate::context::ContextView;
use crate::context::contains_operation_name;
use crate::context::lookup_operation;
use crate::context::lookup_parameter;
use crate::error::Error;
use crate::error::ErrorView;
use crate::model::Model;
use crate::model::ModelView;
use crate::naming::snake_of;
use crate::naming::to_snake_case;
use crate::naming::to_upper_camel_case;
use crate::naming::upper_camel_of;
use crate::reference::ref_name;
use crate::reference::spec_ref_name;
use crate::resolution::spec_model_discover;
use crate::resource::Resource;
use crate::resource::spec_resource_add_operation;
use crate::parameter::Parameter;
use crate::parameter::spec_parameter_discover;
use crate::parameter::ParameterData;
use crate::parameter::ParameterDataView;
use crate::parameter::ParameterView;
use crate::parameter::parameter_data_view;
use crate::schema::RefView;
use crate::schema::SchemaRef;
use crate::schema::ref_view;

verus! {

/// The eight HTTP methods a path entry can declare, in their fixed
/// extraction order.
#[derive(Debug, Clone, Copy, PartialEq, Eq, Structural)]
pub enum HttpMethod {
    Get,
    Put,
    Post,
    Delete,
    Options,
    Head,
    Patch,
    Trace,
}

pub open spec fn spec_method_name(m: HttpMethod) -> Seq<char> {
    match m {
        HttpMethod::Get => "GET"@,
        HttpMethod::Put => "PUT"@,
        HttpMethod::Post => "POST"@,
        HttpMethod::Delete => "DELETE"@,
        HttpMethod::Options => "OPTIONS"@,
        HttpMethod::Head => "HEAD"@,
        HttpMethod::Patch => "PATCH"@,
        HttpMethod::Trace => "TRACE"@,
    }
}

impl HttpMethod {
    /// The wire spelling of the method.
    pub fn as_text(&self) -> (r: &'static str)
        ensures
            r@ == spec_method_name(*self),
    {
        match self {
            HttpMethod::Get => "GET",
            HttpMethod::Put => "PUT",
            HttpMethod::Post => "POST",
            HttpMethod::Delete => "DELETE",
            HttpMethod::Options => "OPTIONS",
            HttpMethod::Head => "HEAD",
            HttpMethod::Patch => "PATCH",
            HttpMethod::Trace => "TRACE",
        }
    }
}

/// One HTTP verb bound to one path, fully resolved. `request` and `response`
/// name registered models, when the declaration carries a JSON body or a
/// success-status JSON response.
pub struct Operation {
    pub name: String,
    pub path: String,
    pub method: HttpMethod,
    pub description: String,
    pub parameters: Vec<Parameter>,
    pub query: Vec<Parameter>,
    pub request: Option<String>,
    pub response: Option<String>,
}

/// The mathematical image of an `Operation`.
pub struct OperationView {
    pub name: Seq<char>,
    pub path: Seq<char>,
    pub method: HttpMethod,
    pub description: Seq<char>,
    pub parameters: Seq<ParameterView>,
    pub query: Seq<ParameterView>,
    pub request: Option<Seq<char>>,
    pub response: Option<Seq<char>>,
}

impl DeepView for Operation {
    type V = OperationView;

    open spec fn deep_view(&self) -> OperationView {
        OperationView {
            name: self.name@,
            path: self.path@,
            method: self.method,
            description: self.description@,
            parameters: self.parameters.deep_view(),
            query: self.query.deep_view(),
            request: self.request.deep_view(),
            response: self.response.deep_view(),
        }
    }
}

impl Operation {
    /// All registered operations, in registration order: a shared, read-only
    /// snapshot of the registry.
    pub fn all<'a>(ctx: &'a Context) -> (r: &'a Vec<Operation>)
        ensures
            r.deep_view() == ctx@.operations,
    {
        &ctx.operations
    }

    /// Registers an operation. Registering a second operation under an
    /// already-present name fails with the colliding name and leaves the
    /// registry unchanged.
    pub fn add(ctx: &mut Context, operation: Operation) -> (r: Result<(), Error>)
        requires
            old(ctx).wf(),
        ensures
            final(ctx).wf(),
            final(ctx).models == old(ctx).models,
            final(ctx).parameters == old(ctx).parameters,
            final(ctx).resources == old(ctx).resources,
            match r {
                Ok(_) => !contains_operation_name(old(ctx)@.operations, operation.deep_view().name)
                    && final(ctx)@.operations == old(ctx)@.operations.push(operation.deep_view()),
                Err(e) => contains_operation_name(old(ctx)@.operations, operation.deep_view().name)
                    && e.deep_view() == (ErrorView::DuplicateOperation {
                    name: operation.deep_view().name,
                }) && final(ctx).operations == old(ctx).operations,
            },
    {
        let mut i: usize = 0;
        while i < ctx.operations.len()
            invariant
                old(ctx).wf(),
                0 <= i <= ctx.operations.len(),
                ctx.models == old(ctx).models,
                ctx.parameters == old(ctx).parameters,
                ctx.operations == old(ctx).operations,
                ctx.resources == old(ctx).resources,
                forall|k: int|
                    0 <= k < i ==> ctx@.operations[k].name != operation.deep_view().name,
            decreases ctx.operations.len() - i,
        {
            if ctx.operations[i].name == operation.name {
                proof {
                    assert(ctx@.operations[i as int].name == operation.deep_view().name);
                }
                return Err(Error::DuplicateOperation { name: operation.name.clone() });
            }
            i = i + 1;
        }
        let ghost oldos = ctx@.operations;
        let ghost ov = operation.deep_view();
        ctx.operations.push(operation);
        proof {
            assert(ctx@.operations =~= oldos.push(ov));
            assert forall|a: int, b: int|
                0 <= a < b < ctx@.operations.len() implies ctx@.operations[a].name
                != ctx@.operations[b].name by {
                if b < oldos.len() {
                    assert(oldos[a].name != oldos[b].name);
                } else {
                    assert(ctx@.operations[b] == ov);
                    assert(oldos[a].name != ov.name);
                }
            }
        }
        Ok(())
    }

    /// The first operation registered under `name`, as a read-only reference.
    pub fn get<'a>(ctx: &'a Context, name: &str) -> (r: Option<&'a Operation>)
        ensures
            match r {
                Some(o) => lookup_operation(ctx@.operations, name@) == Some(o.deep_view()),
                None => lookup_operation(ctx@.operations, name@) is None,
            },
    {
        let key = name.to_owned();
        let mut i: usize = 0;
        proof {
            assert(ctx@.operations.skip(0) =~= ctx@.operations);
        }
        while i < ctx.operations.len()
            invariant
                0 <= i <= ctx.operations.len(),
                key@ == name@,
                lookup_operation(ctx@.operations, name@) == lookup_operation(
                    ctx@.operations.skip(i as int),
                    name@,
                ),
            decreases ctx.operations.len() - i,
        {
            if ctx.operations[i].name == key {
                proof {
                    assert(ctx@.operations.skip(i as int)[0] == ctx@.operations[i as int]);
                }
                return Some(&ctx.operations[i]);
            }
            proof {
                assert(ctx@.operations.skip(i as int)[0] == ctx@.operations[i as int]);
                assert(ctx@.operations.skip(i as int).drop_first() =~= ctx@.operations.skip(
                    i as int + 1,
                ));
            }
            i = i + 1;
        }
        proof {
            assert(ctx@.operations.skip(ctx.operations.len() as int)
                =~= Seq::<OperationView>::empty());
        }
        None
    }
}

/// Where a declared parameter binds.
#[derive(Debug, Clone, Copy, PartialEq, Eq, Structural)]
pub enum ParamLocation {
    Path,
    Query,
    Header,
    Cookie,
}

/// A parameter declaration with its binding site.
pub struct ParameterInput {
    pub location: ParamLocation,
    pub data: ParameterData,
}

/// A declared parameter: inline, or a reference to a shared one.
pub enum ParamEntry {
    Reference { reference: String },
    Item(ParameterInput),
}

/// One content entry's schema, when it declares one.
pub struct MediaTypeInput {
    pub schema: Option<SchemaRef>,
}

/// A declared request body: its content entries keyed by media type.
pub struct RequestBodyInput {
    pub content: Vec<(String, MediaTypeInput)>,
}

/// A request body given inline or by reference.
pub enum BodyEntry {
    Reference { reference: String },
    Item(RequestBodyInput),
}

/// A declared response: its content entries keyed by media type.
pub struct ResponseInput {
    pub content: Vec<(String, MediaTypeInput)>,
}

/// A response given inline or by reference.
pub enum ResponseEntry {
    Reference { reference: String },
    Item(ResponseInput),
}

/// A declared status: an exact code or a range; only the exact code 200 is
/// ever selected.
#[derive(Debug, Clone, Copy, PartialEq, Eq, Structural)]
pub enum StatusCodeInput {
    Code(u16),
    Range(u16),
}

/// One operation as a path entry declares it.
pub struct OperationInput {
    pub operation_id: Option<String>,
    pub description: Option<String>,
    pub parameters: Vec<ParamEntry>,
    pub request_body: Option<BodyEntry>,
    pub responses: Vec<(StatusCodeInput, ResponseEntry)>,
}

/// One path entry: the operations it declares, one per method.
pub struct PathItemInput {
    pub get: Option<OperationInput>,
    pub put: Option<OperationInput>,
    pub post: Option<OperationInput>,
    pub delete: Option<OperationInput>,
    pub options: Option<OperationInput>,
    pub head: Option<OperationInput>,
    pub patch: Option<OperationInput>,
    pub trace: Option<OperationInput>,
}

/// A path entry given inline or by reference.
pub enum PathEntry {
    Reference { reference: String },
    Item(PathItemInput),
}

/// The mathematical image of a `MediaTypeInput`.
pub struct MediaTypeView {
    pub schema: Option<RefView>,
}

pub open spec fn media_type_view(m: MediaTypeInput) -> MediaTypeView {
    MediaTypeView {
        schema: match m.schema {
            Option::None => Option::None,
            Option::Some(r) => Option::Some(ref_view(r)),
        },
    }
}

pub open spec fn content_view(c: Seq<(String, MediaTypeInput)>) -> Seq<(Seq<char>, MediaTypeView)> {
    Seq::new(c.len(), |i: int| (c[i].0@, media_type_view(c[i].1)))
}

/// The mathematical image of a `ParamEntry`.
pub enum ParamEntryView {
    Reference { reference: Seq<char> },
    Item { location: ParamLocation, data: ParameterDataView },
}

pub open spec fn param_entry_view(p: ParamEntry) -> ParamEntryView {
    match p {
        ParamEntry::Reference { reference } => ParamEntryView::Reference { reference: reference@ },
        ParamEntry::Item(pi) => ParamEntryView::Item {
            location: pi.location,
            data: parameter_data_view(pi.data),
        },
    }
}

/// The mathematical image of a `BodyEntry` or `ResponseEntry`: a reference,
/// or the inline content entries.
pub enum ContentEntryView {
    Reference { reference: Seq<char> },
    Item { content: Seq<(Seq<char>, MediaTypeView)> },
}

pub open spec fn body_entry_view(b: BodyEntry) -> ContentEntryView {
    match b {
        BodyEntry::Reference { reference } => ContentEntryView::Reference { reference: reference@ },
        BodyEntry::Item(rb) => ContentEntryView::Item { content: content_view(rb.content@) },
    }
}

pub open spec fn response_entry_view(b: ResponseEntry) -> ContentEntryView {
    match b {
        ResponseEntry::Reference { reference } => ContentEntryView::Reference {
            reference: reference@,
        },
        ResponseEntry::Item(rb) => ContentEntryView::Item { content: content_view(rb.content@) },
    }
}

/// The mathematical image of an `OperationInput`.
pub struct OperationInputView {
    pub operation_id: Option<Seq<char>>,
    pub description: Option<Seq<char>>,
    pub parameters: Seq<ParamEntryView>,
    pub request_body: Option<ContentEntryView>,
    pub responses: Seq<(StatusCodeInput, ContentEntryView)>,
}

pub open spec fn operation_input_view(o: OperationInput) -> OperationInputView {
    OperationInputView {
        operation_id: o.operation_id.deep_view(),
        description: o.description.deep_view(),
        parameters: Seq::new(o.parameters@.len(), |i: int| param_entry_view(o.parameters@[i])),
        request_body: match o.request_body {
            Option::None => Option::None,
            Option::Some(b) => Option::Some(body_entry_view(b)),
        },
        responses: Seq::new(
            o.responses@.len(),
            |i: int| (o.responses@[i].0, response_entry_view(o.responses@[i].1)),
        ),
    }
}

/// The mathematical image of a `PathItemInput`.
pub struct PathItemView {
    pub get: Option<OperationInputView>,
    pub put: Option<OperationInputView>,
    pub post: Option<OperationInputView>,
    pub delete: Option<OperationInputView>,
    pub options: Option<OperationInputView>,
    pub head: Option<OperationInputView>,
    pub patch: Option<OperationInputView>,
    pub trace: Option<OperationInputView>,
}

pub open spec fn opt_operation_input_view(o: Option<OperationInput>) -> Option<OperationInputView> {
    match o {
        Option::None => Option::None,
        Option::Some(v) => Option::Some(operation_input_view(v)),
    }
}

pub open spec fn path_item_view(p: PathItemInput) -> PathItemView {
    PathItemView {
        get: opt_operation_input_view(p.get),
        put: opt_operation_input_view(p.put),
        post: opt_operation_input_view(p.post),
        delete: opt_operation_input_view(p.delete),
        options: opt_operation_input_view(p.options),
        head: opt_operation_input_view(p.head),
        patch: opt_operation_input_view(p.patch),
        trace: opt_operation_input_view(p.trace),
    }
}

/// The mathematical image of a `PathEntry`.
pub enum PathEntryView {
    Reference { reference: Seq<char> },
    Item(PathItemView),
}

pub open spec fn path_entry_view(p: PathEntry) -> PathEntryView {
    match p {
        PathEntry::Reference { reference } => PathEntryView::Reference { reference: reference@ },
        PathEntry::Item(pi) => PathEntryView::Item(path_item_view(pi)),
    }
}

/// The first content entry declared for the JSON media type.
pub open spec fn spec_json_media(content: Seq<(Seq<char>, MediaTypeView)>) -> Option<MediaTypeView>
    decreases content.len(),
{
    if content.len() == 0 {
        Option::None
    } else if content[0].0 == "application/json"@ {
        Option::Some(content[0].1)
    } else {
        spec_json_media(content.drop_first())
    }
}

/// What resolving a body's content entries into a model named `model_name`
/// yields: the JSON entry is required (`missing` otherwise), must carry an
/// inline schema, and that schema is resolved as a model.
pub open spec fn spec_content_model(
    ms: Seq<ModelView>,
    model_name: Seq<char>,
    path: Seq<char>,
    content: Seq<(Seq<char>, MediaTypeView)>,
    missing: ErrorView,
) -> Result<(Seq<ModelView>, Seq<char>), ErrorView> {
    match spec_json_media(content) {
        Option::None => Err(missing),
        Option::Some(mt) => match mt.schema {
            Option::None => Err(ErrorView::MissingContentSchema { path: path }),
            Option::Some(RefView::Reference { reference }) => Err(
                ErrorView::ReferenceNotImplemented { reference: reference },
            ),
            Option::Some(RefView::Item(sub)) => match spec_model_discover(
                ms,
                model_name,
                *sub,
            ) {
                Ok(ms2) => Ok((ms2, model_name)),
                Err(e) => Err(e),
            },
        },
    }
}

/// What resolving the declared request body yields: nothing when none is
/// declared; otherwise the inline JSON schema resolved under the operation
/// name with a request suffix. A body given by reference is a fatal error.
pub open spec fn spec_request_resolve(
    ms: Seq<ModelView>,
    name: Seq<char>,
    path: Seq<char>,
    body: Option<ContentEntryView>,
) -> Result<(Seq<ModelView>, Option<Seq<char>>), ErrorView> {
    match body {
        Option::None => Ok((ms, Option::None)),
        Option::Some(ContentEntryView::Reference { .. }) => Err(
            ErrorView::RequestBodyReference { path: path },
        ),
        Option::Some(ContentEntryView::Item { content }) => {
            match spec_content_model(
                ms,
                upper_camel_of(name + "_request"@),
                path,
                content,
                ErrorView::MissingRequestJson { path: path },
            ) {
                Ok((ms2, mn)) => Ok((ms2, Option::Some(mn))),
                Err(e) => Err(e),
            }
        },
    }
}

/// Scanning the declared responses in order: only entries with the exact
/// status code 200 are resolved (ranges, defaults and every other code are
/// ignored by design), under the operation name with a response suffix.
pub open spec fn spec_responses_resolve(
    ms: Seq<ModelView>,
    name: Seq<char>,
    path: Seq<char>,
    responses: Seq<(StatusCodeInput, ContentEntryView)>,
    acc: Option<Seq<char>>,
) -> Result<(Seq<ModelView>, Option<Seq<char>>), ErrorView>
    decreases responses.len(),
{
    if responses.len() == 0 {
        Ok((ms, acc))
    } else if responses[0].0 != (StatusCodeInput::Code(200)) {
        spec_responses_resolve(ms, name, path, responses.drop_first(), acc)
    } else {
        match responses[0].1 {
            ContentEntryView::Reference { reference } => Err(
                ErrorView::ReferenceNotImplemented { reference: reference },
            ),
            ContentEntryView::Item { content } => match spec_content_model(
                ms,
                upper_camel_of(name + "_response"@),
                path,
                content,
                ErrorView::MissingResponseJson { path: path },
            ) {
                Ok((ms2, mn)) => spec_responses_resolve(
                    ms2,
                    name,
                    path,
                    responses.drop_first(),
                    Option::Some(mn),
                ),
                Err(e) => Err(e),
            },
        }
    }
}

/// Partitioning the declared parameters in order: a reference entry resolves
/// through the shared-parameter registry and binds to the query; an inline
/// entry is resolved under `{operation}_{parameter}` and binds to its
/// declared site; any other binding site is a fatal error.
pub open spec fn spec_params_resolve(
    ms: Seq<ModelView>,
    ps: Seq<ParameterView>,
    opname: Seq<char>,
    entries: Seq<ParamEntryView>,
    path_acc: Seq<ParameterView>,
    query_acc: Seq<ParameterView>,
) -> Result<
    (Seq<ModelView>, Seq<ParameterView>, Seq<ParameterView>, Seq<ParameterView>),
    ErrorView,
>
    decreases entries.len(),
{
    if entries.len() == 0 {
        Ok((ms, ps, path_acc, query_acc))
    } else {
        match entries[0] {
            ParamEntryView::Reference { reference } => match spec_ref_name(reference) {
                Ok(rn) => match lookup_parameter(ps, rn) {
                    Option::Some(p) => spec_params_resolve(
                        ms,
                        ps,
                        opname,
                        entries.drop_first(),
                        path_acc,
                        query_acc.push(p),
                    ),
                    Option::None => Err(ErrorView::UnresolvedParameter { reference: reference }),
                },
                Err(e) => Err(e),
            },
            ParamEntryView::Item { location, data } => match location {
                ParamLocation::Path => {
                    match spec_parameter_discover(
                        ms,
                        ps,
                        upper_camel_of(opname + "_"@ + data.name),
                        data,
                    ) {
                        Ok((ms2, ps2, p)) => spec_params_resolve(
                            ms2,
                            ps2,
                            opname,
                            entries.drop_first(),
                            path_acc.push(p),
                            query_acc,
                        ),
                        Err(e) => Err(e),
                    }
                },
                ParamLocation::Query => {
                    match spec_parameter_discover(
                        ms,
                        ps,
                        upper_camel_of(opname + "_"@ + data.name),
                        data,
                    ) {
                        Ok((ms2, ps2, p)) => spec_params_resolve(
                            ms2,
                            ps2,
                            opname,
                            entries.drop_first(),
                            path_acc,
                            query_acc.push(p),
                        ),
                        Err(e) => Err(e),
                    }
                },
                _ => Err(ErrorView::UnsupportedParameter { name: data.name }),
            },
        }
    }
}

/// What extracting one declared operation does to the whole context: its
/// identifier is mandatory; its parameters are partitioned and resolved; its
/// request body and its 200-status JSON response, when declared, are
/// resolved into models; the operation is registered and appended to the
/// resource of its path.
pub open spec fn spec_operation_discover(
    cx: ContextView,
    path: Seq<char>,
    method: HttpMethod,
    op: OperationInputView,
) -> Result<ContextView, ErrorView> {
    match op.operation_id {
        Option::None => Err(ErrorView::MissingOperationId { path: path }),
        Option::Some(oid) => {
            let name = snake_of(oid);
            match spec_params_resolve(
                cx.models,
                cx.parameters,
                name,
                op.parameters,
                Seq::empty(),
                Seq::empty(),
            ) {
                Err(e) => Err(e),
                Ok((ms1, ps1, path_params, query_params)) => {
                    match spec_request_resolve(ms1, name, path, op.request_body) {
                        Err(e) => Err(e),
                        Ok((ms2, request)) => {
                            match spec_responses_resolve(
                                ms2,
                                name,
                                path,
                                op.responses,
                                Option::None,
                            ) {
                                Err(e) => Err(e),
                                Ok((ms3, response)) => {
                                    let o = OperationView {
                                        name: name,
                                        path: path,
                                        method: method,
                                        description: match op.description {
                                            Option::Some(d) => d,
                                            Option::None => Seq::empty(),
                                        },
                                        parameters: path_params,
                                        query: query_params,
                                        request: request,
                                        response: response,
                                    };
                                    if contains_operation_name(cx.operations, name) {
                                        Err(ErrorView::DuplicateOperation { name: name })
                                    } else {
                                        match spec_resource_add_operation(
                                            cx.resources,
                                            path,
                                            name,
                                        ) {
                                            Ok(rs2) => Ok(
                                                ContextView {
                                                    models: ms3,
                                                    parameters: ps1,
                                                    operations: cx.operations.push(o),
                                                    resources: rs2,
                                                },
                                            ),
                                            Err(e) => Err(e),
                                        }
                                    }
                                },
                            }
                        },
                    }
                },
            }
        },
    }
}

/// Determinism of operation extraction: the outcome — the whole context
/// produced, or the error — is a function of the starting context, path,
/// method and declaration alone, so extracting the same input twice yields
/// identical operation, parameter and resource sets. The executable
/// assembler's contract pins its result to this function.
pub proof fn lemma_operation_discover_deterministic(
    cx1: ContextView,
    cx2: ContextView,
    path1: Seq<char>,
    path2: Seq<char>,
    m1: HttpMethod,
    m2: HttpMethod,
    o1: OperationInputView,
    o2: OperationInputView,
)
    requires
        cx1 == cx2,
        path1 == path2,
        m1 == m2,
        o1 == o2,
    ensures
        spec_operation_discover(cx1, path1, m1, o1) == spec_operation_discover(cx2, path2, m2, o2),
{
}

/// One step of walking a path entry's methods: a declared operation is
/// extracted, an undeclared one is skipped, and an earlier failure is kept.
pub open spec fn spec_method_step(
    cx: Result<ContextView, ErrorView>,
    path: Seq<char>,
    m: HttpMethod,
    o: Option<OperationInputView>,
) -> Result<ContextView, ErrorView> {
    match cx {
        Err(e) => Err(e),
        Ok(c) => match o {
            Option::None => Ok(c),
            Option::Some(op) => spec_operation_discover(c, path, m, op),
        },
    }
}

/// What extracting every declared operation of a path entry does, in the
/// fixed method order GET, PUT, POST, DELETE, OPTIONS, HEAD, PATCH, TRACE.
/// A path entry given by reference is a fatal error.
pub open spec fn spec_path_discover(
    cx: ContextView,
    path: Seq<char>,
    entry: PathEntryView,
) -> Result<ContextView, ErrorView> {
    match entry {
        PathEntryView::Reference { reference } => Err(
            ErrorView::ReferenceNotImplemented { reference: reference },
        ),
        PathEntryView::Item(pi) => {
            let c1 = spec_method_step(Ok(cx), path, HttpMethod::Get, pi.get);
            let c2 = spec_method_step(c1, path, HttpMethod::Put, pi.put);
            let c3 = spec_method_step(c2, path, HttpMethod::Post, pi.post);
            let c4 = spec_method_step(c3, path, HttpMethod::Delete, pi.delete);
            let c5 = spec_method_step(c4, path, HttpMethod::Options, pi.options);
            let c6 = spec_method_step(c5, path, HttpMethod::Head, pi.head);
            let c7 = spec_method_step(c6, path, HttpMethod::Patch, pi.patch);
            spec_method_step(c7, path, HttpMethod::Trace, pi.trace)
        },
    }
}

/// The first content entry for the JSON media type, executable form.
fn find_json<'a>(content: &'a Vec<(String, MediaTypeInput)>) -> (r: Option<&'a MediaTypeInput>)
    ensures
        match r {
            Some(m) => spec_json_media(content_view(content@)) == Some(media_type_view(*m)),
            None => spec_json_media(content_view(content@)) is None,
        },
{
    let key = "application/json".to_owned();
    let mut i: usize = 0;
    proof {
        assert(content_view(content@).skip(0) =~= content_view(content@));
    }
    while i < content.len()
        invariant
            0 <= i <= content.len(),
            key@ == "application/json"@,
            spec_json_media(content_view(content@)) == spec_json_media(
                content_view(content@).skip(i as int),
            ),
        decreases content.len() - i,
    {
        if content[i].0 == key {
            proof {
                assert(content_view(content@).skip(i as int)[0] == content_view(content@)[
                    i as int]);
            }
            return Some(&content[i].1);
        }
        proof {
            assert(content_view(content@).skip(i as int)[0] == content_view(content@)[i as int]);
            assert(content_view(content@).skip(i as int).drop_first() =~= content_view(
                content@,
            ).skip(i as int + 1));
        }
        i = i + 1;
    }
    proof {
        assert(content_view(content@).skip(content@.len() as int) =~= Seq::<
            (Seq<char>, MediaTypeView),
        >::empty());
    }
    None
}

impl Operation {
    /// Extracts one declared operation: requires its identifier, partitions
    /// and resolves its parameters, resolves its JSON request body and its
    /// 200-status JSON response into models, registers the operation, and
    /// appends it to the resource of `path`.
    #[verifier::loop_isolation(false)]
    pub fn discover(ctx: &mut Context, path: &str, method: HttpMethod, schema: &OperationInput) -> (r:
        Result<(), Error>)
        requires
            old(ctx).wf(),
        ensures
            final(ctx).wf(),
            match r {
                Ok(_) => spec_operation_discover(
                    old(ctx)@,
                    path@,
                    method,
                    operation_input_view(*schema),
                ) == Ok::<ContextView, ErrorView>(final(ctx)@),
                Err(e) => spec_operation_discover(
                    old(ctx)@,
                    path@,
                    method,
                    operation_input_view(*schema),
                ) == Err::<ContextView, _>(e.deep_view()),
            },
    {
        let ghost opv = operation_input_view(*schema);
        let name = match &schema.operation_id {
            Option::None => {
                return Err(Error::MissingOperationId { path: path.to_owned() });
            },
            Option::Some(oid) => to_snake_case(oid.as_str()),
        };
        let mut path_params: Vec<Parameter> = Vec::new();
        let mut query_params: Vec<Parameter> = Vec::new();
        let mut i: usize = 0;
        proof {
            assert(opv.parameters.skip(0) =~= opv.parameters);
            assert(path_params.deep_view() =~= Seq::<ParameterView>::empty());
            assert(query_params.deep_view() =~= Seq::<ParameterView>::empty());
        }
        while i < schema.parameters.len()
            invariant
                0 <= i <= schema.parameters.len(),
                ctx.wf(),
                ctx.operations == old(ctx).operations,
                ctx.resources == old(ctx).resources,
                spec_params_resolve(
                    old(ctx)@.models,
                    old(ctx)@.parameters,
                    name@,
                    opv.parameters,
                    Seq::empty(),
                    Seq::empty(),
                ) == spec_params_resolve(
                    ctx@.models,
                    ctx@.parameters,
                    name@,
                    opv.parameters.skip(i as int),
                    path_params.deep_view(),
                    query_params.deep_view(),
                ),
            decreases schema.parameters.len() - i,
        {
            proof {
                assert(opv.parameters.skip(i as int)[0] == opv.parameters[i as int]);
                assert(opv.parameters.skip(i as int).drop_first() =~= opv.parameters.skip(
                    i as int + 1,
                ));
            }
            match &schema.parameters[i] {
                ParamEntry::Reference { reference } => {
                    match ref_name(reference.as_str()) {
                        Ok(rn) => {
                            let found = Parameter::get(ctx, rn.as_str());
                            match found {
                                Option::Some(p) => {
                                    proof {
                                        crate::context::lemma_lookup_parameter(
                                            ctx@.parameters,
                                            rn@,
                                        );
                                    }
                                    let d = p.duplicate();
                                    let ghost before = query_params.deep_view();
                                    let ghost dv = d.deep_view();
                                    query_params.push(d);
                                    proof {
                                        assert(query_params.deep_view() =~= before.push(dv));
                                    }
                                },
                                Option::None => {
                                    proof {
                                        crate::context::lemma_lookup_parameter(
                                            ctx@.parameters,
                                            rn@,
                                        );
                                    }
                                    return Err(
                                        Error::UnresolvedParameter {
                                            reference: reference.clone(),
                                        },
                                    );
                                },
                            }
                        },
                        Err(e) => {
                            return Err(e);
                        },
                    }
                },
                ParamEntry::Item(pi) => {
                    match pi.location {
                        ParamLocation::Path => {
                            let tn = to_upper_camel_case(
                                name.clone().concat("_").concat(pi.data.name.as_str()).as_str(),
                            );
                            match Parameter::discover(ctx, tn.as_str(), &pi.data) {
                                Ok(p) => {
                                    let ghost before = path_params.deep_view();
                                    let ghost pv = p.deep_view();
                                    path_params.push(p);
                                    proof {
                                        assert(path_params.deep_view() =~= before.push(pv));
                                    }
                                },
                                Err(e) => {
                                    return Err(e);
                                },
                            }
                        },
                        ParamLocation::Query => {
                            let tn = to_upper_camel_case(
                                name.clone().concat("_").concat(pi.data.name.as_str()).as_str(),
                            );
                            match Parameter::discover(ctx, tn.as_str(), &pi.data) {
                                Ok(p) => {
                                    let ghost before = query_params.deep_view();
                                    let ghost pv = p.deep_view();
                                    query_params.push(p);
                                    proof {
                                        assert(query_params.deep_view() =~= before.push(pv));
                                    }
                                },
                                Err(e) => {
                                    return Err(e);
                                },
                            }
                        },
                        _ => {
                            return Err(
                                Error::UnsupportedParameter { name: pi.data.name.clone() },
                            );
                        },
                    }
                },
            }
            i = i + 1;
        }
        proof {
            assert(opv.parameters.skip(opv.parameters.len() as int)
                =~= Seq::<ParamEntryView>::empty());
        }
        let ghost ms1 = ctx@.models;
        let ghost ps1 = ctx@.parameters;
        let mut request: Option<String> = Option::None;
        match &schema.request_body {
            Option::None => {},
            Option::Some(BodyEntry::Reference { .. }) => {
                return Err(Error::RequestBodyReference { path: path.to_owned() });
            },
            Option::Some(BodyEntry::Item(rb)) => {
                match find_json(&rb.content) {
                    Option::None => {
                        return Err(Error::MissingRequestJson { path: path.to_owned() });
                    },
                    Option::Some(mt) => {
                        match &mt.schema {
                            Option::None => {
                                return Err(
                                    Error::MissingContentSchema { path: path.to_owned() },
                                );
                            },
                            Option::Some(SchemaRef::Reference { reference }) => {
                                return Err(
                                    Error::ReferenceNotImplemented {
                                        reference: reference.clone(),
                                    },
                                );
                            },
                            Option::Some(SchemaRef::Item(sub)) => {
                                let rq = to_upper_camel_case(
                                    name.clone().concat("_request").as_str(),
                                );
                                match Model::discover(ctx, rq.as_str(), sub) {
                                    Ok(_) => {
                                        request = Option::Some(rq);
                                    },
                                    Err(e) => {
                                        return Err(e);
                                    },
                                }
                            },
                        }
                    },
                }
            },
        }
        proof {
            assert(spec_request_resolve(ms1, name@, path@, opv.request_body) == Ok::<
                _,
                ErrorView,
            >((ctx@.models, request.deep_view())));
        }
        let ghost ms2 = ctx@.models;
        let mut response: Option<String> = Option::None;
        let mut j: usize = 0;
        proof {
            assert(opv.responses.skip(0) =~= opv.responses);
        }
        while j < schema.responses.len()
            invariant
                0 <= j <= schema.responses.len(),
                ctx.wf(),
                ctx.operations == old(ctx).operations,
                ctx.resources == old(ctx).resources,
                ctx@.parameters == ps1,
                spec_responses_resolve(ms2, name@, path@, opv.responses, Option::None)
                    == spec_responses_resolve(
                    ctx@.models,
                    name@,
                    path@,
                    opv.responses.skip(j as int),
                    response.deep_view(),
                ),
            decreases schema.responses.len() - j,
        {
            proof {
                assert(opv.responses.skip(j as int)[0] == opv.responses[j as int]);
                assert(opv.responses.skip(j as int).drop_first() =~= opv.responses.skip(
                    j as int + 1,
                ));
            }
            let status_is_200 = match &schema.responses[j].0 {
                StatusCodeInput::Code(c) => *c == 200,
                _ => false,
            };
            if status_is_200 {
                match &schema.responses[j].1 {
                    ResponseEntry::Reference { reference } => {
                        return Err(
                            Error::ReferenceNotImplemented { reference: reference.clone() },
                        );
                    },
                    ResponseEntry::Item(resp) => {
                        match find_json(&resp.content) {
                            Option::None => {
                                return Err(
                                    Error::MissingResponseJson { path: path.to_owned() },
                                );
                            },
                            Option::Some(mt) => {
                                match &mt.schema {
                                    Option::None => {
                                        return Err(
                                            Error::MissingContentSchema {
                                                path: path.to_owned(),
                                            },
                                        );
                                    },
                                    Option::Some(SchemaRef::Reference { reference }) => {
                                        return Err(
                                            Error::ReferenceNotImplemented {
                                                reference: reference.clone(),
                                            },
                                        );
                                    },
                                    Option::Some(SchemaRef::Item(sub)) => {
                                        let rs = to_upper_camel_case(
                                            name.clone().concat("_response").as_str(),
                                        );
                                        match Model::discover(ctx, rs.as_str(), sub) {
                                            Ok(_) => {
                                                response = Option::Some(rs);
                                            },
                                            Err(e) => {
                                                return Err(e);
                                            },
                                        }
                                    },
                                }
                            },
                        }
                    },
                }
            }
            j = j + 1;
        }
        proof {
            assert(opv.responses.skip(opv.responses.len() as int) =~= Seq::<
                (StatusCodeInput, ContentEntryView),
            >::empty());
        }
        let ghost ms3 = ctx@.models;
        let description = match &schema.description {
            Option::Some(d) => d.clone(),
            Option::None => String::new(),
        };
        let op = Operation {
            name: name.clone(),
            path: path.to_owned(),
            method,
            description,
            parameters: path_params,
            query: query_params,
            request,
            response,
        };
        let ghost ov = op.deep_view();
        match Operation::add(ctx, op) {
            Ok(_) => {},
            Err(e) => {
                return Err(e);
            },
        }
        match Resource::add_operation(ctx, path, name.as_str()) {
            Ok(_) => {
                proof {
                    assert(ctx@ == (ContextView {
                        models: ms3,
                        parameters: ps1,
                        operations: old(ctx)@.operations.push(ov),
                        resources: ctx@.resources,
                    }));
                }
                Ok(())
            },
            Err(e) => Err(e),
        }
    }

    /// Extracts every operation a path entry declares, one per declared
    /// method, in the fixed order GET, PUT, POST, DELETE, OPTIONS, HEAD,
    /// PATCH, TRACE. A path entry given by reference is a fatal error.
    #[verifier::rlimit(60)]
    pub fn discover_all_from_path(ctx: &mut Context, path: &str, schema: &PathEntry) -> (r: Result<
        (),
        Error,
    >)
        requires
            old(ctx).wf(),
        ensures
            final(ctx).wf(),
            match r {
                Ok(_) => spec_path_discover(old(ctx)@, path@, path_entry_view(*schema))
                    == Ok::<ContextView, ErrorView>(final(ctx)@),
                Err(e) => spec_path_discover(old(ctx)@, path@, path_entry_view(*schema))
                    == Err::<ContextView, _>(e.deep_view()),
            },
    {
        match schema {
            PathEntry::Reference { reference } => Err(
                Error::ReferenceNotImplemented { reference: reference.clone() },
            ),
            PathEntry::Item(item) => {
                let ghost piv = path_item_view(*item);
                let ghost mut acc: Result<ContextView, ErrorView> = Ok(old(ctx)@);
                if let Option::Some(op) = &item.get {
                    match Operation::discover(ctx, path, HttpMethod::Get, op) {
                        Ok(_) => {},
                        Err(e) => {
                            return Err(e);
                        },
                    }
                }
                proof {
                    acc = spec_method_step(acc, path@, HttpMethod::Get, piv.get);
                    assert(acc == Ok::<ContextView, ErrorView>(ctx@));
                }
                if let Option::Some(op) = &item.put {
                    match Operation::discover(ctx, path, HttpMethod::Put, op) {
                        Ok(_) => {},
                        Err(e) => {
                            return Err(e);
                        },
                    }
                }
                proof {
                    acc = spec_method_step(acc, path@, HttpMethod::Put, piv.put);
                    assert(acc == Ok::<ContextView, ErrorView>(ctx@));
                }
                if let Option::Some(op) = &item.post {
                    match Operation::discover(ctx, path, HttpMethod::Post, op) {
                        Ok(_) => {},
                        Err(e) => {
                            return Err(e);
                        },
                    }
                }
                proof {
                    acc = spec_method_step(acc, path@, HttpMethod::Post, piv.post);
                    assert(acc == Ok::<ContextView, ErrorView>(ctx@));
                }
                if let Option::Some(op) = &item.delete {
                    match Operation::discover(ctx, path, HttpMethod::Delete, op) {
                        Ok(_) => {},
                        Err(e) => {
                            return Err(e);
                        },
                    }
                }
                proof {
                    acc = spec_method_step(acc, path@, HttpMethod::Delete, piv.delete);
                    assert(acc == Ok::<ContextView, ErrorView>(ctx@));
                }
                if let Option::Some(op) = &item.options {
                    match Operation::discover(ctx, path, HttpMethod::Options, op) {
                        Ok(_) => {},
                        Err(e) => {
                            return Err(e);
                        },
                    }
                }
                proof {
                    acc = spec_method_step(acc, path@, HttpMethod::Options, piv.options);
                    assert(acc == Ok::<ContextView, ErrorView>(ctx@));
                }
                if let Option::Some(op) = &item.head {
                    match Operation::discover(ctx, path, HttpMethod::Head, op) {
                        Ok(_) => {},
                        Err(e) => {
                            return Err(e);
                        },
                    }
                }
                proof {
                    acc = spec_method_step(acc, path@, HttpMethod::Head, piv.head);
                    assert(acc == Ok::<ContextView, ErrorView>(ctx@));
                }
                if let Option::Some(op) = &item.patch {
                    match Operation::discover(ctx, path, HttpMethod::Patch, op) {
                        Ok(_) => {},
                        Err(e) => {
                            return Err(e);
                        },
                    }
                }
                proof {
                    acc = spec_method_step(acc, path@, HttpMethod::Patch, piv.patch);
                    assert(acc == Ok::<ContextView, ErrorView>(ctx@));
                }
                if let Option::Some(op) = &item.trace {
                    match Operation::discover(ctx, path, HttpMethod::Trace, op) {
                        Ok(_) => {},
                        Err(e) => {
                            return Err(e);
                        },
                    }
                }
                proof {
                    acc = spec_method_step(acc, path@, HttpMethod::Trace, piv.trace);
                    assert(acc == Ok::<ContextView, ErrorView>(ctx@));
                }
                Ok(())
            },
        }
    }
}

} // verus!
