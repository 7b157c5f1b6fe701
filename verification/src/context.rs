//! The resolution context: the four registries, owned by one value and
//! passed explicitly through the resolution pass. Registered names are
//! unique; a second registration under a present key is a fatal error, never
//! a silent overwrite.

use vstd::prelude::*;
use crate::model::Model;
use crate::model::ModelView;
use crate::operation::Operation;
use crate::operation::OperationView;
use crate::parameter::Parameter;
use crate::parameter::ParameterView;
use crate::resource::Resource;
use crate::resource::ResourceView;

verus! {

/// The shared state of one resolution run.
pub struct Context {
    pub models: Vec<Model>,
    pub parameters: Vec<Parameter>,
    pub operations: Vec<Operation>,
    pub resources: Vec<Resource>,
}

/// The mathematical image of a `Context`.
pub struct ContextView {
    pub models: Seq<ModelView>,
    pub parameters: Seq<ParameterView>,
    pub operations: Seq<OperationView>,
    pub resources: Seq<ResourceView>,
}

impl View for Context {
    type V = ContextView;

    open spec fn view(&self) -> ContextView {
        ContextView {
            models: self.models.deep_view(),
            parameters: self.parameters.deep_view(),
            operations: self.operations.deep_view(),
            resources: self.resources.deep_view(),
        }
    }
}

/// No two registered models share a name.
pub open spec fn model_names_unique(ms: Seq<ModelView>) -> bool {
    forall|i: int, j: int| 0 <= i < j < ms.len() ==> ms[i].name != ms[j].name
}

/// No two registered parameters share a type name.
pub open spec fn parameter_names_unique(ps: Seq<ParameterView>) -> bool {
    forall|i: int, j: int| 0 <= i < j < ps.len() ==> ps[i].ty_name != ps[j].ty_name
}

/// No two registered operations share a name.
pub open spec fn operation_names_unique(os: Seq<OperationView>) -> bool {
    forall|i: int, j: int| 0 <= i < j < os.len() ==> os[i].name != os[j].name
}

/// No two resources share a path, and no resource holds one operation name
/// twice.
pub open spec fn resources_wf(rs: Seq<ResourceView>) -> bool {
    &&& forall|i: int, j: int| 0 <= i < j < rs.len() ==> rs[i].path != rs[j].path
    &&& forall|i: int, a: int, b: int|
        0 <= i < rs.len() && 0 <= a < b < rs[i].operations.len() ==> rs[i].operations[a]
            != rs[i].operations[b]
}

pub open spec fn contains_model_name(ms: Seq<ModelView>, n: Seq<char>) -> bool {
    exists|i: int| 0 <= i < ms.len() && ms[i].name == n
}

pub open spec fn contains_parameter_name(ps: Seq<ParameterView>, n: Seq<char>) -> bool {
    exists|i: int| 0 <= i < ps.len() && ps[i].ty_name == n
}

pub open spec fn contains_operation_name(os: Seq<OperationView>, n: Seq<char>) -> bool {
    exists|i: int| 0 <= i < os.len() && os[i].name == n
}

/// The first registered model under `n`, scanning in registration order.
pub open spec fn lookup_model(ms: Seq<ModelView>, n: Seq<char>) -> Option<ModelView>
    decreases ms.len(),
{
    if ms.len() == 0 {
        Option::None
    } else if ms[0].name == n {
        Option::Some(ms[0])
    } else {
        lookup_model(ms.drop_first(), n)
    }
}

/// The first registered parameter under type name `n`.
pub open spec fn lookup_parameter(ps: Seq<ParameterView>, n: Seq<char>) -> Option<ParameterView>
    decreases ps.len(),
{
    if ps.len() == 0 {
        Option::None
    } else if ps[0].ty_name == n {
        Option::Some(ps[0])
    } else {
        lookup_parameter(ps.drop_first(), n)
    }
}

/// The first registered operation under `n`.
pub open spec fn lookup_operation(os: Seq<OperationView>, n: Seq<char>) -> Option<OperationView>
    decreases os.len(),
{
    if os.len() == 0 {
        Option::None
    } else if os[0].name == n {
        Option::Some(os[0])
    } else {
        lookup_operation(os.drop_first(), n)
    }
}

/// The index of the resource with path `p`, or `-1` when none has it.
pub open spec fn resource_index(rs: Seq<ResourceView>, p: Seq<char>) -> int
    decreases rs.len(),
{
    if rs.len() == 0 {
        -1
    } else if rs[0].path == p {
        0
    } else {
        let r = resource_index(rs.drop_first(), p);
        if r < 0 {
            -1
        } else {
            r + 1
        }
    }
}

pub proof fn lemma_lookup_model(ms: Seq<ModelView>, n: Seq<char>)
    ensures
        (lookup_model(ms, n) is Some) == contains_model_name(ms, n),
        contains_model_name(ms, n) ==> lookup_model(ms, n)->Some_0.name == n,
    decreases ms.len(),
{
    if ms.len() > 0 {
        lemma_lookup_model(ms.drop_first(), n);
        if ms[0].name != n {
            assert(contains_model_name(ms.drop_first(), n) ==> contains_model_name(ms, n)) by {
                if contains_model_name(ms.drop_first(), n) {
                    let i = choose|i: int|
                        0 <= i < ms.drop_first().len() && ms.drop_first()[i].name == n;
                    assert(ms[i + 1].name == n);
                }
            }
            if contains_model_name(ms, n) {
                let i = choose|i: int| 0 <= i < ms.len() && ms[i].name == n;
                assert(ms.drop_first()[i - 1].name == n);
            }
        }
    }
}

pub proof fn lemma_lookup_parameter(ps: Seq<ParameterView>, n: Seq<char>)
    ensures
        (lookup_parameter(ps, n) is Some) == contains_parameter_name(ps, n),
        contains_parameter_name(ps, n) ==> lookup_parameter(ps, n)->Some_0.ty_name == n,
    decreases ps.len(),
{
    if ps.len() > 0 {
        lemma_lookup_parameter(ps.drop_first(), n);
        if ps[0].ty_name != n {
            assert(contains_parameter_name(ps.drop_first(), n) ==> contains_parameter_name(
                ps,
                n,
            )) by {
                if contains_parameter_name(ps.drop_first(), n) {
                    let i = choose|i: int|
                        0 <= i < ps.drop_first().len() && ps.drop_first()[i].ty_name == n;
                    assert(ps[i + 1].ty_name == n);
                }
            }
            if contains_parameter_name(ps, n) {
                let i = choose|i: int| 0 <= i < ps.len() && ps[i].ty_name == n;
                assert(ps.drop_first()[i - 1].ty_name == n);
            }
        }
    }
}

pub proof fn lemma_resource_index(rs: Seq<ResourceView>, p: Seq<char>)
    ensures
        resource_index(rs, p) >= 0 ==> resource_index(rs, p) < rs.len() && rs[resource_index(
            rs,
            p,
        )].path == p,
        resource_index(rs, p) < 0 ==> forall|i: int| 0 <= i < rs.len() ==> rs[i].path != p,
    decreases rs.len(),
{
    if rs.len() > 0 && rs[0].path != p {
        lemma_resource_index(rs.drop_first(), p);
        let r = resource_index(rs.drop_first(), p);
        if r < 0 {
            assert forall|i: int| 0 <= i < rs.len() implies rs[i].path != p by {
                if i > 0 {
                    assert(rs.drop_first()[i - 1].path != p);
                }
            }
        }
    }
}

/// Uniqueness: in a well-formed context no two models share a name. Every
/// registering function requires and preserves well-formedness, and
/// registering a duplicate name fails rather than overwrites (the `add`
/// contracts), so this holds of every resolved description.
pub proof fn lemma_model_names_unique(ctx: Context)
    requires
        ctx.wf(),
    ensures
        forall|i: int, j: int|
            0 <= i < j < ctx@.models.len() ==> ctx@.models[i].name != ctx@.models[j].name,
{
}

impl Context {
    /// Whether every registry keeps its uniqueness invariant.
    pub open spec fn wf(self) -> bool {
        &&& model_names_unique(self@.models)
        &&& parameter_names_unique(self@.parameters)
        &&& operation_names_unique(self@.operations)
        &&& resources_wf(self@.resources)
    }

    /// A fresh, empty context: one per resolution run.
    pub fn new() -> (r: Context)
        ensures
            r@.models == Seq::<ModelView>::empty(),
            r@.parameters == Seq::<ParameterView>::empty(),
            r@.operations == Seq::<OperationView>::empty(),
            r@.resources == Seq::<ResourceView>::empty(),
            r.wf(),
    {
        let r = Context {
            models: Vec::new(),
            parameters: Vec::new(),
            operations: Vec::new(),
            resources: Vec::new(),
        };
        proof {
            assert(r@.models =~= Seq::<ModelView>::empty());
            assert(r@.parameters =~= Seq::<ParameterView>::empty());
            assert(r@.operations =~= Seq::<OperationView>::empty());
            assert(r@.resources =~= Seq::<ResourceView>::empty());
        }
        r
    }
}

} // verus!
