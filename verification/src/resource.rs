//! A resource: the operations sharing one originating path literal.

use vstd::prelude::*;
use crate::client::replace_all;
use crate::client::spec_replace;
use crate::common::names_contain;
use crate::context::Context;
use crate::context::lemma_resource_index;
use crate::context::resource_index;
use crate::error::Error;
use crate::error::ErrorView;

verus! {

/// A grouping of operations by the literal path they were declared under.
pub struct Resource {
    pub path: String,
    pub operations: Vec<String>,
}

/// The mathematical image of a `Resource`.
pub struct ResourceView {
    pub path: Seq<char>,
    pub operations: Seq<Seq<char>>,
}

impl DeepView for Resource {
    type V = ResourceView;

    open spec fn deep_view(&self) -> ResourceView {
        ResourceView { path: self.path@, operations: self.operations.deep_view() }
    }
}

/// What appending an operation name to the resource of a path does: starts a
/// fresh resource when the path has none, refuses a name the resource already
/// holds, and appends it otherwise.
pub open spec fn spec_resource_add_operation(
    rs: Seq<ResourceView>,
    path: Seq<char>,
    op: Seq<char>,
) -> Result<Seq<ResourceView>, ErrorView> {
    let idx = resource_index(rs, path);
    if idx < 0 {
        Ok(rs.push(ResourceView { path: path, operations: seq![op] }))
    } else if rs[idx].operations.contains(op) {
        Err(ErrorView::DuplicateResourceOperation { operation: op, path: path })
    } else {
        Ok(
            rs.update(
                idx,
                ResourceView { path: rs[idx].path, operations: rs[idx].operations.push(op) },
            ),
        )
    }
}

pub proof fn lemma_resource_index_first(rs: Seq<ResourceView>, p: Seq<char>, i: int)
    requires
        0 <= i < rs.len(),
        rs[i].path == p,
        forall|k: int| 0 <= k < i ==> rs[k].path != p,
    ensures
        resource_index(rs, p) == i,
    decreases i,
{
    if i > 0 {
        assert(rs[0].path != p);
        assert(rs.drop_first()[i - 1].path == p);
        assert forall|k: int| 0 <= k < i - 1 implies rs.drop_first()[k].path != p by {
            assert(rs[k + 1].path != p);
        }
        lemma_resource_index_first(rs.drop_first(), p, i - 1);
    }
}

fn find_resource(rs: &Vec<Resource>, path: &str) -> (r: Option<usize>)
    ensures
        match r {
            Some(i) => i < rs.len() && resource_index(rs.deep_view(), path@) == i as int,
            None => resource_index(rs.deep_view(), path@) < 0,
        },
{
    let key = path.to_owned();
    let mut i: usize = 0;
    while i < rs.len()
        invariant
            0 <= i <= rs.len(),
            key@ == path@,
            forall|k: int| 0 <= k < i ==> rs.deep_view()[k].path != path@,
        decreases rs.len() - i,
    {
        if rs[i].path == key {
            proof {
                lemma_resource_index_first(rs.deep_view(), path@, i as int);
            }
            return Some(i);
        }
        i = i + 1;
    }
    proof {
        lemma_resource_index(rs.deep_view(), path@);
        if resource_index(rs.deep_view(), path@) >= 0 {
            assert(rs.deep_view()[resource_index(rs.deep_view(), path@)].path == path@);
        }
    }
    None
}

impl Resource {
    /// All resources, in the order their paths were first seen: a shared,
    /// read-only snapshot of the registry.
    pub fn all<'a>(ctx: &'a Context) -> (r: &'a Vec<Resource>)
        ensures
            r.deep_view() == ctx@.resources,
    {
        &ctx.resources
    }

    /// Registers a whole resource. Registering a second resource under an
    /// already-present path fails with the colliding path and leaves the
    /// registry unchanged.
    pub fn add(ctx: &mut Context, resource: Resource) -> (r: Result<(), Error>)
        requires
            old(ctx).wf(),
            forall|a: int, b: int|
                0 <= a < b < resource.deep_view().operations.len()
                    ==> resource.deep_view().operations[a] != resource.deep_view().operations[b],
        ensures
            final(ctx).wf(),
            final(ctx).models == old(ctx).models,
            final(ctx).parameters == old(ctx).parameters,
            final(ctx).operations == old(ctx).operations,
            match r {
                Ok(_) => resource_index(old(ctx)@.resources, resource.deep_view().path) < 0
                    && final(ctx)@.resources == old(ctx)@.resources.push(resource.deep_view()),
                Err(e) => resource_index(old(ctx)@.resources, resource.deep_view().path) >= 0
                    && e.deep_view() == (ErrorView::DuplicateResource {
                    path: resource.deep_view().path,
                }) && final(ctx).resources == old(ctx).resources,
            },
    {
        match find_resource(&ctx.resources, resource.path.as_str()) {
            Some(_) => Err(Error::DuplicateResource { path: resource.path.clone() }),
            None => {
                let ghost oldrs = ctx@.resources;
                let ghost rv = resource.deep_view();
                proof {
                    lemma_resource_index(oldrs, rv.path);
                }
                ctx.resources.push(resource);
                proof {
                    assert(ctx@.resources =~= oldrs.push(rv));
                    assert forall|a: int, b: int|
                        0 <= a < b < ctx@.resources.len() implies ctx@.resources[a].path
                        != ctx@.resources[b].path by {
                        if b < oldrs.len() {
                            assert(oldrs[a].path != oldrs[b].path);
                        } else {
                            assert(ctx@.resources[b] == rv);
                            assert(oldrs[a].path != rv.path);
                        }
                    }
                }
                Ok(())
            },
        }
    }

    /// The resource's path with every versioned segment marker removed.
    pub fn unversioned_path(&self) -> (r: String)
        ensures
            r@ == spec_replace(self.path@, "/v1/"@, ""@),
    {
        proof {
            reveal_strlit("/v1/");
        }
        replace_all(self.path.as_str(), "/v1/", "")
    }

    /// Appends an operation name to the resource of `path`, starting the
    /// resource when the path has none. Appending a name the resource
    /// already holds is an error, not silently ignored.
    pub fn add_operation(ctx: &mut Context, path: &str, operation: &str) -> (r: Result<(), Error>)
        requires
            old(ctx).wf(),
        ensures
            final(ctx).wf(),
            final(ctx).models == old(ctx).models,
            final(ctx).parameters == old(ctx).parameters,
            final(ctx).operations == old(ctx).operations,
            match r {
                Ok(_) => Ok::<Seq<ResourceView>, ErrorView>(final(ctx)@.resources)
                    == spec_resource_add_operation(old(ctx)@.resources, path@, operation@),
                Err(e) => Err::<Seq<ResourceView>, ErrorView>(e.deep_view())
                    == spec_resource_add_operation(old(ctx)@.resources, path@, operation@)
                    && final(ctx).resources == old(ctx).resources,
            },
    {
        match find_resource(&ctx.resources, path) {
            None => {
                let ghost oldrs = ctx@.resources;
                let mut ops: Vec<String> = Vec::new();
                ops.push(operation.to_owned());
                proof {
                    assert(ops.deep_view() =~= seq![operation@]);
                    lemma_resource_index(oldrs, path@);
                }
                ctx.resources.push(Resource { path: path.to_owned(), operations: ops });
                proof {
                    let rv = ResourceView { path: path@, operations: seq![operation@] };
                    assert(ctx@.resources =~= oldrs.push(rv));
                    assert forall|a: int, b: int|
                        0 <= a < b < ctx@.resources.len() implies ctx@.resources[a].path
                        != ctx@.resources[b].path by {
                        if b < oldrs.len() {
                            assert(oldrs[a].path != oldrs[b].path);
                        } else {
                            assert(ctx@.resources[b] == rv);
                            assert(oldrs[a].path != rv.path);
                        }
                    }
                }
                Ok(())
            },
            Some(i) => {
                if names_contain(&ctx.resources[i].operations, operation) {
                    Err(
                        Error::DuplicateResourceOperation {
                            operation: operation.to_owned(),
                            path: path.to_owned(),
                        },
                    )
                } else {
                    let ghost oldrs = ctx@.resources;
                    let elem = &mut ctx.resources[i];
                    elem.operations.push(operation.to_owned());
                    proof {
                        let updated = ResourceView {
                            path: oldrs[i as int].path,
                            operations: oldrs[i as int].operations.push(operation@),
                        };
                        assert(ctx@.resources[i as int].operations =~= updated.operations);
                        assert(ctx@.resources[i as int] == updated);
                        assert(ctx@.resources =~= oldrs.update(i as int, updated));
                        assert forall|a: int, b: int|
                            0 <= a < b < ctx@.resources.len() implies ctx@.resources[a].path
                            != ctx@.resources[b].path by {
                            assert(oldrs[a].path != oldrs[b].path);
                            assert(ctx@.resources[a].path == oldrs[a].path);
                            assert(ctx@.resources[b].path == oldrs[b].path);
                        }
                        assert forall|k: int, a: int, b: int|
                            0 <= k < ctx@.resources.len() && 0 <= a < b
                                < ctx@.resources[k].operations.len() implies ctx@.resources[k].operations[a]
                            != ctx@.resources[k].operations[b] by {
                            if k == i as int {
                                if b < oldrs[k].operations.len() {
                                    assert(oldrs[k].operations[a] != oldrs[k].operations[b]);
                                } else {
                                    assert(ctx@.resources[k].operations[b] == operation@);
                                    assert(!oldrs[k].operations.contains(operation@));
                                    assert(oldrs[k].operations[a] != operation@);
                                }
                            } else {
                                assert(oldrs[k].operations[a] != oldrs[k].operations[b]);
                            }
                        }
                    }
                    Ok(())
                }
            },
        }
    }
}

} // verus!
