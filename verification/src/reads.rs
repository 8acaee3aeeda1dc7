//! Tree reads: assembling a workspace tree from the tables, filtered by the
//! trash index.
//!
//! Every read takes the store by shared reference and is a pure function of
//! the store snapshot and the trash set: a read therefore observes one
//! consistent snapshot, never a mixture of a half-applied merge (the merge
//! holds the store exclusively while it runs).

use vstd::prelude::*;

use crate::entities::{AppNode, AppNodeModel, AppRow, ViewRow, WorkspaceNode, WorkspaceNodeModel,
    WorkspaceRow};
use crate::errors::FolderError;
use crate::keyed::{key_at, key_contains};
use crate::store::{Store, StoreModel};
use crate::trash::TrashIndex;

verus! {

broadcast use vstd::prelude::Seq::lemma_filter_push;

/// The views of app `app_id` that a reader may see: linked to the app, not
/// trashed, in table (display) order.
pub open spec fn filter_views(views: Seq<ViewRow>, trash: Set<u64>, app_id: u64) -> Seq<ViewRow> {
    views.filter(|v: ViewRow| v.belong_to_id == app_id && !trash.contains(v.id))
}

/// The apps of workspace `ws_id` that a reader may see.
pub open spec fn filter_apps(apps: Seq<AppRow>, trash: Set<u64>, ws_id: u64) -> Seq<AppRow> {
    apps.filter(|a: AppRow| a.workspace_id == ws_id && !trash.contains(a.id))
}

/// Whether workspace `w` is visible to `owner` under `filter` (`None` lists
/// all of the owner's workspaces, `Some(id)` narrows to one).
pub open spec fn workspace_visible(
    w: WorkspaceRow,
    trash: Set<u64>,
    owner: u64,
    filter: Option<u64>,
) -> bool {
    w.owner_id == owner && !trash.contains(w.id) && (filter is None || filter == Some(w.id))
}

/// The workspaces a reader may see, in table order.
pub open spec fn filter_workspaces(
    workspaces: Seq<WorkspaceRow>,
    trash: Set<u64>,
    owner: u64,
    filter: Option<u64>,
) -> Seq<WorkspaceRow> {
    workspaces.filter(|w: WorkspaceRow| workspace_visible(w, trash, owner, filter))
}

/// How one more table row changes the visible-app list.
pub proof fn lemma_filter_apps_push(s: Seq<AppRow>, x: AppRow, trash: Set<u64>, ws_id: u64)
    ensures
        filter_apps(s.push(x), trash, ws_id) == if x.workspace_id == ws_id && !trash.contains(
            x.id,
        ) {
            filter_apps(s, trash, ws_id).push(x)
        } else {
            filter_apps(s, trash, ws_id)
        },
{
    reveal(Seq::filter);
    assert(s.push(x).drop_last() =~= s);
    assert(s.push(x).last() == x);
}

/// How one more table row changes the visible-workspace list.
pub proof fn lemma_filter_workspaces_push(
    s: Seq<WorkspaceRow>,
    x: WorkspaceRow,
    trash: Set<u64>,
    owner: u64,
    filter: Option<u64>,
)
    ensures
        filter_workspaces(s.push(x), trash, owner, filter) == if workspace_visible(
            x,
            trash,
            owner,
            filter,
        ) {
            filter_workspaces(s, trash, owner, filter).push(x)
        } else {
            filter_workspaces(s, trash, owner, filter)
        },
{
    reveal(Seq::filter);
    assert(s.push(x).drop_last() =~= s);
    assert(s.push(x).last() == x);
}

/// The assembled subtree of one app: the app row and its visible views.
pub open spec fn app_node_spec(views: Seq<ViewRow>, trash: Set<u64>, app: AppRow) -> AppNodeModel {
    AppNodeModel { app, views: filter_views(views, trash, app.id) }
}

/// The assembled subtrees of the visible apps of one workspace.
pub open spec fn app_nodes_spec(
    apps: Seq<AppRow>,
    views: Seq<ViewRow>,
    trash: Set<u64>,
    ws_id: u64,
) -> Seq<AppNodeModel> {
    filter_apps(apps, trash, ws_id).map_values(|a: AppRow| app_node_spec(views, trash, a))
}

/// The assembled tree of one workspace row.
pub open spec fn workspace_node_spec(m: StoreModel, trash: Set<u64>, w: WorkspaceRow)
    -> WorkspaceNodeModel {
    WorkspaceNodeModel { workspace: w, apps: app_nodes_spec(m.apps, m.views, trash, w.id) }
}

/// What a list read returns: every visible workspace of `owner`, assembled,
/// in table order.
pub open spec fn read_workspaces_spec(
    m: StoreModel,
    trash: Set<u64>,
    owner: u64,
    filter: Option<u64>,
) -> Seq<WorkspaceNodeModel> {
    filter_workspaces(m.workspaces, trash, owner, filter).map_values(
        |w: WorkspaceRow| workspace_node_spec(m, trash, w),
    )
}

/// What a single-workspace read returns: the assembled tree when a matching,
/// non-trashed workspace of `owner` is stored under `id`, nothing otherwise.
pub open spec fn read_workspace_spec(m: StoreModel, trash: Set<u64>, owner: u64, id: u64)
    -> Option<WorkspaceNodeModel> {
    if key_contains(m.workspaces, id) && workspace_visible(
        key_at(m.workspaces, id),
        trash,
        owner,
        None,
    ) {
        Some(workspace_node_spec(m, trash, key_at(m.workspaces, id)))
    } else {
        None
    }
}

/// Collects the visible views of one app, in table order.
pub fn read_views_of(views: &Vec<ViewRow>, trash: &TrashIndex, app_id: u64) -> (r: Vec<ViewRow>)
    ensures
        r@ == filter_views(views@, trash@, app_id),
{
    let mut r: Vec<ViewRow> = Vec::new();
    let mut i: usize = 0;
    while i < views.len()
        invariant
            i <= views.len(),
            r@ == filter_views(views@.take(i as int), trash@, app_id),
        decreases views.len() - i,
    {
        proof {
            assert(views@.take(i + 1) =~= views@.take(i as int).push(views@[i as int]));
        }
        if views[i].belong_to_id == app_id && !trash.is_trashed(views[i].id) {
            r.push(views[i].clone());
        }
        i = i + 1;
    }
    proof {
        assert(views@.take(views@.len() as int) =~= views@);
    }
    r
}

/// Assembles the visible apps of one workspace, each with its visible views.
pub fn read_apps_of(store: &Store, trash: &TrashIndex, ws_id: u64) -> (r: Vec<AppNode>)
    ensures
        r@.map_values(|a: AppNode| a@) == app_nodes_spec(store@.apps, store@.views, trash@, ws_id),
{
    let mut r: Vec<AppNode> = Vec::new();
    let mut i: usize = 0;
    while i < store.apps.len()
        invariant
            i <= store.apps.len(),
            r@.len() == filter_apps(store@.apps.take(i as int), trash@, ws_id).len(),
            r@.map_values(|a: AppNode| a@) == app_nodes_spec(
                store@.apps.take(i as int),
                store@.views,
                trash@,
                ws_id,
            ),
        decreases store.apps.len() - i,
    {
        proof {
            let pre = store@.apps.take(i as int);
            let row = store@.apps[i as int];
            assert(store@.apps.take(i + 1) =~= pre.push(row));
        }
        if store.apps[i].workspace_id == ws_id && !trash.is_trashed(store.apps[i].id) {
            let app = store.apps[i].clone();
            let views = read_views_of(&store.views, trash, app.id);
            let node = AppNode { app, views };
            proof {
                assert(node@ == app_node_spec(store@.views, trash@, store@.apps[i as int]));
            }
            r.push(node);
            proof {
                let pre = store@.apps.take(i as int);
                let row = store@.apps[i as int];
                lemma_filter_apps_push(pre, row, trash@, ws_id);
                let f0 = filter_apps(pre, trash@, ws_id);
                assert(filter_apps(pre.push(row), trash@, ws_id) == f0.push(row));
                let lhs = r@.map_values(|a: AppNode| a@);
                let rhs = app_nodes_spec(pre.push(row), store@.views, trash@, ws_id);
                let prev = app_nodes_spec(pre, store@.views, trash@, ws_id);
                assert forall|j: int| 0 <= j < lhs.len() implies lhs[j] == rhs[j] by {
                    assert(lhs[j] == r@[j]@);
                    assert(rhs[j] == app_node_spec(store@.views, trash@, f0.push(row)[j]));
                    if j < lhs.len() - 1 {
                        assert(prev[j] == app_node_spec(store@.views, trash@, f0[j]));
                        assert(r@[j]@ == prev[j]);
                    }
                }
                assert(lhs =~= rhs);
            }
        } else {
            proof {
                let pre = store@.apps.take(i as int);
                let row = store@.apps[i as int];
                lemma_filter_apps_push(pre, row, trash@, ws_id);
                assert(r@.map_values(|a: AppNode| a@) =~= app_nodes_spec(
                    pre.push(row),
                    store@.views,
                    trash@,
                    ws_id,
                ));
            }
        }
        i = i + 1;
    }
    proof {
        assert(store@.apps.take(store@.apps.len() as int) =~= store@.apps);
    }
    r
}

/// Reads every visible workspace of `owner`, assembled with its apps and
/// views, inside one snapshot.
pub fn read_local_workspaces(
    store: &Store,
    trash: &TrashIndex,
    owner: u64,
    filter: Option<u64>,
) -> (r: Vec<WorkspaceNode>)
    ensures
        r@.map_values(|w: WorkspaceNode| w@) == read_workspaces_spec(
            store@,
            trash@,
            owner,
            filter,
        ),
{
    let mut r: Vec<WorkspaceNode> = Vec::new();
    let mut i: usize = 0;
    while i < store.workspaces.len()
        invariant
            i <= store.workspaces.len(),
            r@.len() == filter_workspaces(store@.workspaces.take(i as int), trash@, owner,
                filter,
            ).len(),
            r@.map_values(|w: WorkspaceNode| w@) == filter_workspaces(
                store@.workspaces.take(i as int),
                trash@,
                owner,
                filter,
            ).map_values(|w: WorkspaceRow| workspace_node_spec(store@, trash@, w)),
        decreases store.workspaces.len() - i,
    {
        proof {
            let pre = store@.workspaces.take(i as int);
            let row = store@.workspaces[i as int];
            assert(store@.workspaces.take(i + 1) =~= pre.push(row));
        }
        let w = &store.workspaces[i];
        let visible = w.owner_id == owner && !trash.is_trashed(w.id) && (match filter {
            Option::None => true,
            Option::Some(id) => w.id == id,
        });
        if visible {
            let workspace = w.clone();
            let apps = read_apps_of(store, trash, workspace.id);
            let node = WorkspaceNode { workspace, apps };
            proof {
                assert(node@ == workspace_node_spec(store@, trash@, store@.workspaces[i as int]));
            }
            r.push(node);
        }
        proof {
            let pre = store@.workspaces.take(i as int);
            let row = store@.workspaces[i as int];
            lemma_filter_workspaces_push(pre, row, trash@, owner, filter);
            let f0 = filter_workspaces(pre, trash@, owner, filter);
            let lhs = r@.map_values(|w2: WorkspaceNode| w2@);
            let rhs = filter_workspaces(pre.push(row), trash@, owner, filter).map_values(
                |w2: WorkspaceRow| workspace_node_spec(store@, trash@, w2),
            );
            let prev = f0.map_values(|w2: WorkspaceRow| workspace_node_spec(store@, trash@, w2));
            assert forall|j: int| 0 <= j < lhs.len() implies lhs[j] == rhs[j] by {
                assert(lhs[j] == r@[j]@);
                if workspace_visible(row, trash@, owner, filter) {
                    assert(rhs[j] == workspace_node_spec(store@, trash@, f0.push(row)[j]));
                    if j < lhs.len() - 1 {
                        assert(prev[j] == workspace_node_spec(store@, trash@, f0[j]));
                        assert(r@[j]@ == prev[j]);
                    }
                } else {
                    assert(rhs[j] == workspace_node_spec(store@, trash@, f0[j]));
                    assert(prev[j] == workspace_node_spec(store@, trash@, f0[j]));
                    assert(r@[j]@ == prev[j]);
                }
            }
            assert(lhs =~= rhs);
        }
        i = i + 1;
    }
    proof {
        assert(store@.workspaces.take(store@.workspaces.len() as int) =~= store@.workspaces);
    }
    r
}

/// Reads the tree of the workspace stored under `id`, failing with
/// `NotFound` when no matching, non-trashed workspace of `owner` exists.
pub fn read_local_workspace(store: &Store, trash: &TrashIndex, owner: u64, id: u64) -> (r: Result<
    WorkspaceNode,
    FolderError,
>)
    requires
        store.wf(),
    ensures
        match r {
            Ok(node) => read_workspace_spec(store@, trash@, owner, id) == Some(node@),
            Err(e) => read_workspace_spec(store@, trash@, owner, id) is None && e
                == FolderError::NotFound,
        },
{
    match store.get_workspace(id) {
        Option::Some(w) => {
            if w.owner_id == owner && !trash.is_trashed(w.id) {
                let apps = read_apps_of(store, trash, w.id);
                let node = WorkspaceNode { workspace: w, apps };
                proof {
                    assert(node@ == workspace_node_spec(store@, trash@, key_at(
                        store@.workspaces,
                        id,
                    )));
                }
                Ok(node)
            } else {
                Err(FolderError::NotFound)
            }
        },
        Option::None => Err(FolderError::NotFound),
    }
}

} // verus!
