//! System-wide laws, proved over the read and merge specifications.

use vstd::prelude::*;

use crate::entities::{AppNodeModel, ViewRow, WorkspaceNodeModel};
use crate::keyed::{key_at, key_contains, key_upsert, lemma_upsert, lemma_upsert_absorbed, Keyed};
use crate::reads::{read_workspace_spec, read_workspaces_spec, workspace_visible};
use crate::reconciler::{lemma_merge_apps_wf, lemma_merge_batch_wf, lemma_merge_views_wf,
    merge_apps, merge_batch, merge_result, merge_view, merge_views, with_owner, MergeState};
use crate::store::{app_parent_ok, store_refs_ok, store_wf, view_parent_ok, StoreModel};

verus! {

broadcast use vstd::prelude::Seq::lemma_filter_pred, vstd::prelude::Seq::lemma_filter_contains,
    vstd::prelude::Seq::lemma_filter_len;

/// A trashed entity is never read: no workspace, app or view in any tree
/// read carries a trashed id. (A trashed entity's descendants are absent
/// with it, since views are only ever read through their untrashed app.)
pub proof fn lemma_trash_excludes(m: StoreModel, trash: Set<u64>, owner: u64, filter: Option<u64>)
    ensures
        forall|i: int|
            0 <= i < read_workspaces_spec(m, trash, owner, filter).len() ==> !trash.contains(
                (#[trigger] read_workspaces_spec(m, trash, owner, filter)[i]).workspace.id,
            ),
        forall|i: int, j: int|
            0 <= i < read_workspaces_spec(m, trash, owner, filter).len() && 0 <= j
                < read_workspaces_spec(m, trash, owner, filter)[i].apps.len() ==> !trash.contains(
                (#[trigger] read_workspaces_spec(m, trash, owner, filter)[i].apps[j]).app.id,
            ),
        forall|i: int, j: int, k: int|
            0 <= i < read_workspaces_spec(m, trash, owner, filter).len() && 0 <= j
                < read_workspaces_spec(m, trash, owner, filter)[i].apps.len() && 0 <= k
                < read_workspaces_spec(m, trash, owner, filter)[i].apps[j].views.len()
                ==> !trash.contains(
                (#[trigger] read_workspaces_spec(m, trash, owner, filter)[i].apps[j].views[k]).id,
            ),
{
    let r = read_workspaces_spec(m, trash, owner, filter);
    assert forall|i: int, j: int, k: int|
        0 <= i < r.len() && 0 <= j < r[i].apps.len() && 0 <= k < r[i].apps[j].views.len() implies
        !trash.contains((#[trigger] r[i].apps[j].views[k]).id) by {
        lemma_read_shapes(m, trash, owner, filter, i);
    }
    assert forall|i: int, j: int| 0 <= i < r.len() && 0 <= j < r[i].apps.len() implies
        !trash.contains((#[trigger] r[i].apps[j]).app.id) by {
        lemma_read_shapes(m, trash, owner, filter, i);
    }
    assert forall|i: int| 0 <= i < r.len() implies !trash.contains(
        (#[trigger] r[i]).workspace.id,
    ) by {
        lemma_read_shapes(m, trash, owner, filter, i);
    }
}

/// Every entry of a list read is a filtered workspace with filtered apps and
/// views, each passing its visibility predicate.
proof fn lemma_read_shapes(m: StoreModel, trash: Set<u64>, owner: u64, filter: Option<u64>, i: int)
    requires
        0 <= i < read_workspaces_spec(m, trash, owner, filter).len(),
    ensures
        workspace_visible(
            read_workspaces_spec(m, trash, owner, filter)[i].workspace,
            trash,
            owner,
            filter,
        ),
        forall|j: int|
            0 <= j < read_workspaces_spec(m, trash, owner, filter)[i].apps.len() ==> {
                let a = #[trigger] read_workspaces_spec(m, trash, owner, filter)[i].apps[j];
                &&& !trash.contains(a.app.id)
                &&& forall|k: int|
                    0 <= k < a.views.len() ==> !trash.contains((#[trigger] a.views[k]).id)
            },
{
    let ws = crate::reads::filter_workspaces(m.workspaces, trash, owner, filter);
    let r = read_workspaces_spec(m, trash, owner, filter);
    assert(r[i] == crate::reads::workspace_node_spec(m, trash, ws[i]));
    assert forall|j: int| 0 <= j < r[i].apps.len() implies {
        let a = #[trigger] r[i].apps[j];
        &&& !trash.contains(a.app.id)
        &&& forall|k: int| 0 <= k < a.views.len() ==> !trash.contains((#[trigger] a.views[k]).id)
    } by {
        let fa = crate::reads::filter_apps(m.apps, trash, ws[i].id);
        assert(r[i].apps[j] == crate::reads::app_node_spec(m.views, trash, fa[j]));
        let a = r[i].apps[j];
        assert forall|k: int| 0 <= k < a.views.len() implies !trash.contains(
            (#[trigger] a.views[k]).id,
        ) by {
            let fv = crate::reads::filter_views(m.views, trash, fa[j].id);
            assert(a.views[k] == fv[k]);
        }
    }
}

/// Restoring an app makes it reappear, fields unchanged: once its id leaves
/// the trash set, the next read of its (visible) workspace includes the very
/// row that has been stored all along.
pub proof fn lemma_restore_app_reappears(m: StoreModel, trash: Set<u64>, owner: u64, app_i: int)
    requires
        store_wf(m),
        0 <= app_i < m.apps.len(),
        key_contains(m.workspaces, m.apps[app_i].workspace_id),
        workspace_visible(
            key_at(m.workspaces, m.apps[app_i].workspace_id),
            trash.remove(m.apps[app_i].id),
            owner,
            None,
        ),
    ensures
        read_workspace_spec(
            m,
            trash.remove(m.apps[app_i].id),
            owner,
            m.apps[app_i].workspace_id,
        ) is Some,
        exists|j: int|
            0 <= j < (read_workspace_spec(
                m,
                trash.remove(m.apps[app_i].id),
                owner,
                m.apps[app_i].workspace_id,
            )->0).apps.len() && (#[trigger] (read_workspace_spec(
                m,
                trash.remove(m.apps[app_i].id),
                owner,
                m.apps[app_i].workspace_id,
            )->0).apps[j]).app == m.apps[app_i],
{
    let t2 = trash.remove(m.apps[app_i].id);
    let wid = m.apps[app_i].workspace_id;
    let node = read_workspace_spec(m, t2, owner, wid)->0;
    let fa = crate::reads::filter_apps(m.apps, t2, wid);
    assert(fa.contains(m.apps[app_i]));
    let j = choose|j: int| 0 <= j < fa.len() && fa[j] == m.apps[app_i];
    assert(node.apps[j] == crate::reads::app_node_spec(m.views, t2, fa[j]));
    assert(node.apps[j].app == m.apps[app_i]);
}

/// Restoring a view makes it reappear inside its app, fields unchanged.
pub proof fn lemma_restore_view_reappears(
    m: StoreModel,
    trash: Set<u64>,
    app: crate::entities::AppRow,
    view_i: int,
)
    requires
        0 <= view_i < m.views.len(),
        m.views[view_i].belong_to_id == app.id,
    ensures
        exists|k: int|
            0 <= k < filter_views_restored(m, trash, app, view_i).len() && (
            #[trigger] filter_views_restored(m, trash, app, view_i)[k]) == m.views[view_i],
{
    let t2 = trash.remove(m.views[view_i].id);
    let fv = crate::reads::filter_views(m.views, t2, app.id);
    assert(fv.contains(m.views[view_i]));
    let k = choose|k: int| 0 <= k < fv.len() && fv[k] == m.views[view_i];
    assert(filter_views_restored(m, trash, app, view_i)[k] == m.views[view_i]);
}

/// The view list a reader sees for `app` after restoring the view at
/// `view_i`; it is what `app_node_spec` hands out for that app.
pub open spec fn filter_views_restored(
    m: StoreModel,
    trash: Set<u64>,
    app: crate::entities::AppRow,
    view_i: int,
) -> Seq<ViewRow> {
    crate::reads::filter_views(m.views, trash.remove(m.views[view_i].id), app.id)
}

/// A payload is internally consistent when every app hangs off its own
/// workspace and every view off its own app. A real remote tree has this
/// shape; a payload whose app points at a workspace that only appears later
/// in the same batch does not, and merging such a payload twice can commit
/// on the second pass an app that the first pass skipped.
pub open spec fn app_subtree_consistent(a: AppNodeModel) -> bool {
    forall|k: int| 0 <= k < a.views.len() ==> (#[trigger] a.views[k]).belong_to_id == a.app.id
}

pub open spec fn node_consistent(n: WorkspaceNodeModel) -> bool {
    forall|j: int|
        0 <= j < n.apps.len() ==> (#[trigger] n.apps[j]).app.workspace_id == n.workspace.id
            && app_subtree_consistent(n.apps[j])
}

pub open spec fn batch_consistent(b: Seq<WorkspaceNodeModel>) -> bool {
    forall|i: int| 0 <= i < b.len() ==> node_consistent(#[trigger] b[i])
}

/// Identifiers are globally unique, so a payload names each workspace, app
/// and view at most once.
pub open spec fn batch_ws_ids_distinct(b: Seq<WorkspaceNodeModel>) -> bool {
    forall|i1: int, i2: int|
        0 <= i1 < i2 < b.len() ==> (#[trigger] b[i1]).workspace.id != (#[trigger] b[i2]).workspace.id
}

pub open spec fn batch_app_ids_distinct(b: Seq<WorkspaceNodeModel>) -> bool {
    forall|i1: int, j1: int, i2: int, j2: int|
        0 <= i1 < b.len() && 0 <= j1 < b[i1].apps.len() && 0 <= i2 < b.len() && 0 <= j2
            < b[i2].apps.len() && (i1 != i2 || j1 != j2) ==> (#[trigger] b[i1].apps[j1]).app.id
            != (#[trigger] b[i2].apps[j2]).app.id
}

pub open spec fn batch_view_ids_distinct(b: Seq<WorkspaceNodeModel>) -> bool {
    forall|i1: int, j1: int, k1: int, i2: int, j2: int, k2: int|
        0 <= i1 < b.len() && 0 <= j1 < b[i1].apps.len() && 0 <= k1 < b[i1].apps[j1].views.len()
            && 0 <= i2 < b.len() && 0 <= j2 < b[i2].apps.len() && 0 <= k2
            < b[i2].apps[j2].views.len() && (i1 != i2 || j1 != j2 || k1 != k2) ==> (
        #[trigger] b[i1].apps[j1].views[k1]).id != (#[trigger] b[i2].apps[j2].views[k2]).id
}

/// The merged value of one view is stored.
pub open spec fn view_absorbed(m: StoreModel, v: ViewRow) -> bool {
    key_contains(m.views, v.id) && key_at(m.views, v.id) == v
}

/// The merged value of one app subtree is stored.
pub open spec fn app_absorbed(m: StoreModel, a: AppNodeModel) -> bool {
    &&& key_contains(m.apps, a.app.id)
    &&& key_at(m.apps, a.app.id) == a.app
    &&& forall|k: int| 0 <= k < a.views.len() ==> view_absorbed(m, #[trigger] a.views[k])
}

/// The merged value of one workspace subtree is stored.
pub open spec fn node_absorbed(m: StoreModel, user: u64, n: WorkspaceNodeModel) -> bool {
    &&& key_contains(m.workspaces, n.workspace.id)
    &&& key_at(m.workspaces, n.workspace.id) == with_owner(n.workspace, user)
    &&& forall|j: int| 0 <= j < n.apps.len() ==> app_absorbed(m, #[trigger] n.apps[j])
}

pub open spec fn batch_absorbed(m: StoreModel, user: u64, b: Seq<WorkspaceNodeModel>) -> bool {
    forall|i: int| 0 <= i < b.len() ==> node_absorbed(m, user, #[trigger] b[i])
}

/// Merging views whose exact values are already stored changes nothing.
proof fn lemma_merge_views_absorbed(st: MergeState, vs: Seq<ViewRow>)
    requires
        store_wf(st.store),
        store_refs_ok(st.store),
        forall|k: int| 0 <= k < vs.len() ==> view_absorbed(st.store, #[trigger] vs[k]),
    ensures
        merge_views(st, vs) == st,
    decreases vs.len(),
{
    if vs.len() > 0 {
        lemma_merge_views_absorbed(st, vs.drop_last());
        let v = vs.last();
        let i = crate::keyed::key_index(st.store.views, v.id);
        assert(st.store.views[i] == v);
        assert(view_parent_ok(st.store, v));
        lemma_upsert_absorbed(st.store.views, v);
        assert(merge_view(st, v) =~= st);
    }
}

/// Merging app subtrees whose exact values are already stored changes
/// nothing.
proof fn lemma_merge_apps_absorbed(st: MergeState, aps: Seq<AppNodeModel>)
    requires
        store_wf(st.store),
        store_refs_ok(st.store),
        forall|j: int| 0 <= j < aps.len() ==> app_absorbed(st.store, #[trigger] aps[j]),
    ensures
        merge_apps(st, aps) == st,
    decreases aps.len(),
{
    if aps.len() > 0 {
        lemma_merge_apps_absorbed(st, aps.drop_last());
        let a = aps.last();
        let i = crate::keyed::key_index(st.store.apps, a.app.id);
        assert(st.store.apps[i] == a.app);
        assert(app_parent_ok(st.store, a.app));
        lemma_upsert_absorbed(st.store.apps, a.app);
        assert((MergeState {
            store: StoreModel { apps: key_upsert(st.store.apps, a.app), ..st.store },
            ..st
        }) =~= st);
        lemma_merge_views_absorbed(st, a.views);
    }
}

/// Merging a batch whose exact values are already stored changes nothing.
proof fn lemma_merge_batch_absorbed(st: MergeState, user: u64, b: Seq<WorkspaceNodeModel>)
    requires
        store_wf(st.store),
        store_refs_ok(st.store),
        batch_absorbed(st.store, user, b),
    ensures
        merge_batch(st, user, b) == st,
    decreases b.len(),
{
    if b.len() > 0 {
        lemma_merge_batch_absorbed(st, user, b.drop_last());
        let n = b.last();
        let w = with_owner(n.workspace, user);
        let i = crate::keyed::key_index(st.store.workspaces, n.workspace.id);
        assert(st.store.workspaces[i] == w);
        lemma_upsert_absorbed(st.store.workspaces, w);
        assert((MergeState {
            store: StoreModel {
                workspaces: key_upsert(st.store.workspaces, w),
                ..st.store
            },
            ..st
        }) =~= st);
        lemma_merge_apps_absorbed(st, n.apps);
    }
}

/// No view in `vs` is stored under key `k`.
pub open spec fn views_id_free(vs: Seq<ViewRow>, k: u64) -> bool {
    forall|x: int| 0 <= x < vs.len() ==> (#[trigger] vs[x]).id != k
}

/// After merging consistent views of a stored app, each view's merged value
/// is stored; rows under other keys are untouched.
proof fn lemma_merge_views_absorbs(st: MergeState, vs: Seq<ViewRow>, app_id: u64)
    requires
        store_wf(st.store),
        store_refs_ok(st.store),
        key_contains(st.store.apps, app_id),
        forall|k: int| 0 <= k < vs.len() ==> (#[trigger] vs[k]).belong_to_id == app_id,
        forall|k1: int, k2: int| 0 <= k1 < k2 < vs.len() ==> vs[k1].id != vs[k2].id,
    ensures
        forall|k: int| 0 <= k < vs.len() ==> view_absorbed(merge_views(st, vs).store, #[trigger] vs[k]),
        forall|k: u64|
            #![trigger key_contains(merge_views(st, vs).store.views, k)]
            #![trigger views_id_free(vs, k)]
            views_id_free(vs, k) ==> (key_contains(merge_views(st, vs).store.views, k)
                <==> key_contains(st.store.views, k)) && (key_contains(st.store.views, k)
                ==> key_at(merge_views(st, vs).store.views, k) == key_at(st.store.views, k)),
    decreases vs.len(),
{
    lemma_merge_views_wf(st, vs);
    if vs.len() > 0 {
        lemma_merge_views_absorbs(st, vs.drop_last(), app_id);
        let st1 = merge_views(st, vs.drop_last());
        lemma_merge_views_wf(st, vs.drop_last());
        let v = vs.last();
        assert(view_parent_ok(st1.store, v));
        lemma_upsert(st1.store.views, v);
        assert forall|k: int| 0 <= k < vs.len() implies view_absorbed(
            merge_views(st, vs).store,
            #[trigger] vs[k],
        ) by {
            if k < vs.len() - 1 {
                assert(vs.drop_last()[k] == vs[k]);
                assert(view_absorbed(st1.store, vs[k]));
                assert(vs[k].id != v.id);
            }
        }
        assert forall|k: u64|
            #![trigger key_contains(merge_views(st, vs).store.views, k)]
            #![trigger views_id_free(vs, k)]
            views_id_free(vs, k) implies (key_contains(merge_views(st, vs).store.views, k)
            <==> key_contains(st.store.views, k)) && (key_contains(st.store.views, k) ==> key_at(
            merge_views(st, vs).store.views,
            k,
        ) == key_at(st.store.views, k)) by {
            let pre = vs.drop_last();
            assert forall|x: int| 0 <= x < pre.len() implies (#[trigger] pre[x]).id != k by {
                assert(vs[x].id != k);
            }
            assert(views_id_free(pre, k));
            assert(vs[vs.len() - 1].id == v.id);
            assert(k != v.id);
        }
    }
}

/// After merging a consistent batch with globally distinct ids, every merged
/// value is stored: this is what the second pass of an identical merge then
/// absorbs.
proof fn lemma_merge_apps_absorbs(st: MergeState, aps: Seq<AppNodeModel>, ws_id: u64)
    requires
        store_wf(st.store),
        store_refs_ok(st.store),
        key_contains(st.store.workspaces, ws_id),
        forall|j: int|
            0 <= j < aps.len() ==> (#[trigger] aps[j]).app.workspace_id == ws_id
                && app_subtree_consistent(aps[j]),
        forall|j1: int, j2: int| 0 <= j1 < j2 < aps.len() ==> aps[j1].app.id != aps[j2].app.id,
        forall|j1: int, k1: int, j2: int, k2: int|
            0 <= j1 < aps.len() && 0 <= k1 < aps[j1].views.len() && 0 <= j2 < aps.len() && 0 <= k2
                < aps[j2].views.len() && (j1 != j2 || k1 != k2) ==> (
            #[trigger] aps[j1].views[k1]).id != (#[trigger] aps[j2].views[k2]).id,
    ensures
        forall|j: int| 0 <= j < aps.len() ==> app_absorbed(merge_apps(st, aps).store, #[trigger] aps[j]),
    decreases aps.len(),
{
    lemma_merge_apps_wf(st, aps);
    if aps.len() > 0 {
        let pre = aps.drop_last();
        lemma_merge_apps_absorbs(st, pre, ws_id);
        let st1 = merge_apps(st, pre);
        lemma_merge_apps_wf(st, pre);
        let a = aps.last();
        assert(app_parent_ok(st1.store, a.app));
        lemma_upsert(st1.store.apps, a.app);
        let st2 = MergeState {
            store: StoreModel { apps: key_upsert(st1.store.apps, a.app), ..st1.store },
            ..st1
        };
        crate::store::lemma_refs_ok_upsert_app(st1.store, a.app);
        assert(key_contains(st2.store.apps, a.app.id));
        lemma_merge_views_absorbs(st2, a.views, a.app.id);
        let stf = merge_views(st2, a.views);
        assert(merge_apps(st, aps) == stf);
        lemma_merge_views_wf(st2, a.views);
        assert forall|j: int| 0 <= j < aps.len() implies app_absorbed(
            stf.store,
            #[trigger] aps[j],
        ) by {
            if j < aps.len() - 1 {
                assert(pre[j] == aps[j]);
                assert(app_absorbed(st1.store, aps[j]));
                assert(aps[j].app.id != a.app.id);
                assert(key_at(st2.store.apps, aps[j].app.id) == aps[j].app);
                assert(stf.store.apps == st2.store.apps);
                assert forall|k: int| 0 <= k < aps[j].views.len() implies view_absorbed(
                    stf.store,
                    #[trigger] aps[j].views[k],
                ) by {
                    assert(view_absorbed(st1.store, aps[j].views[k]));
                    assert(view_absorbed(st2.store, aps[j].views[k]));
                    let vid = aps[j].views[k].id;
                    assert forall|x: int| 0 <= x < a.views.len() implies (
                    #[trigger] a.views[x]).id != vid by {
                        assert(a.views[x] == aps[aps.len() - 1].views[x]);
                    }
                    assert(views_id_free(a.views, vid));
                }
            } else {
                assert(aps[j] == a);
                assert(key_at(st2.store.apps, a.app.id) == a.app);
                assert forall|k: int| 0 <= k < a.views.len() implies view_absorbed(
                    stf.store,
                    #[trigger] a.views[k],
                ) by {
                    assert(view_absorbed(stf.store, a.views[k]));
                }
            }
        }
    }
}

proof fn lemma_merge_batch_absorbs(st: MergeState, user: u64, b: Seq<WorkspaceNodeModel>)
    requires
        store_wf(st.store),
        store_refs_ok(st.store),
        batch_consistent(b),
        batch_ws_ids_distinct(b),
        batch_app_ids_distinct(b),
        batch_view_ids_distinct(b),
    ensures
        batch_absorbed(merge_batch(st, user, b).store, user, b),
    decreases b.len(),
{
    lemma_merge_batch_wf(st, user, b);
    if b.len() > 0 {
        let pre = b.drop_last();
        assert forall|i: int| 0 <= i < pre.len() implies node_consistent(#[trigger] pre[i])
            && pre[i] == b[i] by {}
        lemma_merge_batch_absorbs(st, user, pre);
        let st1 = merge_batch(st, user, pre);
        lemma_merge_batch_wf(st, user, pre);
        let n = b.last();
        let w = with_owner(n.workspace, user);
        lemma_upsert(st1.store.workspaces, w);
        crate::store::lemma_refs_ok_upsert_workspace(st1.store, w);
        let st2 = MergeState {
            store: StoreModel {
                workspaces: key_upsert(st1.store.workspaces, w),
                ..st1.store
            },
            ..st1
        };
        assert forall|j: int| 0 <= j < n.apps.len() implies (#[trigger] n.apps[j]).app.workspace_id
            == n.workspace.id && app_subtree_consistent(n.apps[j]) by {
            assert(b[b.len() - 1] == n);
            assert(node_consistent(n));
        }
        assert forall|j1: int, j2: int| 0 <= j1 < j2 < n.apps.len() implies n.apps[j1].app.id
            != n.apps[j2].app.id by {
            assert(b[b.len() - 1].apps[j1].app.id != b[b.len() - 1].apps[j2].app.id);
        }
        assert forall|j1: int, k1: int, j2: int, k2: int|
            0 <= j1 < n.apps.len() && 0 <= k1 < n.apps[j1].views.len() && 0 <= j2 < n.apps.len()
                && 0 <= k2 < n.apps[j2].views.len() && (j1 != j2 || k1 != k2) implies (
        #[trigger] n.apps[j1].views[k1]).id != (#[trigger] n.apps[j2].views[k2]).id by {
            assert(b[b.len() - 1].apps[j1].views[k1].id != b[b.len() - 1].apps[j2].views[k2].id);
        }
        lemma_merge_apps_absorbs(st2, n.apps, n.workspace.id);
        let stf = merge_apps(st2, n.apps);
        lemma_merge_apps_wf(st2, n.apps);
        assert(merge_batch(st, user, b) == stf);
        assert forall|i: int| 0 <= i < b.len() implies node_absorbed(
            stf.store,
            user,
            #[trigger] b[i],
        ) by {
            if i < b.len() - 1 {
                assert(pre[i] == b[i]);
                assert(node_absorbed(st1.store, user, b[i]));
                assert(b[i].workspace.id != n.workspace.id);
                assert(key_at(st2.store.workspaces, b[i].workspace.id) == with_owner(
                    b[i].workspace,
                    user,
                ));
                assert(stf.store.workspaces == st2.store.workspaces);
                assert forall|j: int| 0 <= j < b[i].apps.len() implies app_absorbed(
                    stf.store,
                    #[trigger] b[i].apps[j],
                ) by {
                    assert(app_absorbed(st1.store, b[i].apps[j]));
                    let oa = b[i].apps[j];
                    assert forall|j2: int| 0 <= j2 < n.apps.len() implies (
                    #[trigger] n.apps[j2]).app.id != oa.app.id by {
                        assert(b[b.len() - 1].apps[j2].app.id != b[i].apps[j].app.id);
                    }
                    lemma_merge_apps_preserves_app(st2, n.apps, oa.app.id);
                    assert forall|k: int| 0 <= k < oa.views.len() implies view_absorbed(
                        stf.store,
                        #[trigger] oa.views[k],
                    ) by {
                        let vid = oa.views[k].id;
                        assert forall|j2: int, x: int|
                            0 <= j2 < n.apps.len() && 0 <= x < n.apps[j2].views.len() implies (
                        #[trigger] n.apps[j2].views[x]).id != vid by {
                            assert(b[b.len() - 1].apps[j2].views[x].id
                                != b[i].apps[j].views[k].id);
                        }
                        lemma_merge_apps_preserves_view(st2, n.apps, vid);
                        assert(view_absorbed(st1.store, oa.views[k]));
                    }
                }
            } else {
                assert(b[i] == n);
                assert(key_at(st2.store.workspaces, n.workspace.id) == w);
                assert(stf.store.workspaces == st2.store.workspaces);
            }
        }
    }
}

/// Merging views whose ids all differ from `k` does not disturb the row
/// stored under `k`.
proof fn lemma_merge_views_preserves(st: MergeState, vs: Seq<ViewRow>, k: u64)
    requires
        store_wf(st.store),
        store_refs_ok(st.store),
        views_id_free(vs, k),
    ensures
        key_contains(merge_views(st, vs).store.views, k) <==> key_contains(st.store.views, k),
        key_contains(st.store.views, k) ==> key_at(merge_views(st, vs).store.views, k) == key_at(
            st.store.views,
            k,
        ),
    decreases vs.len(),
{
    if vs.len() > 0 {
        let pre = vs.drop_last();
        assert forall|x: int| 0 <= x < pre.len() implies (#[trigger] pre[x]).id != k by {
            assert(vs[x].id != k);
        }
        lemma_merge_views_preserves(st, pre, k);
        let st1 = merge_views(st, pre);
        lemma_merge_views_wf(st, pre);
        let v = vs.last();
        assert(vs[vs.len() - 1].id != k);
        if view_parent_ok(st1.store, v) {
            lemma_upsert(st1.store.views, v);
        }
    }
}

/// Merging app subtrees none of whose app ids is `k` does not disturb the
/// app row stored under `k`.
proof fn lemma_merge_apps_preserves_app(st: MergeState, aps: Seq<AppNodeModel>, k: u64)
    requires
        store_wf(st.store),
        store_refs_ok(st.store),
        forall|j: int| 0 <= j < aps.len() ==> (#[trigger] aps[j]).app.id != k,
    ensures
        key_contains(merge_apps(st, aps).store.apps, k) <==> key_contains(st.store.apps, k),
        key_contains(st.store.apps, k) ==> key_at(merge_apps(st, aps).store.apps, k) == key_at(
            st.store.apps,
            k,
        ),
    decreases aps.len(),
{
    if aps.len() > 0 {
        let pre = aps.drop_last();
        assert forall|j: int| 0 <= j < pre.len() implies (#[trigger] pre[j]).app.id != k by {
            assert(aps[j].app.id != k);
        }
        lemma_merge_apps_preserves_app(st, pre, k);
        let st1 = merge_apps(st, pre);
        lemma_merge_apps_wf(st, pre);
        let a = aps.last();
        assert(aps[aps.len() - 1].app.id != k);
        if app_parent_ok(st1.store, a.app) {
            lemma_upsert(st1.store.apps, a.app);
            let st2 = MergeState {
                store: StoreModel { apps: key_upsert(st1.store.apps, a.app), ..st1.store },
                ..st1
            };
            crate::store::lemma_refs_ok_upsert_app(st1.store, a.app);
            lemma_merge_views_wf(st2, a.views);
        }
    }
}

/// Merging app subtrees none of whose view ids is `k` does not disturb the
/// view row stored under `k`.
proof fn lemma_merge_apps_preserves_view(st: MergeState, aps: Seq<AppNodeModel>, k: u64)
    requires
        store_wf(st.store),
        store_refs_ok(st.store),
        forall|j: int, x: int|
            0 <= j < aps.len() && 0 <= x < aps[j].views.len() ==> (
            #[trigger] aps[j].views[x]).id != k,
    ensures
        key_contains(merge_apps(st, aps).store.views, k) <==> key_contains(st.store.views, k),
        key_contains(st.store.views, k) ==> key_at(merge_apps(st, aps).store.views, k) == key_at(
            st.store.views,
            k,
        ),
    decreases aps.len(),
{
    if aps.len() > 0 {
        let pre = aps.drop_last();
        assert forall|j: int, x: int|
            0 <= j < pre.len() && 0 <= x < pre[j].views.len() implies (
        #[trigger] pre[j].views[x]).id != k by {
            assert(aps[j].views[x].id != k);
        }
        lemma_merge_apps_preserves_view(st, pre, k);
        let st1 = merge_apps(st, pre);
        lemma_merge_apps_wf(st, pre);
        let a = aps.last();
        if app_parent_ok(st1.store, a.app) {
            lemma_upsert(st1.store.apps, a.app);
            let st2 = MergeState {
                store: StoreModel { apps: key_upsert(st1.store.apps, a.app), ..st1.store },
                ..st1
            };
            crate::store::lemma_refs_ok_upsert_app(st1.store, a.app);
            assert forall|x: int| 0 <= x < a.views.len() implies (#[trigger] a.views[x]).id
                != k by {
                assert(aps[aps.len() - 1].views[x].id != k);
            }
            lemma_merge_views_preserves(st2, a.views, k);
            lemma_merge_views_wf(st2, a.views);
        }
    }
}

/// The commit side of per-item fault isolation, one workspace's apps: every
/// app subtree that hangs off its own workspace and is internally consistent
/// is committed, whatever happens to its siblings.
proof fn lemma_merge_apps_commits_valid(st: MergeState, aps: Seq<AppNodeModel>, ws_id: u64)
    requires
        store_wf(st.store),
        store_refs_ok(st.store),
        key_contains(st.store.workspaces, ws_id),
        forall|j1: int, j2: int| 0 <= j1 < j2 < aps.len() ==> aps[j1].app.id != aps[j2].app.id,
        forall|j1: int, k1: int, j2: int, k2: int|
            0 <= j1 < aps.len() && 0 <= k1 < aps[j1].views.len() && 0 <= j2 < aps.len() && 0 <= k2
                < aps[j2].views.len() && (j1 != j2 || k1 != k2) ==> (
            #[trigger] aps[j1].views[k1]).id != (#[trigger] aps[j2].views[k2]).id,
    ensures
        forall|j: int|
            0 <= j < aps.len() && (#[trigger] aps[j]).app.workspace_id == ws_id
                && app_subtree_consistent(aps[j]) ==> app_absorbed(
                merge_apps(st, aps).store,
                aps[j],
            ),
    decreases aps.len(),
{
    lemma_merge_apps_wf(st, aps);
    if aps.len() > 0 {
        let pre = aps.drop_last();
        lemma_merge_apps_commits_valid(st, pre, ws_id);
        let st1 = merge_apps(st, pre);
        lemma_merge_apps_wf(st, pre);
        let a = aps.last();
        assert(aps[aps.len() - 1] == a);
        assert forall|j: int|
            0 <= j < aps.len() && (#[trigger] aps[j]).app.workspace_id == ws_id
                && app_subtree_consistent(aps[j]) implies app_absorbed(
            merge_apps(st, aps).store,
            aps[j],
        ) by {
            if j == aps.len() - 1 {
                assert(st1.store.workspaces == st.store.workspaces);
                assert(app_parent_ok(st1.store, a.app));
                lemma_upsert(st1.store.apps, a.app);
                let st2 = MergeState {
                    store: StoreModel { apps: key_upsert(st1.store.apps, a.app), ..st1.store },
                    ..st1
                };
                crate::store::lemma_refs_ok_upsert_app(st1.store, a.app);
                assert forall|k1: int, k2: int| 0 <= k1 < k2 < a.views.len() implies a.views[k1].id
                    != a.views[k2].id by {
                    assert(aps[aps.len() - 1].views[k1].id != aps[aps.len() - 1].views[k2].id);
                }
                lemma_merge_views_absorbs(st2, a.views, a.app.id);
                lemma_merge_views_wf(st2, a.views);
            } else {
                assert(pre[j] == aps[j]);
                assert(app_absorbed(st1.store, aps[j]));
                if app_parent_ok(st1.store, a.app) {
                    lemma_upsert(st1.store.apps, a.app);
                    let st2 = MergeState {
                        store: StoreModel {
                            apps: key_upsert(st1.store.apps, a.app),
                            ..st1.store
                        },
                        ..st1
                    };
                    crate::store::lemma_refs_ok_upsert_app(st1.store, a.app);
                    assert(aps[j].app.id != a.app.id);
                    assert(key_at(st2.store.apps, aps[j].app.id) == aps[j].app);
                    lemma_merge_views_wf(st2, a.views);
                    let stf = merge_views(st2, a.views);
                    assert(stf.store.apps == st2.store.apps);
                    assert forall|k: int| 0 <= k < aps[j].views.len() implies view_absorbed(
                        stf.store,
                        #[trigger] aps[j].views[k],
                    ) by {
                        let vid = aps[j].views[k].id;
                        assert forall|x: int| 0 <= x < a.views.len() implies (
                        #[trigger] a.views[x]).id != vid by {
                            assert(aps[aps.len() - 1].views[x].id != aps[j].views[k].id);
                        }
                        assert(views_id_free(a.views, vid));
                        assert(view_absorbed(st2.store, aps[j].views[k]));
                        lemma_merge_views_preserves(st2, a.views, vid);
                    }
                }
            }
        }
    }
}

/// The commit side of per-item fault isolation, whole batch: with globally
/// distinct ids, every workspace row is committed, and every app subtree
/// that hangs off its own workspace and is internally consistent is
/// committed — a sibling with a dangling reference cannot discard it.
pub proof fn lemma_merge_commits_valid_items(
    m: StoreModel,
    user: u64,
    b: Seq<WorkspaceNodeModel>,
)
    requires
        store_wf(m),
        store_refs_ok(m),
        batch_ws_ids_distinct(b),
        batch_app_ids_distinct(b),
        batch_view_ids_distinct(b),
    ensures
        forall|i: int|
            0 <= i < b.len() ==> key_contains(
                merge_result(m, user, b).store.workspaces,
                (#[trigger] b[i]).workspace.id,
            ) && key_at(merge_result(m, user, b).store.workspaces, b[i].workspace.id)
                == with_owner(b[i].workspace, user),
        forall|i: int, j: int|
            0 <= i < b.len() && 0 <= j < b[i].apps.len() && (#[trigger] b[i].apps[j]).app.workspace_id
                == b[i].workspace.id && app_subtree_consistent(b[i].apps[j]) ==> app_absorbed(
                merge_result(m, user, b).store,
                b[i].apps[j],
            ),
{
    lemma_merge_batch_commits_valid(MergeState { store: m, skipped: Seq::empty() }, user, b);
}

proof fn lemma_merge_batch_commits_valid(st: MergeState, user: u64, b: Seq<WorkspaceNodeModel>)
    requires
        store_wf(st.store),
        store_refs_ok(st.store),
        batch_ws_ids_distinct(b),
        batch_app_ids_distinct(b),
        batch_view_ids_distinct(b),
    ensures
        forall|i: int|
            0 <= i < b.len() ==> key_contains(
                merge_batch(st, user, b).store.workspaces,
                (#[trigger] b[i]).workspace.id,
            ) && key_at(merge_batch(st, user, b).store.workspaces, b[i].workspace.id)
                == with_owner(b[i].workspace, user),
        forall|i: int, j: int|
            0 <= i < b.len() && 0 <= j < b[i].apps.len() && (#[trigger] b[i].apps[j]).app.workspace_id
                == b[i].workspace.id && app_subtree_consistent(b[i].apps[j]) ==> app_absorbed(
                merge_batch(st, user, b).store,
                b[i].apps[j],
            ),
    decreases b.len(),
{
    lemma_merge_batch_wf(st, user, b);
    if b.len() > 0 {
        let pre = b.drop_last();
        assert(batch_ws_ids_distinct(pre) && batch_app_ids_distinct(pre)
            && batch_view_ids_distinct(pre)) by {
            assert forall|i1: int, i2: int| 0 <= i1 < i2 < pre.len() implies (
            #[trigger] pre[i1]).workspace.id != (#[trigger] pre[i2]).workspace.id by {
                assert(b[i1].workspace.id != b[i2].workspace.id);
            }
            assert forall|i1: int, j1: int, i2: int, j2: int|
                0 <= i1 < pre.len() && 0 <= j1 < pre[i1].apps.len() && 0 <= i2 < pre.len() && 0
                    <= j2 < pre[i2].apps.len() && (i1 != i2 || j1 != j2) implies (
            #[trigger] pre[i1].apps[j1]).app.id != (#[trigger] pre[i2].apps[j2]).app.id by {
                assert(b[i1].apps[j1].app.id != b[i2].apps[j2].app.id);
            }
            assert forall|i1: int, j1: int, k1: int, i2: int, j2: int, k2: int|
                0 <= i1 < pre.len() && 0 <= j1 < pre[i1].apps.len() && 0 <= k1
                    < pre[i1].apps[j1].views.len() && 0 <= i2 < pre.len() && 0 <= j2
                    < pre[i2].apps.len() && 0 <= k2 < pre[i2].apps[j2].views.len() && (i1 != i2
                    || j1 != j2 || k1 != k2) implies (#[trigger] pre[i1].apps[j1].views[k1]).id
                != (#[trigger] pre[i2].apps[j2].views[k2]).id by {
                assert(b[i1].apps[j1].views[k1].id != b[i2].apps[j2].views[k2].id);
            }
        }
        lemma_merge_batch_commits_valid(st, user, pre);
        let st1 = merge_batch(st, user, pre);
        lemma_merge_batch_wf(st, user, pre);
        let n = b.last();
        assert(b[b.len() - 1] == n);
        let w = with_owner(n.workspace, user);
        lemma_upsert(st1.store.workspaces, w);
        crate::store::lemma_refs_ok_upsert_workspace(st1.store, w);
        let st2 = MergeState {
            store: StoreModel {
                workspaces: key_upsert(st1.store.workspaces, w),
                ..st1.store
            },
            ..st1
        };
        assert forall|j1: int, j2: int| 0 <= j1 < j2 < n.apps.len() implies n.apps[j1].app.id
            != n.apps[j2].app.id by {
            assert(b[b.len() - 1].apps[j1].app.id != b[b.len() - 1].apps[j2].app.id);
        }
        assert forall|j1: int, k1: int, j2: int, k2: int|
            0 <= j1 < n.apps.len() && 0 <= k1 < n.apps[j1].views.len() && 0 <= j2 < n.apps.len()
                && 0 <= k2 < n.apps[j2].views.len() && (j1 != j2 || k1 != k2) implies (
        #[trigger] n.apps[j1].views[k1]).id != (#[trigger] n.apps[j2].views[k2]).id by {
            assert(b[b.len() - 1].apps[j1].views[k1].id != b[b.len() - 1].apps[j2].views[k2].id);
        }
        lemma_merge_apps_commits_valid(st2, n.apps, n.workspace.id);
        lemma_merge_apps_wf(st2, n.apps);
        let stf = merge_apps(st2, n.apps);
        assert(merge_batch(st, user, b) == stf);
        assert forall|i: int|
            0 <= i < b.len() implies key_contains(
            stf.store.workspaces,
            (#[trigger] b[i]).workspace.id,
        ) && key_at(stf.store.workspaces, b[i].workspace.id) == with_owner(
            b[i].workspace,
            user,
        ) by {
            assert(stf.store.workspaces == st2.store.workspaces);
            if i < b.len() - 1 {
                assert(pre[i] == b[i]);
                assert(b[i].workspace.id != n.workspace.id);
            }
        }
        assert forall|i: int, j: int|
            0 <= i < b.len() && 0 <= j < b[i].apps.len() && (#[trigger] b[i].apps[j]).app.workspace_id
                == b[i].workspace.id && app_subtree_consistent(b[i].apps[j]) implies app_absorbed(
            stf.store,
            b[i].apps[j],
        ) by {
            if i < b.len() - 1 {
                assert(pre[i] == b[i]);
                assert(app_absorbed(st1.store, b[i].apps[j]));
                let oa = b[i].apps[j];
                assert forall|j2: int| 0 <= j2 < n.apps.len() implies (
                #[trigger] n.apps[j2]).app.id != oa.app.id by {
                    assert(b[b.len() - 1].apps[j2].app.id != b[i].apps[j].app.id);
                }
                lemma_merge_apps_preserves_app(st2, n.apps, oa.app.id);
                assert forall|k: int| 0 <= k < oa.views.len() implies view_absorbed(
                    stf.store,
                    #[trigger] oa.views[k],
                ) by {
                    let vid = oa.views[k].id;
                    assert forall|j2: int, x: int|
                        0 <= j2 < n.apps.len() && 0 <= x < n.apps[j2].views.len() implies (
                    #[trigger] n.apps[j2].views[x]).id != vid by {
                        assert(b[b.len() - 1].apps[j2].views[x].id != b[i].apps[j].views[k].id);
                    }
                    lemma_merge_apps_preserves_view(st2, n.apps, vid);
                    assert(view_absorbed(st1.store, oa.views[k]));
                }
            }
        }
    }
}

/// An app whose workspace reference names neither a stored workspace nor a
/// workspace of the batch fails its write-time check wherever it stands, so
/// its row is never committed: the skip side of per-item fault isolation.
proof fn lemma_merge_apps_skip_dangling(st: MergeState, aps: Seq<AppNodeModel>, x: u64, aid: u64)
    requires
        store_wf(st.store),
        store_refs_ok(st.store),
        !key_contains(st.store.workspaces, x),
        !key_contains(st.store.apps, aid),
        forall|j: int|
            0 <= j < aps.len() && (#[trigger] aps[j]).app.id == aid ==> aps[j].app.workspace_id
                == x,
    ensures
        !key_contains(merge_apps(st, aps).store.apps, aid),
    decreases aps.len(),
{
    if aps.len() > 0 {
        let pre = aps.drop_last();
        assert forall|j: int|
            0 <= j < pre.len() && (#[trigger] pre[j]).app.id == aid implies pre[j].app.workspace_id
            == x by {
            assert(aps[j] == pre[j]);
        }
        lemma_merge_apps_skip_dangling(st, pre, x, aid);
        let st1 = merge_apps(st, pre);
        lemma_merge_apps_wf(st, pre);
        let a = aps.last();
        assert(aps[aps.len() - 1] == a);
        if a.app.id == aid {
            assert(a.app.workspace_id == x);
            assert(st1.store.workspaces == st.store.workspaces);
            assert(!app_parent_ok(st1.store, a.app));
        } else {
            if app_parent_ok(st1.store, a.app) {
                lemma_upsert(st1.store.apps, a.app);
                let st2 = MergeState {
                    store: StoreModel { apps: key_upsert(st1.store.apps, a.app), ..st1.store },
                    ..st1
                };
                crate::store::lemma_refs_ok_upsert_app(st1.store, a.app);
                lemma_merge_views_wf(st2, a.views);
            }
        }
    }
}

/// Per-item fault isolation, the skip side, over a whole batch: a dangling
/// app's row is absent after the merge, while the merge of everything else
/// proceeds (the rest of the batch's effect is pinned by the merge
/// contract, and a consistent batch is committed in full by
/// `lemma_merge_batch_absorbs`).
pub proof fn lemma_merge_skips_dangling_app(
    m: StoreModel,
    user: u64,
    b: Seq<WorkspaceNodeModel>,
    x: u64,
    aid: u64,
)
    requires
        store_wf(m),
        store_refs_ok(m),
        !key_contains(m.workspaces, x),
        forall|i: int| 0 <= i < b.len() ==> (#[trigger] b[i]).workspace.id != x,
        !key_contains(m.apps, aid),
        forall|i: int, j: int|
            0 <= i < b.len() && 0 <= j < b[i].apps.len() && (#[trigger] b[i].apps[j]).app.id == aid
                ==> b[i].apps[j].app.workspace_id == x,
    ensures
        !key_contains(merge_result(m, user, b).store.apps, aid),
{
    lemma_merge_batch_skip_dangling(
        MergeState { store: m, skipped: Seq::empty() },
        user,
        b,
        x,
        aid,
    );
}

proof fn lemma_merge_batch_skip_dangling(
    st: MergeState,
    user: u64,
    b: Seq<WorkspaceNodeModel>,
    x: u64,
    aid: u64,
)
    requires
        store_wf(st.store),
        store_refs_ok(st.store),
        !key_contains(st.store.workspaces, x),
        forall|i: int| 0 <= i < b.len() ==> (#[trigger] b[i]).workspace.id != x,
        !key_contains(st.store.apps, aid),
        forall|i: int, j: int|
            0 <= i < b.len() && 0 <= j < b[i].apps.len() && (#[trigger] b[i].apps[j]).app.id == aid
                ==> b[i].apps[j].app.workspace_id == x,
    ensures
        !key_contains(merge_batch(st, user, b).store.workspaces, x),
        !key_contains(merge_batch(st, user, b).store.apps, aid),
    decreases b.len(),
{
    if b.len() > 0 {
        let pre = b.drop_last();
        assert forall|i: int| 0 <= i < pre.len() implies (#[trigger] pre[i]).workspace.id != x by {
            assert(b[i] == pre[i]);
        }
        assert forall|i: int, j: int|
            0 <= i < pre.len() && 0 <= j < pre[i].apps.len() && (#[trigger] pre[i].apps[j]).app.id
                == aid implies pre[i].apps[j].app.workspace_id == x by {
            assert(b[i] == pre[i]);
        }
        lemma_merge_batch_skip_dangling(st, user, pre, x, aid);
        let st1 = merge_batch(st, user, pre);
        lemma_merge_batch_wf(st, user, pre);
        let n = b.last();
        assert(b[b.len() - 1] == n);
        let w = with_owner(n.workspace, user);
        lemma_upsert(st1.store.workspaces, w);
        crate::store::lemma_refs_ok_upsert_workspace(st1.store, w);
        let st2 = MergeState {
            store: StoreModel {
                workspaces: key_upsert(st1.store.workspaces, w),
                ..st1.store
            },
            ..st1
        };
        assert(w.key() == n.workspace.id);
        assert(!key_contains(st2.store.workspaces, x));
        assert forall|j: int|
            0 <= j < n.apps.len() && (#[trigger] n.apps[j]).app.id == aid implies
            n.apps[j].app.workspace_id == x by {
            assert(b[b.len() - 1].apps[j].app.id == n.apps[j].app.id);
        }
        lemma_merge_apps_skip_dangling(st2, n.apps, x, aid);
        lemma_merge_apps_wf(st2, n.apps);
    }
}

/// Idempotence: merging the same internally consistent payload twice leaves
/// the store exactly as one merge left it — no duplicate entities, the
/// modified instants exactly those the payload carries.
pub proof fn lemma_merge_idempotent(m: StoreModel, user: u64, b: Seq<WorkspaceNodeModel>)
    requires
        store_wf(m),
        store_refs_ok(m),
        batch_consistent(b),
        batch_ws_ids_distinct(b),
        batch_app_ids_distinct(b),
        batch_view_ids_distinct(b),
    ensures
        merge_result(merge_result(m, user, b).store, user, b).store == merge_result(
            m,
            user,
            b,
        ).store,
{
    let st0 = MergeState { store: m, skipped: Seq::empty() };
    lemma_merge_batch_wf(st0, user, b);
    lemma_merge_batch_absorbs(st0, user, b);
    let m1 = merge_batch(st0, user, b).store;
    let st1 = MergeState { store: m1, skipped: Seq::empty() };
    lemma_merge_batch_absorbed(st1, user, b);
}

} // verus!
