//! Merging the authoritative remote workspace set into the local store.
//!
//! The merge runs over one exclusive borrow of the store — one transaction —
//! and upserts workspace, app and view rows in that order. A row whose parent
//! reference dangles is skipped together with its subtree and reported, and
//! the rest of the batch still commits: one bad item must not discard an
//! otherwise valid batch. The remote is authoritative, so an upsert replaces
//! the local row wholesale, in place, keeping display order.

use vstd::prelude::*;

use crate::entities::{AppNodeModel, ViewRow, WorkspaceNode, WorkspaceNodeModel, WorkspaceRow};
use crate::keyed::key_upsert;
use crate::store::{app_parent_ok, lemma_refs_ok_upsert_app, lemma_refs_ok_upsert_view,
    lemma_refs_ok_upsert_workspace, store_refs_ok, store_wf, view_parent_ok, Store, StoreModel};

verus! {

/// A remote workspace adopted for `user`: the local row keeps every remote
/// field but is owned by the local user.
pub open spec fn with_owner(w: WorkspaceRow, user: u64) -> WorkspaceRow {
    WorkspaceRow { owner_id: user, ..w }
}

/// Merge progress: the store so far, and the ids skipped so far.
#[verifier::ext_equal]
pub ghost struct MergeState {
    pub store: StoreModel,
    pub skipped: Seq<u64>,
}

/// One view row: upsert when its parent exists, else skip and report.
pub open spec fn merge_view(st: MergeState, v: ViewRow) -> MergeState {
    if view_parent_ok(st.store, v) {
        MergeState {
            store: StoreModel { views: key_upsert(st.store.views, v), ..st.store },
            ..st
        }
    } else {
        MergeState { skipped: st.skipped.push(v.id), ..st }
    }
}

/// The views of one app, in payload order.
pub open spec fn merge_views(st: MergeState, vs: Seq<ViewRow>) -> MergeState
    decreases vs.len(),
{
    if vs.len() == 0 {
        st
    } else {
        merge_view(merge_views(st, vs.drop_last()), vs.last())
    }
}

/// One app subtree: when the workspace reference holds, upsert the app row
/// and then its views; when it dangles, skip the app and its whole subtree.
pub open spec fn merge_app(st: MergeState, a: AppNodeModel) -> MergeState {
    if app_parent_ok(st.store, a.app) {
        merge_views(
            MergeState {
                store: StoreModel { apps: key_upsert(st.store.apps, a.app), ..st.store },
                ..st
            },
            a.views,
        )
    } else {
        MergeState { skipped: st.skipped.push(a.app.id), ..st }
    }
}

/// The apps of one workspace, in payload order.
pub open spec fn merge_apps(st: MergeState, aps: Seq<AppNodeModel>) -> MergeState
    decreases aps.len(),
{
    if aps.len() == 0 {
        st
    } else {
        merge_app(merge_apps(st, aps.drop_last()), aps.last())
    }
}

/// One workspace subtree: the workspace row is always upserted (it has no
/// parent to dangle), then its apps.
pub open spec fn merge_workspace(st: MergeState, user: u64, n: WorkspaceNodeModel) -> MergeState {
    merge_apps(
        MergeState {
            store: StoreModel {
                workspaces: key_upsert(st.store.workspaces, with_owner(n.workspace, user)),
                ..st.store
            },
            ..st
        },
        n.apps,
    )
}

/// A whole remote batch, workspace by workspace, in payload order.
pub open spec fn merge_batch(st: MergeState, user: u64, b: Seq<WorkspaceNodeModel>) -> MergeState
    decreases b.len(),
{
    if b.len() == 0 {
        st
    } else {
        merge_workspace(merge_batch(st, user, b.drop_last()), user, b.last())
    }
}

/// What `merge_remote_workspaces` does to a store: the batch folded over it,
/// starting from an empty skip report.
pub open spec fn merge_result(m: StoreModel, user: u64, b: Seq<WorkspaceNodeModel>) -> MergeState {
    merge_batch(MergeState { store: m, skipped: Seq::empty() }, user, b)
}

/// The merge never touches the tables' well-formedness or the selection
/// pointers, and never removes a key; spelled out per fold level.
pub proof fn lemma_merge_views_wf(st: MergeState, vs: Seq<ViewRow>)
    requires
        store_wf(st.store),
        store_refs_ok(st.store),
    ensures
        store_wf(merge_views(st, vs).store),
        store_refs_ok(merge_views(st, vs).store),
        merge_views(st, vs).store.workspaces == st.store.workspaces,
        merge_views(st, vs).store.apps == st.store.apps,
        merge_views(st, vs).store.current_workspace == st.store.current_workspace,
        merge_views(st, vs).store.latest_visited_view == st.store.latest_visited_view,
    decreases vs.len(),
{
    if vs.len() > 0 {
        lemma_merge_views_wf(st, vs.drop_last());
        let st1 = merge_views(st, vs.drop_last());
        let v = vs.last();
        if view_parent_ok(st1.store, v) {
            crate::keyed::lemma_upsert(st1.store.views, v);
            lemma_refs_ok_upsert_view(st1.store, v);
        }
    }
}

pub proof fn lemma_merge_apps_wf(st: MergeState, aps: Seq<AppNodeModel>)
    requires
        store_wf(st.store),
        store_refs_ok(st.store),
    ensures
        store_wf(merge_apps(st, aps).store),
        store_refs_ok(merge_apps(st, aps).store),
        merge_apps(st, aps).store.workspaces == st.store.workspaces,
        merge_apps(st, aps).store.current_workspace == st.store.current_workspace,
        merge_apps(st, aps).store.latest_visited_view == st.store.latest_visited_view,
    decreases aps.len(),
{
    if aps.len() > 0 {
        lemma_merge_apps_wf(st, aps.drop_last());
        let st1 = merge_apps(st, aps.drop_last());
        let a = aps.last();
        if app_parent_ok(st1.store, a.app) {
            crate::keyed::lemma_upsert(st1.store.apps, a.app);
            lemma_refs_ok_upsert_app(st1.store, a.app);
            let st2 = MergeState {
                store: StoreModel { apps: key_upsert(st1.store.apps, a.app), ..st1.store },
                ..st1
            };
            lemma_merge_views_wf(st2, a.views);
        }
    }
}

pub proof fn lemma_merge_batch_wf(st: MergeState, user: u64, b: Seq<WorkspaceNodeModel>)
    requires
        store_wf(st.store),
        store_refs_ok(st.store),
    ensures
        store_wf(merge_batch(st, user, b).store),
        store_refs_ok(merge_batch(st, user, b).store),
        merge_batch(st, user, b).store.current_workspace == st.store.current_workspace,
        merge_batch(st, user, b).store.latest_visited_view == st.store.latest_visited_view,
    decreases b.len(),
{
    if b.len() > 0 {
        lemma_merge_batch_wf(st, user, b.drop_last());
        let st1 = merge_batch(st, user, b.drop_last());
        let n = b.last();
        crate::keyed::lemma_upsert(st1.store.workspaces, with_owner(n.workspace, user));
        lemma_refs_ok_upsert_workspace(st1.store, with_owner(n.workspace, user));
        let st2 = MergeState {
            store: StoreModel {
                workspaces: key_upsert(st1.store.workspaces, with_owner(n.workspace, user)),
                ..st1.store
            },
            ..st1
        };
        lemma_merge_apps_wf(st2, n.apps);
    }
}

impl Store {
    /// Merges one fetched batch for `user` inside one exclusive borrow: every
    /// workspace row is adopted and upserted, then its apps, then their
    /// views, each app or view skipped (with its subtree) and reported when
    /// its parent reference dangles. Returns the skipped ids, in order.
    pub fn merge_remote_workspaces(&mut self, user: u64, batch: &Vec<WorkspaceNode>) -> (skipped:
        Vec<u64>)
        requires
            old(self).wf(),
            store_refs_ok(old(self)@),
        ensures
            final(self).wf(),
            store_refs_ok(final(self)@),
            (MergeState { store: final(self)@, skipped: skipped@ }) == merge_result(
                old(self)@,
                user,
                batch@.map_values(|n: WorkspaceNode| n@),
            ),
    {
        let ghost bm = batch@.map_values(|n: WorkspaceNode| n@);
        let mut skipped: Vec<u64> = Vec::new();
        let mut i: usize = 0;
        proof {
            lemma_merge_batch_wf(
                MergeState { store: self@, skipped: Seq::empty() },
                user,
                bm.take(0),
            );
        }
        while i < batch.len()
            invariant
                i <= batch.len(),
                bm == batch@.map_values(|n: WorkspaceNode| n@),
                old(self).wf(),
                (MergeState { store: self@, skipped: skipped@ }) == merge_batch(
                    MergeState { store: old(self)@, skipped: Seq::<u64>::empty() },
                    user,
                    bm.take(i as int),
                ),
                self.wf(),
                store_refs_ok(self@),
            decreases batch.len() - i,
        {
            let ghost st_pre = MergeState { store: self@, skipped: skipped@ };
            proof {
                assert(bm.take(i + 1).drop_last() =~= bm.take(i as int));
                assert(bm.take(i + 1).last() == bm[i as int]);
            }
            let node = &batch[i];
            let mut ws = node.workspace.clone();
            ws.owner_id = user;
            proof {
                assert(ws == with_owner(bm[i as int].workspace, user));
            }
            proof {
                lemma_refs_ok_upsert_workspace(self@, ws);
            }
            self.upsert_workspace(ws);
            let ghost st_ws = MergeState { store: self@, skipped: skipped@ };
            let mut j: usize = 0;
            while j < node.apps.len()
                invariant
                    j <= node.apps.len(),
                    old(self).wf(),
                    self.wf(),
                    (MergeState { store: self@, skipped: skipped@ }) == merge_apps(
                        st_ws,
                        bm[i as int].apps.take(j as int),
                    ),
                    0 <= i < bm.len(),
                    bm[i as int] == node@,
                    store_wf(st_ws.store),
                    store_refs_ok(self@),
                decreases node.apps.len() - j,
            {
                proof {
                    assert(bm[i as int].apps.take(j + 1).drop_last() =~= bm[i as int].apps.take(
                        j as int,
                    ));
                    assert(bm[i as int].apps.take(j + 1).last() == bm[i as int].apps[j as int]);
                    assert(node@.apps[j as int] == node.apps@[j as int]@);
                }
                let app_node = &node.apps[j];
                let app_row = app_node.app.clone();
                let ghost st_a = MergeState { store: self@, skipped: skipped@ };
                match self.upsert_app(app_row) {
                    Ok(_) => {
                        proof {
                            lemma_refs_ok_upsert_app(st_a.store, bm[i as int].apps[j as int].app);
                        }
                        let ghost st_b = MergeState { store: self@, skipped: skipped@ };
                        let mut k: usize = 0;
                        while k < app_node.views.len()
                            invariant
                                k <= app_node.views.len(),
                                old(self).wf(),
                                self.wf(),
                                (MergeState { store: self@, skipped: skipped@ }) == merge_views(
                                    st_b,
                                    app_node@.views.take(k as int),
                                ),
                                store_wf(st_b.store),
                                store_refs_ok(self@),
                            decreases app_node.views.len() - k,
                        {
                            proof {
                                assert(app_node@.views.take(k + 1).drop_last()
                                    =~= app_node@.views.take(k as int));
                                assert(app_node@.views.take(k + 1).last()
                                    == app_node@.views[k as int]);
                            }
                            let view_row = app_node.views[k].clone();
                            let ghost m_pre = self@;
                            match self.upsert_view(view_row) {
                                Ok(_) => {
                                    proof {
                                        lemma_refs_ok_upsert_view(
                                            m_pre,
                                            app_node@.views[k as int],
                                        );
                                    }
                                },
                                Err(_) => {
                                    skipped.push(app_node.views[k].id);
                                },
                            }
                            k = k + 1;
                        }
                        proof {
                            assert(app_node@.views.take(app_node.views@.len() as int)
                                =~= app_node@.views);
                        }
                    },
                    Err(_) => {
                        skipped.push(app_node.app.id);
                        proof {
                            assert((MergeState { store: self@, skipped: skipped@ }) == merge_app(
                                st_a,
                                bm[i as int].apps[j as int],
                            ));
                        }
                    },
                }
                j = j + 1;
            }
            proof {
                assert(bm[i as int].apps.take(node.apps@.len() as int) =~= bm[i as int].apps);
            }
            i = i + 1;
        }
        proof {
            assert(bm.take(batch@.len() as int) =~= bm);
        }
        skipped
    }
}

} // verus!
