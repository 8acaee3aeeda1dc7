//! The workspace controller: user-driven creates, opens and local reads,
//! and the queue-driven background reconciliation around them.
//!
//! Every read answers synchronously from the local store and, where the
//! remote refresh is wanted, enqueues a reconciliation job
//! instead of blocking; a worker drains the queue, performs the fetch, and
//! hands the outcome to [`FolderCore::apply_fetch_result`]. User-driven
//! failures propagate; fetch failures are contained there and never reach
//! the caller of the read that triggered them.

use vstd::prelude::*;

use crate::bus::{Bus, FolderEvent, Notification, NotificationModel, SubscriberModel};
use crate::defaults::{create_default_app, now_timestamp};
use crate::entities::{clone_workspace_nodes, AppNode, CreateWorkspaceParams, ViewDataType,
    ViewRow, WorkspaceNode, WorkspaceRow};
use crate::errors::FolderError;
use crate::ids::IdGen;
use crate::keyed::{key_at, key_contains, key_upsert};
use crate::reads;
use crate::reads::{app_nodes_spec, read_workspace_spec, read_workspaces_spec, workspace_visible};
use crate::reconciler::{merge_result, MergeState};
use crate::store::{store_refs_ok, Store, StoreModel};
use crate::trash::TrashIndex;

verus! {

/// A pending background refresh: which user asked, and for what.
#[derive(Clone, Copy, Debug)]
pub struct ReconcileJob {
    pub owner_id: u64,
    pub filter: Option<u64>,
}

/// What `current_workspace_setting` answers: the selected workspace's tree
/// and the most recently visited view, when one is recorded and visible.
pub struct CurrentWorkspaceSetting {
    pub workspace: WorkspaceNode,
    pub latest_view: Option<ViewRow>,
}

/// Mathematical model of a [`FolderCore`].
#[verifier::ext_equal]
pub ghost struct CoreModel {
    pub store: StoreModel,
    pub trash: Set<u64>,
    pub next_id: u64,
    pub bus: Seq<SubscriberModel>,
    pub queue: Seq<ReconcileJob>,
}

/// The folder core: the store and trash index behind one exclusive borrow
/// (the transaction boundary), the id generator, the notification bus and
/// the reconciliation queue.
pub struct FolderCore {
    pub store: Store,
    pub trash: TrashIndex,
    pub ids: IdGen,
    pub bus: Bus,
    pub queue: Vec<ReconcileJob>,
}

impl View for FolderCore {
    type V = CoreModel;

    open spec fn view(&self) -> CoreModel {
        CoreModel {
            store: self.store@,
            trash: self.trash@,
            next_id: self.ids.next,
            bus: self.bus@,
            queue: self.queue@,
        }
    }
}

/// Whether `owner` already has some workspace stored.
pub open spec fn has_workspace_for(m: StoreModel, owner: u64) -> bool {
    exists|i: int| 0 <= i < m.workspaces.len() && m.workspaces[i].owner_id == owner
}

impl FolderCore {
    pub open spec fn wf(&self) -> bool {
        &&& self.store.wf()
        &&& store_refs_ok(self.store@)
        &&& self.trash.wf()
    }

    /// An empty core whose generator starts at `first_id`.
    pub fn new(first_id: u64) -> (c: FolderCore)
        ensures
            c.wf(),
            c@.store.workspaces.len() == 0,
            c@.store.apps.len() == 0,
            c@.store.views.len() == 0,
            c@.store.current_workspace is None,
            c@.trash == Set::<u64>::empty(),
            c@.next_id == first_id,
            c@.bus.len() == 0,
            c@.queue.len() == 0,
    {
        FolderCore {
            store: Store::new(),
            trash: TrashIndex::new(),
            ids: IdGen::new(first_id),
            bus: Bus::new(),
            queue: Vec::new(),
        }
    }

    /// Whether `owner` already has a workspace (the seeding test).
    fn has_workspace(&self, owner: u64) -> (r: bool)
        ensures
            r == has_workspace_for(self.store@, owner),
    {
        let mut i: usize = 0;
        while i < self.store.workspaces.len()
            invariant
                i <= self.store.workspaces.len(),
                forall|j: int| 0 <= j < i ==> self.store@.workspaces[j].owner_id != owner,
            decreases self.store.workspaces.len() - i,
        {
            if self.store.workspaces[i].owner_id == owner {
                proof {
                    assert(self.store@.workspaces[i as int].owner_id == owner);
                }
                return true;
            }
            i = i + 1;
        }
        proof {
            if has_workspace_for(self.store@, owner) {
                let j = choose|j: int|
                    0 <= j < self.store@.workspaces.len() && self.store@.workspaces[j].owner_id
                        == owner;
                assert(self.store@.workspaces[j].owner_id != owner);
            }
        }
        false
    }

    /// Validates the request, generates fresh identifiers, writes the
    /// workspace — seeded with the default app and view when it is the
    /// user's first — inside one exclusive borrow, and returns the created
    /// tree. Fails with `InvalidParams` on a missing name and `Conflict` on
    /// an id collision, both without touching any state.
    pub fn create_workspace_from_params(&mut self, owner_id: u64, params: CreateWorkspaceParams)
        -> (r: Result<WorkspaceNode, FolderError>)
        requires
            old(self).wf(),
            old(self).ids.next <= u64::MAX - 3,
        ensures
            final(self).wf(),
            !params.is_valid() ==> r == Err::<WorkspaceNode, FolderError>(
                FolderError::InvalidParams,
            ) && final(self)@ == old(self)@,
            params.is_valid() && key_contains(old(self)@.store.workspaces, old(self)@.next_id)
                ==> r == Err::<WorkspaceNode, FolderError>(FolderError::Conflict) && final(self)@
                == old(self)@,
            params.is_valid() && !key_contains(old(self)@.store.workspaces, old(self)@.next_id)
                ==> r is Ok,
            r is Ok ==> ({
                let node = r->Ok_0;
                &&& node.workspace.id == old(self)@.next_id
                &&& node.workspace.owner_id == owner_id
                &&& node.workspace.name == params.name
                &&& node.workspace.desc == params.desc
                &&& node.workspace.create_time == node.workspace.modified_time
                &&& final(self)@.store.workspaces == old(self)@.store.workspaces.push(
                    node.workspace,
                )
                &&& final(self)@.trash == old(self)@.trash
                &&& final(self)@.bus == old(self)@.bus
                &&& final(self)@.queue == old(self)@.queue
                &&& final(self)@.store.current_workspace == old(self)@.store.current_workspace
                &&& final(self)@.store.latest_visited_view == old(self)@.store.latest_visited_view
                &&& if has_workspace_for(old(self)@.store, owner_id) {
                    &&& node.apps@.len() == 0
                    &&& final(self)@.store.apps == old(self)@.store.apps
                    &&& final(self)@.store.views == old(self)@.store.views
                    &&& final(self)@.next_id == old(self)@.next_id + 1
                } else {
                    &&& node.apps@.len() == 1
                    &&& node.apps@[0]@.app.id == old(self)@.next_id + 1
                    &&& node.apps@[0]@.app.workspace_id == old(self)@.next_id
                    &&& node.apps@[0]@.app.name@ == "⭐️ Getting started"@
                    &&& node.apps@[0]@.app.desc@ == ""@
                    &&& node.apps@[0]@.app.version == 0
                    &&& node.apps@[0]@.app.create_time == node.workspace.create_time
                    &&& node.apps@[0]@.app.modified_time == node.workspace.create_time
                    &&& node.apps@[0]@.views.len() == 1
                    &&& node.apps@[0]@.views[0].id == old(self)@.next_id + 2
                    &&& node.apps@[0]@.views[0].belong_to_id == old(self)@.next_id + 1
                    &&& node.apps@[0]@.views[0].name@ == "Read me"@
                    &&& node.apps@[0]@.views[0].desc@ == ""@
                    &&& node.apps@[0]@.views[0].data_type == ViewDataType::TextBlock
                    &&& node.apps@[0]@.views[0].version == 0
                    &&& node.apps@[0]@.views[0].create_time == node.workspace.create_time
                    &&& node.apps@[0]@.views[0].modified_time == node.workspace.create_time
                    &&& node.apps@[0]@.views[0].ext_data@ == ""@
                    &&& node.apps@[0]@.views[0].thumbnail@ == ""@
                    &&& node.apps@[0]@.views[0].plugin_type == 0
                    &&& final(self)@.store.apps == key_upsert(
                        old(self)@.store.apps,
                        node.apps@[0]@.app,
                    )
                    &&& final(self)@.store.views == key_upsert(
                        old(self)@.store.views,
                        node.apps@[0]@.views[0],
                    )
                    &&& final(self)@.next_id == old(self)@.next_id + 3
                }
                // The round trip: an immediate local read of the created id
                // answers with this workspace, fields equal to the input.
                &&& !old(self)@.trash.contains(node.workspace.id) ==> ({
                    let got = read_workspace_spec(
                        final(self)@.store,
                        final(self)@.trash,
                        owner_id,
                        node.workspace.id,
                    );
                    got is Some && got->0.workspace == node.workspace
                })
            }),
    {
        if params.name.as_str().is_empty() {
            return Err(FolderError::InvalidParams);
        }
        let workspace_id = self.ids.next;
        if self.store.contains_workspace(workspace_id) {
            return Err(FolderError::Conflict);
        }
        let first = !self.has_workspace(owner_id);
        let _ = self.ids.fresh();
        let time = now_timestamp();
        let workspace = WorkspaceRow {
            id: workspace_id,
            owner_id,
            name: params.name,
            desc: params.desc,
            create_time: time,
            modified_time: time,
        };
        let node_ws = workspace.clone();
        let ghost m0 = self.store@;
        proof {
            crate::keyed::lemma_upsert(m0.workspaces, workspace);
            crate::store::lemma_refs_ok_upsert_workspace(m0, workspace);
        }
        self.store.upsert_workspace(workspace);
        let mut apps: Vec<AppNode> = Vec::new();
        if first {
            let app_id = self.ids.fresh();
            let view_id = self.ids.fresh();
            let app = create_default_app(workspace_id, app_id, view_id, time);
            let app_row = app.app.clone();
            let view_row = app.views[0].clone();
            let ghost m1 = self.store@;
            let res_a = self.store.upsert_app(app_row);
            proof {
                assert(res_a is Ok);
                crate::keyed::lemma_upsert(m1.apps, app.app);
                crate::store::lemma_refs_ok_upsert_app(m1, app.app);
            }
            let ghost m2 = self.store@;
            let res_v = self.store.upsert_view(view_row);
            proof {
                assert(res_v is Ok);
                crate::store::lemma_refs_ok_upsert_view(m2, app@.views[0]);
            }
            apps.push(app);
        }
        let node = WorkspaceNode { workspace: node_ws, apps };
        proof {
            let mf = self.store@;
            crate::keyed::lemma_upsert(m0.workspaces, node.workspace);
            assert(mf.workspaces == key_upsert(m0.workspaces, node.workspace));
            assert(mf.workspaces =~= m0.workspaces.push(node.workspace));
            if !self.trash@.contains(node.workspace.id) {
                assert(key_contains(mf.workspaces, node.workspace.id));
                assert(key_at(mf.workspaces, node.workspace.id) == node.workspace);
                assert(workspace_visible(node.workspace, self.trash@, owner_id, None::<u64>));
            }
        }
        Ok(node)
    }

    /// Reads the owner's visible workspace trees synchronously from the
    /// local snapshot, and enqueues a background refresh for the same
    /// filter; the caller never waits on the remote.
    pub fn read_workspaces(&mut self, owner_id: u64, filter: Option<u64>) -> (r: Vec<
        WorkspaceNode,
    >)
        requires
            old(self).wf(),
        ensures
            final(self).wf(),
            r@.map_values(|w: WorkspaceNode| w@) == read_workspaces_spec(
                old(self)@.store,
                old(self)@.trash,
                owner_id,
                filter,
            ),
            final(self)@ == (CoreModel {
                queue: old(self)@.queue.push(ReconcileJob { owner_id, filter }),
                ..old(self)@
            }),
    {
        let r = reads::read_local_workspaces(&self.store, &self.trash, owner_id, filter);
        self.queue.push(ReconcileJob { owner_id, filter });
        proof {
            assert(self@ =~= (CoreModel {
                queue: old(self)@.queue.push(ReconcileJob { owner_id, filter }),
                ..old(self)@
            }));
        }
        r
    }

    /// Marks `workspace_id` as the current workspace and returns the
    /// refreshed list. Fails with `NotFound`, mutating nothing, when no
    /// matching, non-trashed workspace of the owner exists.
    pub fn open_workspace(&mut self, owner_id: u64, workspace_id: u64) -> (r: Result<
        Vec<WorkspaceNode>,
        FolderError,
    >)
        requires
            old(self).wf(),
        ensures
            final(self).wf(),
            read_workspace_spec(old(self)@.store, old(self)@.trash, owner_id, workspace_id)
                is None ==> r == Err::<Vec<WorkspaceNode>, FolderError>(FolderError::NotFound)
                && final(self)@ == old(self)@,
            read_workspace_spec(old(self)@.store, old(self)@.trash, owner_id, workspace_id)
                is Some ==> ({
                &&& r is Ok
                &&& final(self)@ == (CoreModel {
                    store: StoreModel {
                        current_workspace: Some(workspace_id),
                        ..old(self)@.store
                    },
                    queue: old(self)@.queue.push(
                        ReconcileJob { owner_id, filter: Some(workspace_id) },
                    ),
                    ..old(self)@
                })
                &&& r->Ok_0@.map_values(|w: WorkspaceNode| w@) == read_workspaces_spec(
                    final(self)@.store,
                    final(self)@.trash,
                    owner_id,
                    None::<u64>,
                )
            }),
    {
        let existing = reads::read_local_workspace(&self.store, &self.trash, owner_id,
            workspace_id);
        match existing {
            Err(e) => Err(e),
            Ok(_) => {
                self.store.current_workspace = Some(workspace_id);
                let r = reads::read_local_workspaces(&self.store, &self.trash, owner_id, None);
                self.queue.push(ReconcileJob { owner_id, filter: Some(workspace_id) });
                proof {
                    assert(self@ =~= (CoreModel {
                        store: StoreModel {
                            current_workspace: Some(workspace_id),
                            ..old(self)@.store
                        },
                        queue: old(self)@.queue.push(
                            ReconcileJob { owner_id, filter: Some(workspace_id) },
                        ),
                        ..old(self)@
                    }));
                }
                Ok(r)
            },
        }
    }

    /// The visible apps of the current workspace. Fails with `NotFound` when
    /// nothing is selected or the selection is not readable by this owner.
    pub fn read_current_workspace_apps(&self, owner_id: u64) -> (r: Result<
        Vec<AppNode>,
        FolderError,
    >)
        requires
            self.wf(),
        ensures
            self@.store.current_workspace is None ==> r == Err::<Vec<AppNode>, FolderError>(
                FolderError::NotFound,
            ),
            self@.store.current_workspace matches Some(ws_id) ==> (match r {
                Ok(apps) => read_workspace_spec(self@.store, self@.trash, owner_id, ws_id)
                    is Some && apps@.map_values(|a: AppNode| a@) == app_nodes_spec(
                    self@.store.apps,
                    self@.store.views,
                    self@.trash,
                    ws_id,
                ),
                Err(e) => read_workspace_spec(self@.store, self@.trash, owner_id, ws_id) is None
                    && e == FolderError::NotFound,
            }),
    {
        match self.store.current_workspace {
            None => Err(FolderError::NotFound),
            Some(ws_id) => {
                match reads::read_local_workspace(&self.store, &self.trash, owner_id, ws_id) {
                    Err(e) => Err(e),
                    Ok(_) => Ok(reads::read_apps_of(&self.store, &self.trash, ws_id)),
                }
            },
        }
    }

    /// The current workspace's tree and the most recently visited view (when
    /// recorded, stored and not trashed), read synchronously; a background
    /// refresh for that workspace is enqueued.
    pub fn current_workspace_setting(&mut self, owner_id: u64) -> (r: Result<
        CurrentWorkspaceSetting,
        FolderError,
    >)
        requires
            old(self).wf(),
        ensures
            final(self).wf(),
            old(self)@.store.current_workspace is None ==> r == Err::<
                CurrentWorkspaceSetting,
                FolderError,
            >(FolderError::NotFound) && final(self)@ == old(self)@,
            old(self)@.store.current_workspace matches Some(ws_id) ==> (match r {
                Ok(setting) => {
                    &&& read_workspace_spec(old(self)@.store, old(self)@.trash, owner_id, ws_id)
                        == Some(setting.workspace@)
                    &&& (match setting.latest_view {
                        Some(v) => old(self)@.store.latest_visited_view == Some(v.id)
                            && key_contains(old(self)@.store.views, v.id) && v == key_at(
                            old(self)@.store.views,
                            v.id,
                        ) && !old(self)@.trash.contains(v.id),
                        None => old(self)@.store.latest_visited_view matches Some(vid)
                            ==> !key_contains(old(self)@.store.views, vid) || old(
                            self,
                        )@.trash.contains(vid),
                    })
                    &&& final(self)@ == (CoreModel {
                        queue: old(self)@.queue.push(
                            ReconcileJob { owner_id, filter: Some(ws_id) },
                        ),
                        ..old(self)@
                    })
                },
                Err(e) => read_workspace_spec(old(self)@.store, old(self)@.trash, owner_id, ws_id)
                    is None && e == FolderError::NotFound && final(self)@ == old(self)@,
            }),
    {
        let ws_id = match self.store.current_workspace {
            None => {
                return Err(FolderError::NotFound);
            },
            Some(id) => id,
        };
        let workspace = match reads::read_local_workspace(&self.store, &self.trash, owner_id,
            ws_id) {
            Err(e) => {
                return Err(e);
            },
            Ok(node) => node,
        };
        let latest_view = match self.store.latest_visited_view {
            None => None,
            Some(vid) => {
                match self.store.get_view(vid) {
                    None => None,
                    Some(row) => {
                        if self.trash.is_trashed(vid) {
                            None
                        } else {
                            Some(row)
                        }
                    },
                }
            },
        };
        self.queue.push(ReconcileJob { owner_id, filter: Some(ws_id) });
        proof {
            assert(self@ =~= (CoreModel {
                queue: old(self)@.queue.push(ReconcileJob { owner_id, filter: Some(ws_id) }),
                ..old(self)@
            }));
        }
        Ok(CurrentWorkspaceSetting { workspace, latest_view })
    }

    /// Takes the oldest pending refresh job, if any; the worker loop calls
    /// this, performs the fetch outside the core, and hands the outcome to
    /// `apply_fetch_result`.
    pub fn pop_job(&mut self) -> (r: Option<ReconcileJob>)
        ensures
            old(self)@.queue.len() == 0 ==> r is None && final(self)@ == old(self)@,
            old(self)@.queue.len() > 0 ==> r == Some(old(self)@.queue[0]) && final(self)@
                == (CoreModel { queue: old(self)@.queue.drop_first(), ..old(self)@ }),
    {
        if self.queue.len() == 0 {
            proof {
                assert(self@ =~= old(self)@);
            }
            None
        } else {
            let job = self.queue.remove(0);
            proof {
                assert(self@.queue =~= old(self)@.queue.drop_first());
                assert(self@ =~= (CoreModel {
                    queue: old(self)@.queue.drop_first(),
                    ..old(self)@
                }));
            }
            Some(job)
        }
    }

    /// What one finished fetch does. A fetch failure is contained: it is
    /// reported to the worker for logging and changes nothing — the read
    /// that triggered the refresh has long returned. A fetched batch is
    /// merged atomically, per-item failures are skipped and reported, and
    /// one notification carrying the whole fetched set is delivered to every
    /// subscriber.
    pub fn apply_fetch_result(&mut self, user: u64, fetched: Result<Vec<WorkspaceNode>,
        FolderError>) -> (skipped: Vec<u64>)
        requires
            old(self).wf(),
        ensures
            final(self).wf(),
            fetched is Err ==> final(self)@ == old(self)@ && skipped@.len() == 0,
            fetched matches Ok(batch) ==> ({
                let bm = batch@.map_values(|n: WorkspaceNode| n@);
                &&& (MergeState { store: final(self)@.store, skipped: skipped@ }) == merge_result(
                    old(self)@.store,
                    user,
                    bm,
                )
                &&& final(self)@.trash == old(self)@.trash
                &&& final(self)@.next_id == old(self)@.next_id
                &&& final(self)@.queue == old(self)@.queue
                &&& final(self)@.bus.len() == old(self)@.bus.len()
                &&& forall|i: int|
                    0 <= i < old(self)@.bus.len() ==> final(self)@.bus[i] == (SubscriberModel {
                        id: old(self)@.bus[i].id,
                        inbox: old(self)@.bus[i].inbox.push(
                            NotificationModel {
                                event: FolderEvent::WorkspaceListUpdated,
                                payload: bm,
                            },
                        ),
                    })
            }),
    {
        match fetched {
            Err(_) => Vec::new(),
            Ok(batch) => {
                let skipped = self.store.merge_remote_workspaces(user, &batch);
                let payload = clone_workspace_nodes(&batch);
                let note = Notification { event: FolderEvent::WorkspaceListUpdated, payload };
                proof {
                    assert(note@ =~= (NotificationModel {
                        event: FolderEvent::WorkspaceListUpdated,
                        payload: batch@.map_values(|n: WorkspaceNode| n@),
                    }));
                }
                self.bus.publish(&note);
                skipped
            },
        }
    }
}

} // verus!
