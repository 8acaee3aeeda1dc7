//! The transactional key-addressed store for the three entity tables.
//!
//! All mutation of folder state goes through methods of [`Store`]; each method
//! either applies its whole effect or, on a typed failure, leaves the store
//! exactly as it was — that is the abort-on-error half of the transaction
//! discipline. Atomicity towards readers comes for free from exclusive
//! (`&mut`) access: no reader can observe a store between two method calls of
//! a compound operation that the controller or reconciler wraps into one
//! `&mut` borrow.

use vstd::prelude::*;

use crate::entities::{AppRow, ViewRow, WorkspaceRow};
use crate::errors::FolderError;
use crate::keyed::{
    find_by_key, key_at, key_contains, key_upsert, keys_unique, upsert_by_key, Keyed,
};

verus! {

impl Keyed for WorkspaceRow {
    open spec fn key(&self) -> u64 {
        self.id
    }

    fn get_key(&self) -> (k: u64) {
        self.id
    }
}

impl Keyed for AppRow {
    open spec fn key(&self) -> u64 {
        self.id
    }

    fn get_key(&self) -> (k: u64) {
        self.id
    }
}

impl Keyed for ViewRow {
    open spec fn key(&self) -> u64 {
        self.id
    }

    fn get_key(&self) -> (k: u64) {
        self.id
    }
}

/// The persisted folder state: three id-keyed tables in display order, plus
/// the process-wide selection pointers, persisted under the same discipline
/// as the tables.
pub struct Store {
    pub workspaces: Vec<WorkspaceRow>,
    pub apps: Vec<AppRow>,
    pub views: Vec<ViewRow>,
    /// The workspace a session is currently viewing, if any.
    pub current_workspace: Option<u64>,
    /// The view most recently visited, if any.
    pub latest_visited_view: Option<u64>,
}

/// Mathematical model of a [`Store`].
#[verifier::ext_equal]
pub ghost struct StoreModel {
    pub workspaces: Seq<WorkspaceRow>,
    pub apps: Seq<AppRow>,
    pub views: Seq<ViewRow>,
    pub current_workspace: Option<u64>,
    pub latest_visited_view: Option<u64>,
}

impl View for Store {
    type V = StoreModel;

    open spec fn view(&self) -> StoreModel {
        StoreModel {
            workspaces: self.workspaces@,
            apps: self.apps@,
            views: self.views@,
            current_workspace: self.current_workspace,
            latest_visited_view: self.latest_visited_view,
        }
    }
}

/// Every table keeps its keys pairwise distinct.
pub open spec fn store_wf(m: StoreModel) -> bool {
    &&& keys_unique(m.workspaces)
    &&& keys_unique(m.apps)
    &&& keys_unique(m.views)
}

/// The parent-reference invariant over the whole store: every app hangs off
/// a stored workspace, every view off a stored app or view. Writes enforce
/// it row by row, and rows are never removed, so it holds globally.
pub open spec fn store_refs_ok(m: StoreModel) -> bool {
    &&& forall|i: int|
        0 <= i < m.apps.len() ==> #[trigger] key_contains(m.workspaces, m.apps[i].workspace_id)
    &&& forall|i: int|
        0 <= i < m.views.len() ==> #[trigger] key_contains(m.apps, m.views[i].belong_to_id)
            || key_contains(m.views, m.views[i].belong_to_id)
}

/// An app row may be written only under an existing workspace.
pub open spec fn app_parent_ok(m: StoreModel, app: AppRow) -> bool {
    key_contains(m.workspaces, app.workspace_id)
}

/// A view row may be written only under an existing app, or under an existing
/// view when views nest.
pub open spec fn view_parent_ok(m: StoreModel, view: ViewRow) -> bool {
    key_contains(m.apps, view.belong_to_id) || key_contains(m.views, view.belong_to_id)
}

/// Upserting a key preserves (and possibly extends) key membership.
pub proof fn lemma_upsert_monotone<T: Keyed>(s: Seq<T>, row: T, k: u64)
    requires
        keys_unique(s),
        key_contains(s, k) || k == row.key(),
    ensures
        key_contains(key_upsert(s, row), k),
{
    crate::keyed::lemma_upsert(s, row);
}

/// A workspace write cannot break any parent reference: workspace keys only
/// grow and the other tables are untouched.
pub proof fn lemma_refs_ok_upsert_workspace(m: StoreModel, row: WorkspaceRow)
    requires
        store_wf(m),
        store_refs_ok(m),
    ensures
        store_refs_ok(StoreModel { workspaces: key_upsert(m.workspaces, row), ..m }),
{
    let m2 = StoreModel { workspaces: key_upsert(m.workspaces, row), ..m };
    assert forall|i: int| 0 <= i < m2.apps.len() implies #[trigger] key_contains(
        m2.workspaces,
        m2.apps[i].workspace_id,
    ) by {
        lemma_upsert_monotone(m.workspaces, row, m.apps[i].workspace_id);
    }
}

/// An app write with a valid parent cannot break any parent reference.
pub proof fn lemma_refs_ok_upsert_app(m: StoreModel, row: AppRow)
    requires
        store_wf(m),
        store_refs_ok(m),
        app_parent_ok(m, row),
    ensures
        store_refs_ok(StoreModel { apps: key_upsert(m.apps, row), ..m }),
{
    let m2 = StoreModel { apps: key_upsert(m.apps, row), ..m };
    crate::keyed::lemma_upsert(m.apps, row);
    assert forall|i: int| 0 <= i < m2.apps.len() implies #[trigger] key_contains(
        m2.workspaces,
        m2.apps[i].workspace_id,
    ) by {
        if key_contains(m.apps, row.id) {
            let j = crate::keyed::key_index(m.apps, row.id);
            if i != j {
                assert(m2.apps[i] == m.apps[i]);
            }
        } else {
            if i < m.apps.len() {
                assert(m2.apps[i] == m.apps[i]);
            }
        }
    }
    assert forall|i: int| 0 <= i < m2.views.len() implies #[trigger] key_contains(
        m2.apps,
        m2.views[i].belong_to_id,
    ) || key_contains(m2.views, m2.views[i].belong_to_id) by {
        if key_contains(m.apps, m.views[i].belong_to_id) {
            lemma_upsert_monotone(m.apps, row, m.views[i].belong_to_id);
        }
    }
}

/// A view write with a valid parent cannot break any parent reference.
pub proof fn lemma_refs_ok_upsert_view(m: StoreModel, row: ViewRow)
    requires
        store_wf(m),
        store_refs_ok(m),
        view_parent_ok(m, row),
    ensures
        store_refs_ok(StoreModel { views: key_upsert(m.views, row), ..m }),
{
    let m2 = StoreModel { views: key_upsert(m.views, row), ..m };
    crate::keyed::lemma_upsert(m.views, row);
    assert forall|i: int| 0 <= i < m2.views.len() implies #[trigger] key_contains(
        m2.apps,
        m2.views[i].belong_to_id,
    ) || key_contains(m2.views, m2.views[i].belong_to_id) by {
        let old_row_here: bool = if key_contains(m.views, row.id) {
            let j = crate::keyed::key_index(m.views, row.id);
            i != j
        } else {
            i < m.views.len()
        };
        if old_row_here {
            assert(m2.views[i] == m.views[i]);
            if key_contains(m.views, m.views[i].belong_to_id) {
                lemma_upsert_monotone(m.views, row, m.views[i].belong_to_id);
            }
        } else {
            if key_contains(m.views, row.belong_to_id) {
                lemma_upsert_monotone(m.views, row, row.belong_to_id);
            }
        }
    }
}

impl Store {
    pub open spec fn wf(&self) -> bool {
        store_wf(self@)
    }

    /// An empty store: no entities, nothing selected.
    pub fn new() -> (s: Store)
        ensures
            s@ == (StoreModel {
                workspaces: Seq::<WorkspaceRow>::empty(),
                apps: Seq::<AppRow>::empty(),
                views: Seq::<ViewRow>::empty(),
                current_workspace: None::<u64>,
                latest_visited_view: None::<u64>,
            }),
            s.wf(),
    {
        let s = Store {
            workspaces: Vec::new(),
            apps: Vec::new(),
            views: Vec::new(),
            current_workspace: None,
            latest_visited_view: None,
        };
        proof {
            assert(s@ =~= (StoreModel {
                workspaces: Seq::<WorkspaceRow>::empty(),
                apps: Seq::<AppRow>::empty(),
                views: Seq::<ViewRow>::empty(),
                current_workspace: None::<u64>,
                latest_visited_view: None::<u64>,
            }));
        }
        s
    }

    /// Whether a workspace row is stored under `id`.
    pub fn contains_workspace(&self, id: u64) -> (r: bool)
        requires
            self.wf(),
        ensures
            r == key_contains(self@.workspaces, id),
    {
        find_by_key(&self.workspaces, id).is_some()
    }

    /// Whether an app row is stored under `id`.
    pub fn contains_app(&self, id: u64) -> (r: bool)
        requires
            self.wf(),
        ensures
            r == key_contains(self@.apps, id),
    {
        find_by_key(&self.apps, id).is_some()
    }

    /// Whether a view row is stored under `id`.
    pub fn contains_view(&self, id: u64) -> (r: bool)
        requires
            self.wf(),
        ensures
            r == key_contains(self@.views, id),
    {
        find_by_key(&self.views, id).is_some()
    }

    /// Writes a workspace row, replacing any row under the same id in place.
    /// A workspace has no parent, so this write cannot fail.
    pub fn upsert_workspace(&mut self, row: WorkspaceRow)
        requires
            old(self).wf(),
        ensures
            final(self).wf(),
            final(self)@ == (StoreModel {
                workspaces: key_upsert(old(self)@.workspaces, row),
                ..old(self)@
            }),
    {
        upsert_by_key(&mut self.workspaces, row);
        proof {
            assert(self@ =~= (StoreModel {
                workspaces: key_upsert(old(self)@.workspaces, row),
                ..old(self)@
            }));
        }
    }

    /// Writes an app row, replacing any row under the same id in place.
    /// Fails with `ReferentialIntegrity`, changing nothing, when the
    /// workspace back-reference dangles.
    pub fn upsert_app(&mut self, row: AppRow) -> (r: Result<(), FolderError>)
        requires
            old(self).wf(),
        ensures
            final(self).wf(),
            r is Ok <==> app_parent_ok(old(self)@, row),
            r is Ok ==> final(self)@ == (StoreModel {
                apps: key_upsert(old(self)@.apps, row),
                ..old(self)@
            }),
            r is Err ==> final(self)@ == old(self)@ && r == Err::<(), FolderError>(
                FolderError::ReferentialIntegrity,
            ),
    {
        if !self.contains_workspace(row.workspace_id) {
            return Err(FolderError::ReferentialIntegrity);
        }
        upsert_by_key(&mut self.apps, row);
        proof {
            assert(self@ =~= (StoreModel { apps: key_upsert(old(self)@.apps, row), ..old(self)@ }));
        }
        Ok(())
    }

    /// Writes a view row, replacing any row under the same id in place.
    /// Fails with `ReferentialIntegrity`, changing nothing, when the
    /// `belong_to_id` back-reference names neither an app nor a view.
    pub fn upsert_view(&mut self, row: ViewRow) -> (r: Result<(), FolderError>)
        requires
            old(self).wf(),
        ensures
            final(self).wf(),
            r is Ok <==> view_parent_ok(old(self)@, row),
            r is Ok ==> final(self)@ == (StoreModel {
                views: key_upsert(old(self)@.views, row),
                ..old(self)@
            }),
            r is Err ==> final(self)@ == old(self)@ && r == Err::<(), FolderError>(
                FolderError::ReferentialIntegrity,
            ),
    {
        if !self.contains_app(row.belong_to_id) && !self.contains_view(row.belong_to_id) {
            return Err(FolderError::ReferentialIntegrity);
        }
        upsert_by_key(&mut self.views, row);
        proof {
            assert(self@ =~= (StoreModel {
                views: key_upsert(old(self)@.views, row),
                ..old(self)@
            }));
        }
        Ok(())
    }

    /// Reads the workspace row stored under `id`, if any.
    pub fn get_workspace(&self, id: u64) -> (r: Option<WorkspaceRow>)
        requires
            self.wf(),
        ensures
            match r {
                Some(row) => key_contains(self@.workspaces, id) && row == key_at(
                    self@.workspaces,
                    id,
                ),
                None => !key_contains(self@.workspaces, id),
            },
    {
        match find_by_key(&self.workspaces, id) {
            Some(i) => Some(self.workspaces[i].clone()),
            None => None,
        }
    }

    /// Reads the view row stored under `id`, if any.
    pub fn get_view(&self, id: u64) -> (r: Option<ViewRow>)
        requires
            self.wf(),
        ensures
            match r {
                Some(row) => key_contains(self@.views, id) && row == key_at(self@.views, id),
                None => !key_contains(self@.views, id),
            },
    {
        match find_by_key(&self.views, id) {
            Some(i) => Some(self.views[i].clone()),
            None => None,
        }
    }
}

} // verus!
