//! Entity rows of the three-level folder tree, and the assembled tree nodes.
//!
//! Rows are the flat, persisted form (each table keyed by id, children linked
//! by a back-reference). Nodes are the assembled form handed to callers and
//! received from the remote authority: a workspace with its apps, each app
//! with its views.

use vstd::prelude::*;

verus! {

/// The kind of content a view renders.
#[derive(Clone, Copy, Debug, PartialEq, Eq, Structural)]
pub enum ViewDataType {
    TextBlock,
    Grid,
}

/// Persisted form of a workspace: the root of one content tree.
pub struct WorkspaceRow {
    /// Globally unique identifier, immutable after creation.
    pub id: u64,
    /// The user that owns this workspace.
    pub owner_id: u64,
    pub name: String,
    pub desc: String,
    /// Immutable creation instant, in seconds since the Unix epoch.
    pub create_time: i64,
    /// Monotonically non-decreasing across updates to the same entity.
    pub modified_time: i64,
}

/// Persisted form of an app. Owned by its parent workspace for lifecycle
/// purposes but stored independently, linked by `workspace_id`.
pub struct AppRow {
    pub id: u64,
    /// Back-reference: must name an existing workspace at write time.
    pub workspace_id: u64,
    pub name: String,
    pub desc: String,
    pub version: u64,
    pub create_time: i64,
    pub modified_time: i64,
}

/// Persisted form of a view. Owned by its parent app (or parent view, for
/// nested views), linked by `belong_to_id`.
///
/// A nested view is storable — its `belong_to_id` names a parent view, and
/// the write-time integrity check accepts that — but tree reads assemble
/// only the views directly under an app, so nested views never appear in a
/// read result; they are reachable through their own identifiers.
pub struct ViewRow {
    pub id: u64,
    /// Back-reference: must name an existing app or view at write time.
    pub belong_to_id: u64,
    pub name: String,
    pub desc: String,
    pub data_type: ViewDataType,
    pub version: u64,
    pub create_time: i64,
    pub modified_time: i64,
    pub ext_data: String,
    pub thumbnail: String,
    pub plugin_type: u64,
}

/// A user-driven workspace creation request.
pub struct CreateWorkspaceParams {
    pub name: String,
    pub desc: String,
}

impl CreateWorkspaceParams {
    /// A creation request is well-formed when the required `name` is present.
    pub open spec fn is_valid(&self) -> bool {
        self.name@.len() > 0
    }
}

/// An app together with its visible views, as assembled for a reader or as
/// supplied by the remote authority.
pub struct AppNode {
    pub app: AppRow,
    pub views: Vec<ViewRow>,
}

/// A workspace together with its visible apps.
pub struct WorkspaceNode {
    pub workspace: WorkspaceRow,
    pub apps: Vec<AppNode>,
}

/// Mathematical model of an [`AppNode`].
pub ghost struct AppNodeModel {
    pub app: AppRow,
    pub views: Seq<ViewRow>,
}

/// Mathematical model of a [`WorkspaceNode`].
pub ghost struct WorkspaceNodeModel {
    pub workspace: WorkspaceRow,
    pub apps: Seq<AppNodeModel>,
}

impl View for AppNode {
    type V = AppNodeModel;

    open spec fn view(&self) -> AppNodeModel {
        AppNodeModel { app: self.app, views: self.views@ }
    }
}

impl View for WorkspaceNode {
    type V = WorkspaceNodeModel;

    open spec fn view(&self) -> WorkspaceNodeModel {
        WorkspaceNodeModel {
            workspace: self.workspace,
            apps: self.apps@.map_values(|a: AppNode| a@),
        }
    }
}

impl Clone for WorkspaceRow {
    fn clone(&self) -> (r: Self)
        ensures
            r == *self,
    {
        WorkspaceRow {
            id: self.id,
            owner_id: self.owner_id,
            name: self.name.clone(),
            desc: self.desc.clone(),
            create_time: self.create_time,
            modified_time: self.modified_time,
        }
    }
}

impl Clone for AppRow {
    fn clone(&self) -> (r: Self)
        ensures
            r == *self,
    {
        AppRow {
            id: self.id,
            workspace_id: self.workspace_id,
            name: self.name.clone(),
            desc: self.desc.clone(),
            version: self.version,
            create_time: self.create_time,
            modified_time: self.modified_time,
        }
    }
}

impl Clone for ViewRow {
    fn clone(&self) -> (r: Self)
        ensures
            r == *self,
    {
        ViewRow {
            id: self.id,
            belong_to_id: self.belong_to_id,
            name: self.name.clone(),
            desc: self.desc.clone(),
            data_type: self.data_type,
            version: self.version,
            create_time: self.create_time,
            modified_time: self.modified_time,
            ext_data: self.ext_data.clone(),
            thumbnail: self.thumbnail.clone(),
            plugin_type: self.plugin_type,
        }
    }
}

impl Clone for CreateWorkspaceParams {
    fn clone(&self) -> (r: Self)
        ensures
            r == *self,
    {
        CreateWorkspaceParams { name: self.name.clone(), desc: self.desc.clone() }
    }
}

/// Copies a table slice of view rows.
pub fn clone_view_rows(v: &Vec<ViewRow>) -> (r: Vec<ViewRow>)
    ensures
        r@ == v@,
{
    let mut r: Vec<ViewRow> = Vec::new();
    let mut i: usize = 0;
    while i < v.len()
        invariant
            i <= v.len(),
            r@ == v@.take(i as int),
        decreases v.len() - i,
    {
        r.push(v[i].clone());
        proof {
            assert(v@.take(i + 1 as int) =~= v@.take(i as int).push(v@[i as int]));
        }
        i = i + 1;
    }
    proof {
        assert(v@.take(v.len() as int) =~= v@);
    }
    r
}

impl Clone for AppNode {
    fn clone(&self) -> (r: Self)
        ensures
            r@ == self@,
    {
        AppNode { app: self.app.clone(), views: clone_view_rows(&self.views) }
    }
}

/// Copies an assembled app list, preserving its model.
pub fn clone_app_nodes(v: &Vec<AppNode>) -> (r: Vec<AppNode>)
    ensures
        r@.map_values(|a: AppNode| a@) == v@.map_values(|a: AppNode| a@),
{
    let mut r: Vec<AppNode> = Vec::new();
    let mut i: usize = 0;
    while i < v.len()
        invariant
            i <= v.len(),
            r@.len() == i,
            forall|j: int| 0 <= j < i ==> r@[j]@ == v@[j]@,
        decreases v.len() - i,
    {
        r.push(v[i].clone());
        i = i + 1;
    }
    proof {
        assert(r@.map_values(|a: AppNode| a@) =~= v@.map_values(|a: AppNode| a@));
    }
    r
}

impl Clone for WorkspaceNode {
    fn clone(&self) -> (r: Self)
        ensures
            r@ == self@,
    {
        WorkspaceNode { workspace: self.workspace.clone(), apps: clone_app_nodes(&self.apps) }
    }
}

/// Copies an assembled workspace list, preserving its model.
pub fn clone_workspace_nodes(v: &Vec<WorkspaceNode>) -> (r: Vec<WorkspaceNode>)
    ensures
        r@.map_values(|w: WorkspaceNode| w@) == v@.map_values(|w: WorkspaceNode| w@),
{
    let mut r: Vec<WorkspaceNode> = Vec::new();
    let mut i: usize = 0;
    while i < v.len()
        invariant
            i <= v.len(),
            r@.len() == i,
            forall|j: int| 0 <= j < i ==> r@[j]@ == v@[j]@,
        decreases v.len() - i,
    {
        r.push(v[i].clone());
        i = i + 1;
    }
    proof {
        assert(r@.map_values(|w: WorkspaceNode| w@) =~= v@.map_values(|w: WorkspaceNode| w@));
    }
    r
}

} // verus!
