use folder_core::controller::FolderCore;
use folder_core::entities::{AppNode, AppRow, CreateWorkspaceParams, ViewDataType, ViewRow,
    WorkspaceNode, WorkspaceRow};
use folder_core::errors::FolderError;

fn params(name: &str, desc: &str) -> CreateWorkspaceParams {
    CreateWorkspaceParams { name: name.to_string(), desc: desc.to_string() }
}

fn remote_workspace(id: u64, name: &str, apps: Vec<AppNode>) -> WorkspaceNode {
    WorkspaceNode {
        workspace: WorkspaceRow {
            id,
            owner_id: 0,
            name: name.to_string(),
            desc: "".to_string(),
            create_time: 100,
            modified_time: 200,
        },
        apps,
    }
}

fn remote_app(id: u64, workspace_id: u64, name: &str, views: Vec<ViewRow>) -> AppNode {
    AppNode {
        app: AppRow {
            id,
            workspace_id,
            name: name.to_string(),
            desc: "".to_string(),
            version: 1,
            create_time: 100,
            modified_time: 200,
        },
        views,
    }
}

fn remote_view(id: u64, belong_to_id: u64, name: &str) -> ViewRow {
    ViewRow {
        id,
        belong_to_id,
        name: name.to_string(),
        desc: "".to_string(),
        data_type: ViewDataType::TextBlock,
        version: 1,
        create_time: 100,
        modified_time: 200,
        ext_data: "".to_string(),
        thumbnail: "".to_string(),
        plugin_type: 0,
    }
}

#[test]
fn first_workspace_is_seeded_with_default_content() {
    let mut core = FolderCore::new(1);
    let node = core.create_workspace_from_params(7, params("Workspace", "")).unwrap();
    assert_eq!(node.workspace.name, "Workspace");
    assert_eq!(node.apps.len(), 1);
    assert_eq!(node.apps[0].app.name, "⭐️ Getting started");
    assert_eq!(node.apps[0].views.len(), 1);
    assert_eq!(node.apps[0].views[0].name, "Read me");
    assert!(matches!(node.apps[0].views[0].data_type, ViewDataType::TextBlock));

    let read = core.read_workspaces(7, None);
    assert_eq!(read.len(), 1);
    assert_eq!(read[0].workspace.id, node.workspace.id);
    assert_eq!(read[0].workspace.name, "Workspace");
    assert_eq!(read[0].apps.len(), 1);
    assert_eq!(read[0].apps[0].app.name, "⭐️ Getting started");
    assert_eq!(read[0].apps[0].views.len(), 1);
    assert_eq!(read[0].apps[0].views[0].name, "Read me");
}

#[test]
fn second_workspace_is_not_seeded() {
    let mut core = FolderCore::new(1);
    core.create_workspace_from_params(7, params("First", "")).unwrap();
    let second = core.create_workspace_from_params(7, params("Second", "notes")).unwrap();
    assert_eq!(second.workspace.name, "Second");
    assert_eq!(second.workspace.desc, "notes");
    assert_eq!(second.apps.len(), 0);
}

#[test]
fn create_round_trip_returns_input_fields() {
    let mut core = FolderCore::new(10);
    let node = core.create_workspace_from_params(3, params("Plans", "quarterly")).unwrap();
    let read = core.read_workspaces(3, Some(node.workspace.id));
    assert_eq!(read.len(), 1);
    assert_eq!(read[0].workspace.name, "Plans");
    assert_eq!(read[0].workspace.desc, "quarterly");
    assert_eq!(read[0].workspace.owner_id, 3);
    assert_eq!(read[0].workspace.create_time, read[0].workspace.modified_time);
}

#[test]
fn create_with_missing_name_fails_with_invalid_params() {
    let mut core = FolderCore::new(1);
    let r = core.create_workspace_from_params(7, params("", "desc"));
    assert!(matches!(r, Err(FolderError::InvalidParams)));
    assert_eq!(core.read_workspaces(7, None).len(), 0);
}

#[test]
fn create_with_colliding_id_fails_with_conflict() {
    let mut core = FolderCore::new(1);
    core.create_workspace_from_params(7, params("First", "")).unwrap();
    // Rewind the generator so the next id collides with the stored workspace.
    core.ids = folder_core::ids::IdGen::new(1);
    let r = core.create_workspace_from_params(7, params("Again", ""));
    assert!(matches!(r, Err(FolderError::Conflict)));
    let read = core.read_workspaces(7, None);
    assert_eq!(read.len(), 1);
    assert_eq!(read[0].workspace.name, "First");
}

#[test]
fn open_missing_workspace_fails_with_not_found_and_mutates_nothing() {
    let mut core = FolderCore::new(1);
    core.create_workspace_from_params(7, params("Workspace", "")).unwrap();
    let jobs_before = core.queue.len();
    let r = core.open_workspace(7, 999);
    assert!(matches!(r, Err(FolderError::NotFound)));
    assert_eq!(core.queue.len(), jobs_before);
    assert!(core.store.current_workspace.is_none());
}

#[test]
fn open_workspace_selects_and_returns_list() {
    let mut core = FolderCore::new(1);
    let w = core.create_workspace_from_params(7, params("Workspace", "")).unwrap();
    let list = core.open_workspace(7, w.workspace.id).unwrap();
    assert_eq!(list.len(), 1);
    assert_eq!(core.store.current_workspace, Some(w.workspace.id));
}

#[test]
fn current_workspace_setting_returns_tree_and_latest_view() {
    let mut core = FolderCore::new(1);
    let w = core.create_workspace_from_params(7, params("Workspace", "")).unwrap();
    core.open_workspace(7, w.workspace.id).unwrap();
    let setting = core.current_workspace_setting(7).unwrap();
    assert_eq!(setting.workspace.workspace.id, w.workspace.id);
    assert!(setting.latest_view.is_none());

    let view_id = w.apps[0].views[0].id;
    core.store.latest_visited_view = Some(view_id);
    let setting = core.current_workspace_setting(7).unwrap();
    assert_eq!(setting.latest_view.as_ref().unwrap().id, view_id);
    assert_eq!(setting.latest_view.as_ref().unwrap().name, "Read me");

    core.trash.mark_trashed(view_id);
    let setting = core.current_workspace_setting(7).unwrap();
    assert!(setting.latest_view.is_none());
}

#[test]
fn current_setting_without_selection_fails_with_not_found() {
    let mut core = FolderCore::new(1);
    core.create_workspace_from_params(7, params("Workspace", "")).unwrap();
    let r = core.current_workspace_setting(7);
    assert!(matches!(r, Err(FolderError::NotFound)));
}

#[test]
fn read_current_workspace_apps_lists_visible_apps() {
    let mut core = FolderCore::new(1);
    let w = core.create_workspace_from_params(7, params("Workspace", "")).unwrap();
    core.open_workspace(7, w.workspace.id).unwrap();
    let apps = core.read_current_workspace_apps(7).unwrap();
    assert_eq!(apps.len(), 1);
    assert_eq!(apps[0].app.name, "⭐️ Getting started");
}

#[test]
fn merge_updates_and_adds_workspaces_and_notifies_once() {
    let mut core = FolderCore::new(1);
    let w1 = core.create_workspace_from_params(7, params("W1", "")).unwrap();
    core.bus.subscribe(42);

    let payload = vec![
        remote_workspace(w1.workspace.id, "W1 renamed", vec![]),
        remote_workspace(500, "W2", vec![remote_app(501, 500, "Remote app", vec![])]),
    ];
    let skipped = core.apply_fetch_result(7, Ok(payload));
    assert!(skipped.is_empty());

    let read = core.read_workspaces(7, None);
    assert_eq!(read.len(), 2);
    assert_eq!(read[0].workspace.name, "W1 renamed");
    assert_eq!(read[1].workspace.name, "W2");
    assert_eq!(read[1].apps.len(), 1);
    assert_eq!(read[1].apps[0].app.name, "Remote app");

    assert_eq!(core.bus.subscribers.len(), 1);
    assert_eq!(core.bus.subscribers[0].inbox.len(), 1);
    let note = &core.bus.subscribers[0].inbox[0];
    assert_eq!(note.payload.len(), 2);
    assert_eq!(note.payload[0].workspace.name, "W1 renamed");
    assert_eq!(note.payload[1].workspace.name, "W2");
}

#[test]
fn fetch_failure_is_contained_and_changes_nothing() {
    let mut core = FolderCore::new(1);
    core.create_workspace_from_params(7, params("W1", "")).unwrap();
    core.bus.subscribe(42);
    let skipped = core.apply_fetch_result(7, Err(FolderError::RemoteUnavailable));
    assert!(skipped.is_empty());
    assert_eq!(core.bus.subscribers[0].inbox.len(), 0);
    let read = core.read_workspaces(7, None);
    assert_eq!(read.len(), 1);
    assert_eq!(read[0].workspace.name, "W1");
}

#[test]
fn reconcile_jobs_pop_in_order() {
    let mut core = FolderCore::new(1);
    core.create_workspace_from_params(7, params("W1", "")).unwrap();
    assert!(core.pop_job().is_none());
    core.read_workspaces(7, None);
    core.read_workspaces(7, Some(1));
    let j1 = core.pop_job().unwrap();
    assert_eq!(j1.owner_id, 7);
    assert_eq!(j1.filter, None);
    let j2 = core.pop_job().unwrap();
    assert_eq!(j2.filter, Some(1));
    assert!(core.pop_job().is_none());
}

#[test]
fn dangling_reference_fails_with_referential_integrity() {
    let mut core = FolderCore::new(1);
    let r = core.store.upsert_app(remote_app(10, 999, "Orphan", vec![]).app);
    assert!(matches!(r, Err(FolderError::ReferentialIntegrity)));
    let rv = core.store.upsert_view(remote_view(11, 999, "Orphan view"));
    assert!(matches!(rv, Err(FolderError::ReferentialIntegrity)));
}

#[test]
fn open_workspace_of_another_owner_fails_with_not_found() {
    let mut core = FolderCore::new(1);
    let w = core.create_workspace_from_params(7, params("Workspace", "")).unwrap();
    let r = core.open_workspace(8, w.workspace.id);
    assert!(matches!(r, Err(FolderError::NotFound)));
}

#[test]
fn trashed_workspace_is_hidden_from_list_reads() {
    let mut core = FolderCore::new(1);
    let w = core.create_workspace_from_params(7, params("Workspace", "")).unwrap();
    core.trash.mark_trashed(w.workspace.id);
    assert_eq!(core.read_workspaces(7, None).len(), 0);
    core.trash.restore(w.workspace.id);
    let read = core.read_workspaces(7, None);
    assert_eq!(read.len(), 1);
    assert_eq!(read[0].workspace.name, "Workspace");
}
