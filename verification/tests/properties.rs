use folder_core::controller::FolderCore;
use folder_core::entities::{AppNode, AppRow, CreateWorkspaceParams, ViewDataType, ViewRow,
    WorkspaceNode, WorkspaceRow};

fn ws_params(name: &str) -> CreateWorkspaceParams {
    CreateWorkspaceParams { name: name.to_string(), desc: "".to_string() }
}

fn node(id: u64, name: &str, apps: Vec<AppNode>) -> WorkspaceNode {
    WorkspaceNode {
        workspace: WorkspaceRow {
            id,
            owner_id: 0,
            name: name.to_string(),
            desc: "".to_string(),
            create_time: 50,
            modified_time: 60,
        },
        apps,
    }
}

fn app(id: u64, workspace_id: u64, name: &str, views: Vec<ViewRow>) -> AppNode {
    AppNode {
        app: AppRow {
            id,
            workspace_id,
            name: name.to_string(),
            desc: "".to_string(),
            version: 0,
            create_time: 50,
            modified_time: 60,
        },
        views,
    }
}

fn view(id: u64, belong_to_id: u64, name: &str) -> ViewRow {
    ViewRow {
        id,
        belong_to_id,
        name: name.to_string(),
        desc: "".to_string(),
        data_type: ViewDataType::Grid,
        version: 0,
        create_time: 50,
        modified_time: 60,
        ext_data: "".to_string(),
        thumbnail: "".to_string(),
        plugin_type: 0,
    }
}

fn payload() -> Vec<WorkspaceNode> {
    vec![
        node(100, "Alpha", vec![
            app(110, 100, "A1", vec![view(111, 110, "V1"), view(112, 110, "V2")]),
            app(120, 100, "A2", vec![]),
        ]),
        node(200, "Beta", vec![app(210, 200, "B1", vec![view(211, 210, "V3")])]),
    ]
}

#[test]
fn trashed_app_disappears_and_restore_brings_it_back_unchanged() {
    let mut core = FolderCore::new(1);
    core.apply_fetch_result(7, Ok(payload()));

    let before = core.read_workspaces(7, Some(100));
    assert_eq!(before[0].apps.len(), 2);

    core.trash.mark_trashed(110);
    let during = core.read_workspaces(7, Some(100));
    assert_eq!(during[0].apps.len(), 1);
    assert_eq!(during[0].apps[0].app.id, 120);

    core.trash.restore(110);
    let after = core.read_workspaces(7, Some(100));
    assert_eq!(after[0].apps.len(), 2);
    assert_eq!(after[0].apps[0].app.id, 110);
    assert_eq!(after[0].apps[0].app.name, "A1");
    assert_eq!(after[0].apps[0].app.modified_time, 60);
    assert_eq!(after[0].apps[0].views.len(), 2);
}

#[test]
fn trashed_view_is_filtered_from_its_app() {
    let mut core = FolderCore::new(1);
    core.apply_fetch_result(7, Ok(payload()));
    core.trash.mark_trashed(112);
    let read = core.read_workspaces(7, Some(100));
    assert_eq!(read[0].apps[0].views.len(), 1);
    assert_eq!(read[0].apps[0].views[0].id, 111);
}

#[test]
fn merging_the_same_payload_twice_is_idempotent() {
    let mut core = FolderCore::new(1);
    core.apply_fetch_result(7, Ok(payload()));
    let once = core.read_workspaces(7, None);

    core.apply_fetch_result(7, Ok(payload()));
    let twice = core.read_workspaces(7, None);

    assert_eq!(once.len(), twice.len());
    for (a, b) in once.iter().zip(twice.iter()) {
        assert_eq!(a.workspace.id, b.workspace.id);
        assert_eq!(a.workspace.name, b.workspace.name);
        assert_eq!(a.workspace.modified_time, b.workspace.modified_time);
        assert_eq!(a.apps.len(), b.apps.len());
        for (x, y) in a.apps.iter().zip(b.apps.iter()) {
            assert_eq!(x.app.id, y.app.id);
            assert_eq!(x.app.modified_time, y.app.modified_time);
            assert_eq!(x.views.len(), y.views.len());
            for (v, w) in x.views.iter().zip(y.views.iter()) {
                assert_eq!(v.id, w.id);
                assert_eq!(v.modified_time, w.modified_time);
            }
        }
    }
    assert_eq!(core.store.workspaces.len(), 2);
    assert_eq!(core.store.apps.len(), 3);
    assert_eq!(core.store.views.len(), 3);
}

#[test]
fn one_dangling_app_is_skipped_and_the_rest_commits() {
    let mut core = FolderCore::new(1);
    let batch = vec![
        node(100, "Alpha", vec![app(110, 100, "Good", vec![view(111, 110, "V1")])]),
        node(200, "Beta", vec![
            app(210, 999, "Dangling", vec![view(211, 210, "Orphan view")]),
            app(220, 200, "Also good", vec![]),
        ]),
    ];
    let skipped = core.apply_fetch_result(7, Ok(batch));
    assert_eq!(skipped, vec![210]);

    let read = core.read_workspaces(7, None);
    assert_eq!(read.len(), 2);
    assert_eq!(read[0].workspace.name, "Alpha");
    assert_eq!(read[0].apps.len(), 1);
    assert_eq!(read[0].apps[0].views.len(), 1);
    assert_eq!(read[1].workspace.name, "Beta");
    assert_eq!(read[1].apps.len(), 1);
    assert_eq!(read[1].apps[0].app.id, 220);
    assert_eq!(core.store.views.len(), 1);
}

#[test]
fn merge_keeps_display_order_when_updating_in_place() {
    let mut core = FolderCore::new(1);
    core.apply_fetch_result(7, Ok(payload()));
    // A remote update of A1 alone must not move it behind A2.
    let update = vec![node(100, "Alpha", vec![app(110, 100, "A1 renamed", vec![])])];
    core.apply_fetch_result(7, Ok(update));
    let read = core.read_workspaces(7, Some(100));
    assert_eq!(read[0].apps.len(), 2);
    assert_eq!(read[0].apps[0].app.id, 110);
    assert_eq!(read[0].apps[0].app.name, "A1 renamed");
    assert_eq!(read[0].apps[1].app.id, 120);
}

#[test]
fn merge_adopts_workspaces_for_the_local_user() {
    let mut core = FolderCore::new(1);
    core.apply_fetch_result(9, Ok(payload()));
    let read = core.read_workspaces(9, None);
    assert_eq!(read.len(), 2);
    assert_eq!(read[0].workspace.owner_id, 9);
}

#[test]
fn late_subscriber_receives_no_past_events() {
    let mut core = FolderCore::new(1);
    core.apply_fetch_result(7, Ok(payload()));
    core.bus.subscribe(1);
    core.apply_fetch_result(7, Ok(payload()));
    core.bus.subscribe(2);
    assert_eq!(core.bus.subscribers[0].inbox.len(), 1);
    assert_eq!(core.bus.subscribers[1].inbox.len(), 0);
}

#[test]
fn default_workspace_factory_builds_the_seed_tree() {
    let mut ids = folder_core::ids::IdGen::new(40);
    let w = folder_core::defaults::create_default_workspace(7, &mut ids);
    assert_eq!(w.workspace.id, 40);
    assert_eq!(w.workspace.owner_id, 7);
    assert_eq!(w.workspace.name, "Workspace");
    assert_eq!(w.workspace.create_time, w.workspace.modified_time);
    assert_eq!(w.apps.len(), 1);
    assert_eq!(w.apps[0].app.id, 41);
    assert_eq!(w.apps[0].app.workspace_id, 40);
    assert_eq!(w.apps[0].app.name, "⭐️ Getting started");
    assert_eq!(w.apps[0].views.len(), 1);
    assert_eq!(w.apps[0].views[0].id, 42);
    assert_eq!(w.apps[0].views[0].belong_to_id, 41);
    assert_eq!(w.apps[0].views[0].name, "Read me");
    assert!(matches!(w.apps[0].views[0].data_type, ViewDataType::TextBlock));
}

#[test]
fn reads_are_scoped_to_the_owner() {
    let mut core = FolderCore::new(1);
    core.create_workspace_from_params(7, ws_params("Mine")).unwrap();
    let other = core.read_workspaces(8, None);
    assert_eq!(other.len(), 0);
}
