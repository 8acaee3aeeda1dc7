//! Default seed content for a user's first workspace.
//!
//! A brand-new user gets one app with one text view inside the created
//! workspace; the fixed names below are what a reader sees first.

use vstd::prelude::*;

use crate::entities::{AppNode, AppRow, ViewDataType, ViewRow, WorkspaceNode, WorkspaceRow};
use crate::ids::IdGen;

verus! {

/// Relies on `chrono::Utc::now` and `chrono::DateTime::timestamp`: seconds
/// since the Unix epoch of the current wall clock. The value depends on the
/// clock, so nothing is promised of it.
#[verifier::external_body]
pub(crate) fn now_timestamp() -> i64 {
    chrono::Utc::now().timestamp()
}

/// The default view of the default app, at instant `time`.
pub fn create_default_view(app_id: u64, view_id: u64, time: i64) -> (v: ViewRow)
    ensures
        v.id == view_id,
        v.belong_to_id == app_id,
        v.name@ == "Read me"@,
        v.desc@ == ""@,
        v.data_type == ViewDataType::TextBlock,
        v.version == 0,
        v.create_time == time,
        v.modified_time == time,
        v.ext_data@ == ""@,
        v.thumbnail@ == ""@,
        v.plugin_type == 0,
{
    ViewRow {
        id: view_id,
        belong_to_id: app_id,
        name: "Read me".to_string(),
        desc: "".to_string(),
        data_type: ViewDataType::TextBlock,
        version: 0,
        create_time: time,
        modified_time: time,
        ext_data: "".to_string(),
        thumbnail: "".to_string(),
        plugin_type: 0,
    }
}

/// The default app of a first workspace, holding one default view.
pub fn create_default_app(workspace_id: u64, app_id: u64, view_id: u64, time: i64) -> (a: AppNode)
    ensures
        a.app.id == app_id,
        a.app.workspace_id == workspace_id,
        a.app.name@ == "⭐️ Getting started"@,
        a.app.desc@ == ""@,
        a.app.version == 0,
        a.app.create_time == time,
        a.app.modified_time == time,
        a.views@.len() == 1,
        a.views@[0].id == view_id,
        a.views@[0].belong_to_id == app_id,
        a.views@[0].name@ == "Read me"@,
        a.views@[0].desc@ == ""@,
        a.views@[0].data_type == ViewDataType::TextBlock,
        a.views@[0].version == 0,
        a.views@[0].create_time == time,
        a.views@[0].modified_time == time,
        a.views@[0].ext_data@ == ""@,
        a.views@[0].thumbnail@ == ""@,
        a.views@[0].plugin_type == 0,
{
    let view = create_default_view(app_id, view_id, time);
    let app = AppRow {
        id: app_id,
        workspace_id,
        name: "⭐️ Getting started".to_string(),
        desc: "".to_string(),
        version: 0,
        create_time: time,
        modified_time: time,
    };
    AppNode { app, views: vec![view] }
}

/// A whole default workspace tree for `owner_id`, stamped with the clock.
/// The workspace name is the fixed default; identifiers come from `ids`.
pub fn create_default_workspace(owner_id: u64, ids: &mut IdGen) -> (w: WorkspaceNode)
    requires
        old(ids).next <= u64::MAX - 3,
    ensures
        final(ids).next == old(ids).next + 3,
        w.workspace.id == old(ids).next,
        w.workspace.owner_id == owner_id,
        w.workspace.name@ == "Workspace"@,
        w.workspace.desc@ == ""@,
        w.workspace.create_time == w.workspace.modified_time,
        w.apps@.len() == 1,
        w.apps@[0]@.app.id == old(ids).next + 1,
        w.apps@[0]@.app.workspace_id == old(ids).next,
        w.apps@[0]@.app.name@ == "⭐️ Getting started"@,
        w.apps@[0]@.app.desc@ == ""@,
        w.apps@[0]@.app.version == 0,
        w.apps@[0]@.app.create_time == w.workspace.create_time,
        w.apps@[0]@.app.modified_time == w.workspace.create_time,
        w.apps@[0]@.views.len() == 1,
        w.apps@[0]@.views[0].id == old(ids).next + 2,
        w.apps@[0]@.views[0].belong_to_id == old(ids).next + 1,
        w.apps@[0]@.views[0].name@ == "Read me"@,
        w.apps@[0]@.views[0].desc@ == ""@,
        w.apps@[0]@.views[0].data_type == ViewDataType::TextBlock,
        w.apps@[0]@.views[0].version == 0,
        w.apps@[0]@.views[0].create_time == w.workspace.create_time,
        w.apps@[0]@.views[0].modified_time == w.workspace.create_time,
        w.apps@[0]@.views[0].ext_data@ == ""@,
        w.apps@[0]@.views[0].thumbnail@ == ""@,
        w.apps@[0]@.views[0].plugin_type == 0,
{
    let time = now_timestamp();
    let workspace_id = ids.fresh();
    let app_id = ids.fresh();
    let view_id = ids.fresh();
    let app = create_default_app(workspace_id, app_id, view_id, time);
    let workspace = WorkspaceRow {
        id: workspace_id,
        owner_id,
        name: "Workspace".to_string(),
        desc: "".to_string(),
        create_time: time,
        modified_time: time,
    };
    WorkspaceNode { workspace, apps: vec![app] }
}

} // verus!
