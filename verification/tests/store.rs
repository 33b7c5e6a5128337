use flowy_workspace::app_controller::AppController;
use flowy_workspace::app_controller::WorkspaceUser;
use flowy_workspace::app_table::AppTable;
use flowy_workspace::app_table::AppTableSql;
use flowy_workspace::entities::CreateAppParams;
use flowy_workspace::entities::UpdateAppParams;
use flowy_workspace::errors::WorkspaceError;
use flowy_workspace::observable::ObservableSender;
use flowy_workspace::observable::WorkspaceObservable;

fn fresh_store() -> AppController {
    AppController::new(
        WorkspaceUser { user_id: "user-1".to_string() },
        AppTableSql::new(),
        ObservableSender::new(),
    )
}

fn params(workspace_id: &str, name: &str, desc: &str) -> CreateAppParams {
    CreateAppParams {
        workspace_id: workspace_id.to_string(),
        name: name.to_string(),
        desc: desc.to_string(),
    }
}

fn record(id: &str, workspace_id: &str, name: &str, desc: &str, is_trash: bool) -> AppTable {
    AppTable {
        id: id.to_string(),
        workspace_id: workspace_id.to_string(),
        name: name.to_string(),
        desc: desc.to_string(),
        version: 0,
        is_trash,
    }
}

#[test]
fn create_then_read_returns_equal_app() {
    let mut store = fresh_store();
    let app = store.create_app(params("w1", "Notes", "some notes")).unwrap();
    let read_back = store.read_app(&app.id, false).unwrap();
    assert_eq!(read_back, app);
}

#[test]
fn create_scenario_generates_fields_and_one_notification() {
    let mut store = fresh_store();
    let app = store.create_app(params("w1", "Notes", "")).unwrap();
    assert_eq!(app.workspace_id, "w1");
    assert_eq!(app.name, "Notes");
    assert_eq!(app.desc, "");
    assert_eq!(app.version, 0);
    assert!(app.belongings.is_empty());
    assert_eq!(store.observable.log.len(), 1);
    assert_eq!(store.observable.log[0].subject_id, "w1");
    assert_eq!(store.observable.log[0].kind, WorkspaceObservable::WorkspaceAddApp);
}

#[test]
fn create_rejects_empty_name() {
    let mut store = fresh_store();
    let r = store.create_app(params("w1", "", "d"));
    assert_eq!(r, Err(WorkspaceError::ValidationError));
    assert!(store.observable.log.is_empty());
}

#[test]
fn create_rejects_empty_workspace_id() {
    let mut store = fresh_store();
    let r = store.create_app(params("", "Notes", "d"));
    assert_eq!(r, Err(WorkspaceError::ValidationError));
}

#[test]
fn generated_ids_are_distinct() {
    let mut store = fresh_store();
    let a = store.create_app(params("w1", "one", "")).unwrap();
    let b = store.create_app(params("w1", "two", "")).unwrap();
    assert_ne!(a.id, b.id);
    assert_eq!(a.id, "0");
    assert_eq!(b.id, "1");
}

#[test]
fn counter_starts_past_seeded_numeric_ids() {
    let mut table = AppTableSql::new();
    table.create_app(record("5", "w1", "seeded", "", false)).unwrap();
    let mut store = AppController::new(
        WorkspaceUser { user_id: "u".to_string() },
        table,
        ObservableSender::new(),
    );
    let app = store.create_app(params("w1", "next", "")).unwrap();
    assert_eq!(app.id, "6");
}

#[test]
fn counter_ignores_non_numeric_ids() {
    let mut table = AppTableSql::new();
    table.create_app(record("a1", "w1", "seeded", "", false)).unwrap();
    let mut store = AppController::new(
        WorkspaceUser { user_id: "u".to_string() },
        table,
        ObservableSender::new(),
    );
    let app = store.create_app(params("w1", "next", "")).unwrap();
    assert_eq!(app.id, "0");
}

#[test]
fn delete_then_read_fails_not_found() {
    let mut store = fresh_store();
    let app = store.create_app(params("w1", "Notes", "")).unwrap();
    store.delete_app(&app.id).unwrap();
    assert_eq!(store.read_app(&app.id, false), Err(WorkspaceError::NotFound));
}

#[test]
fn delete_unknown_id_fails_not_found() {
    let mut store = fresh_store();
    assert_eq!(store.delete_app("missing"), Err(WorkspaceError::NotFound));
    assert_eq!(store.read_app("missing", false), Err(WorkspaceError::NotFound));
}

#[test]
fn delete_twice_fails_the_second_time() {
    let mut store = fresh_store();
    let app = store.create_app(params("w1", "Notes", "")).unwrap();
    assert_eq!(store.delete_app(&app.id), Ok(()));
    assert_eq!(store.delete_app(&app.id), Err(WorkspaceError::NotFound));
}

#[test]
fn delete_emits_no_notification() {
    let mut store = fresh_store();
    let app = store.create_app(params("w1", "Notes", "")).unwrap();
    let sent_before = store.observable.log.len();
    store.delete_app(&app.id).unwrap();
    assert_eq!(store.observable.log.len(), sent_before);
}

#[test]
fn update_name_keeps_other_fields() {
    let mut store = fresh_store();
    let app = store.create_app(params("w1", "Notes", "old desc")).unwrap();
    store
        .update_app(UpdateAppParams { id: app.id.clone(), name: Some("x".to_string()), desc: None })
        .unwrap();
    let read_back = store.read_app(&app.id, false).unwrap();
    assert_eq!(read_back.name, "x");
    assert_eq!(read_back.desc, "old desc");
    assert_eq!(read_back.workspace_id, "w1");
    assert_eq!(read_back.id, app.id);
}

#[test]
fn update_desc_scenario_keeps_name_and_notifies_once() {
    let mut table = AppTableSql::new();
    table.create_app(record("a1", "w1", "Notes", "", false)).unwrap();
    let mut store = AppController::new(
        WorkspaceUser { user_id: "u".to_string() },
        table,
        ObservableSender::new(),
    );
    store
        .update_app(UpdateAppParams {
            id: "a1".to_string(),
            name: None,
            desc: Some("new desc".to_string()),
        })
        .unwrap();
    let read_back = store.read_app("a1", false).unwrap();
    assert_eq!(read_back.name, "Notes");
    assert_eq!(read_back.desc, "new desc");
    assert_eq!(store.observable.log.len(), 1);
    assert_eq!(store.observable.log[0].subject_id, "a1");
    assert_eq!(store.observable.log[0].kind, WorkspaceObservable::AppUpdateDesc);
}

#[test]
fn update_unknown_id_fails_not_found() {
    let mut store = fresh_store();
    let r = store.update_app(UpdateAppParams {
        id: "missing".to_string(),
        name: Some("x".to_string()),
        desc: None,
    });
    assert_eq!(r, Err(WorkspaceError::NotFound));
    assert!(store.observable.log.is_empty());
}

#[test]
fn update_advances_the_version() {
    let mut store = fresh_store();
    let app = store.create_app(params("w1", "Notes", "")).unwrap();
    assert_eq!(app.version, 0);
    store
        .update_app(UpdateAppParams { id: app.id.clone(), name: None, desc: None })
        .unwrap();
    store
        .update_app(UpdateAppParams {
            id: app.id.clone(),
            name: None,
            desc: Some("d".to_string()),
        })
        .unwrap();
    let read_back = store.read_app(&app.id, false).unwrap();
    assert_eq!(read_back.version, 2);
}

#[test]
fn trashed_record_is_hidden_from_normal_reads() {
    let mut table = AppTableSql::new();
    table.create_app(record("t1", "w1", "Trashed", "gone", true)).unwrap();
    let store = AppController::new(
        WorkspaceUser { user_id: "u".to_string() },
        table,
        ObservableSender::new(),
    );
    assert_eq!(store.read_app("t1", false), Err(WorkspaceError::NotFound));
    let seen = store.read_app("t1", true).unwrap();
    assert_eq!(seen.id, "t1");
    assert_eq!(seen.name, "Trashed");
    assert_eq!(seen.desc, "gone");
}

#[test]
fn delete_removes_trashed_records_too() {
    let mut table = AppTableSql::new();
    table.create_app(record("t1", "w1", "Trashed", "", true)).unwrap();
    let mut store = AppController::new(
        WorkspaceUser { user_id: "u".to_string() },
        table,
        ObservableSender::new(),
    );
    assert_eq!(store.delete_app("t1"), Ok(()));
    assert_eq!(store.read_app("t1", true), Err(WorkspaceError::NotFound));
}

#[test]
fn duplicate_id_in_table_fails_persistence() {
    let mut table = AppTableSql::new();
    table.create_app(record("a1", "w1", "first", "", false)).unwrap();
    let r = table.create_app(record("a1", "w2", "second", "", false));
    assert_eq!(r, Err(WorkspaceError::PersistenceError));
    assert_eq!(table.apps.len(), 1);
    assert_eq!(table.apps[0].name, "first");
}

#[test]
fn store_stays_usable_after_a_failed_call() {
    let mut store = fresh_store();
    assert_eq!(store.delete_app("missing"), Err(WorkspaceError::NotFound));
    let app = store.create_app(params("w1", "Notes", "")).unwrap();
    assert_eq!(store.read_app(&app.id, false).unwrap(), app);
}

#[test]
fn error_descriptions() {
    assert_eq!(WorkspaceError::ValidationError.description(), "invalid parameters");
    assert_eq!(WorkspaceError::NotFound.description(), "app not found");
    assert_eq!(WorkspaceError::PersistenceError.description(), "persistence failure");
}
