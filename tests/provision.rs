use workflowy_desktop::paths::{
    bundled_server_path, database_path, get_server_path, join_path, server_path,
};
use workflowy_desktop::provision::{plan_provision, provision_step, ProvisionAction, ProvisionEvent};

fn plan() -> workflowy_desktop::provision::ProvisionPlan {
    plan_provision(Ok("/home/u/.data".to_string()), Ok("/opt/app/res".to_string())).ok().unwrap()
}

#[test]
fn paths_are_joined() {
    assert_eq!(join_path("/a", "b"), "/a/b");
    assert_eq!(join_path("/a/", "b"), "/a/b");
    assert_eq!(join_path("", "b"), "b");
    assert_eq!(server_path("/d"), "/d/server.cjs");
    assert_eq!(database_path("/d"), "/d/bookmarks.db");
    assert_eq!(bundled_server_path("/r"), "/r/_up_/dist-mcp/server.cjs");
}

#[test]
fn server_path_or_failure() {
    assert_eq!(get_server_path(Ok("/d".to_string())), Ok("/d/server.cjs".to_string()));
    assert_eq!(
        get_server_path(Err("no home".to_string())),
        Err("Failed to get app data dir: no home".to_string())
    );
}

#[test]
fn plan_reports_unresolved_directories() {
    let e = plan_provision(Err("x".to_string()), Ok("/r".to_string())).err().unwrap();
    assert_eq!(e, "Failed to get app data dir: x");
    let e = plan_provision(Ok("/d".to_string()), Err("y".to_string())).err().unwrap();
    assert_eq!(e, "Failed to get resource dir: y");
}

#[test]
fn absent_source_returns_destination_without_copy() {
    let p = plan();
    match provision_step(&p, ProvisionEvent::Started) {
        ProvisionAction::CheckSource(s) => assert_eq!(s, "/opt/app/res/_up_/dist-mcp/server.cjs"),
        _ => panic!("expected a check of the source"),
    }
    match provision_step(&p, ProvisionEvent::SourceChecked(false)) {
        ProvisionAction::Finish(r) => assert_eq!(r, Ok("/home/u/.data/server.cjs".to_string())),
        _ => panic!("expected the end"),
    }
}

#[test]
fn present_source_is_copied_over_destination() {
    let p = plan();
    match provision_step(&p, ProvisionEvent::SourceChecked(true)) {
        ProvisionAction::CreateDir(d) => assert_eq!(d, "/home/u/.data"),
        _ => panic!("expected a directory"),
    }
    match provision_step(&p, ProvisionEvent::DirCreated(Ok(()))) {
        ProvisionAction::CopyFile { from, to } => {
            assert_eq!(from, "/opt/app/res/_up_/dist-mcp/server.cjs");
            assert_eq!(to, "/home/u/.data/server.cjs");
        }
        _ => panic!("expected a copy"),
    }
    match provision_step(&p, ProvisionEvent::Copied(Ok(()))) {
        ProvisionAction::Finish(r) => assert_eq!(r, Ok("/home/u/.data/server.cjs".to_string())),
        _ => panic!("expected the end"),
    }
}

#[test]
fn io_failures_are_reported() {
    let p = plan();
    match provision_step(&p, ProvisionEvent::DirCreated(Err("denied".to_string()))) {
        ProvisionAction::Finish(r) => assert_eq!(r, Err("Failed to create data dir: denied".to_string())),
        _ => panic!("expected the end"),
    }
    match provision_step(&p, ProvisionEvent::Copied(Err("disk full".to_string()))) {
        ProvisionAction::Finish(r) => assert_eq!(r, Err("Failed to copy server: disk full".to_string())),
        _ => panic!("expected the end"),
    }
}
