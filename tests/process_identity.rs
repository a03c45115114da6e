use cdi::config::{Config, Service};
use cdi::log::{ProcessInfo, ProcessStatus};

#[test]
fn identical_configuration_gives_identical_id() {
    let a = ProcessInfo::new("api".to_string(), "pnpm dev".to_string(), Some("./api".to_string()));
    let b = ProcessInfo::new("api".to_string(), "pnpm dev".to_string(), Some("./api".to_string()));
    assert_eq!(a.id, b.id);
}

#[test]
fn changing_any_field_changes_id() {
    let base = ProcessInfo::new("api".to_string(), "pnpm dev".to_string(), Some("./api".to_string()));
    let name = ProcessInfo::new("web".to_string(), "pnpm dev".to_string(), Some("./api".to_string()));
    let command = ProcessInfo::new("api".to_string(), "pnpm start".to_string(), Some("./api".to_string()));
    let cwd = ProcessInfo::new("api".to_string(), "pnpm dev".to_string(), Some("./web".to_string()));
    let no_cwd = ProcessInfo::new("api".to_string(), "pnpm dev".to_string(), None);
    let ids = [base.id, name.id, command.id, cwd.id, no_cwd.id];
    for i in 0..ids.len() {
        for j in (i + 1)..ids.len() {
            assert_ne!(ids[i], ids[j]);
        }
    }
}

#[test]
fn new_record_is_stopped_and_not_spawned() {
    let p = ProcessInfo::new("db".to_string(), "postgres".to_string(), None);
    assert_eq!(p.name, "db");
    assert_eq!(p.command, "postgres");
    assert_eq!(p.cwd, None);
    assert_eq!(p.pid, None);
    assert_eq!(p.status, ProcessStatus::Stopped);
    assert_eq!(p.exit_code, None);
}

#[test]
fn clone_keeps_every_field() {
    let mut p = ProcessInfo::new("db".to_string(), "postgres".to_string(), Some("/tmp".to_string()));
    p.pid = Some(42);
    p.exit_code = Some(3);
    let q = p.clone();
    assert_eq!(q.id, p.id);
    assert_eq!(q.name, p.name);
    assert_eq!(q.cwd, p.cwd);
    assert_eq!(q.pid, Some(42));
    assert_eq!(q.exit_code, Some(3));
}

#[test]
fn config_services_become_records_in_order() {
    let config = Config {
        services: vec![
            Service { cmd: "pnpm dev".to_string(), name: "api".to_string(), cwd: None },
            Service { cmd: "pnpm dev".to_string(), name: "web".to_string(), cwd: Some("web".to_string()) },
        ],
    };
    let infos = config.process_infos();
    assert_eq!(infos.len(), 2);
    assert_eq!(infos[0].name, "api");
    assert_eq!(infos[1].name, "web");
    assert_eq!(infos[1].cwd, Some("web".to_string()));
    assert_eq!(infos[0].id, ProcessInfo::new("api".to_string(), "pnpm dev".to_string(), None).id);
    assert_ne!(infos[0].id, infos[1].id);
}
