use termlight::ports::{list_ports, ports_from_names};
use termlight::recent::{update_recent_projects, RecentProject, RECENT_PROJECTS_CAP};

fn entry(name: &str, path: &str, stamp: &str) -> RecentProject {
    RecentProject {
        name: String::from(name),
        path: String::from(path),
        last_modified: String::from(stamp),
    }
}

#[test]
fn ports_from_names_wraps_each_name_without_description() {
    let infos = ports_from_names(vec![String::from("COM3"), String::from("/dev/ttyUSB0")]);
    assert_eq!(infos.len(), 2);
    assert_eq!(infos[0].name, "COM3");
    assert_eq!(infos[0].description, None);
    assert_eq!(infos[1].name, "/dev/ttyUSB0");
    assert_eq!(infos[1].description, None);
}

#[test]
fn list_ports_reports_an_explicit_outcome() {
    match list_ports() {
        Ok(ports) => {
            for p in &ports {
                assert!(p.description.is_none());
            }
        }
        Err(message) => {
            assert!(message.starts_with("Failed to list ports: "));
        }
    }
}

#[test]
fn recent_update_moves_entry_to_front_and_drops_duplicate() {
    let existing = vec![
        entry("a", "/p/a", "t1"),
        entry("b", "/p/b", "t2"),
        entry("c", "/p/c", "t3"),
    ];
    let updated = update_recent_projects(existing, entry("b2", "/p/b", "t9"));
    assert_eq!(updated.len(), 3);
    assert_eq!(updated[0].name, "b2");
    assert_eq!(updated[0].path, "/p/b");
    assert_eq!(updated[0].last_modified, "t9");
    assert_eq!(updated[1].path, "/p/a");
    assert_eq!(updated[2].path, "/p/c");
}

#[test]
fn recent_update_caps_the_list() {
    let mut existing = Vec::new();
    for i in 0..RECENT_PROJECTS_CAP {
        existing.push(entry("n", &format!("/p/{}", i), "t"));
    }
    let updated = update_recent_projects(existing, entry("new", "/p/new", "t"));
    assert_eq!(updated.len(), RECENT_PROJECTS_CAP);
    assert_eq!(updated[0].path, "/p/new");
    assert_eq!(updated[1].path, "/p/0");
    assert_eq!(updated[RECENT_PROJECTS_CAP - 1].path, "/p/8");
}
