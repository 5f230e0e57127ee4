use devctx::workspace::{descend, descent_message, Descent, RegisteredProject};

fn project(name: &str, path: &str, group: &str, indexed: &str) -> RegisteredProject {
    RegisteredProject {
        name: name.into(),
        path: path.into(),
        group: group.into(),
        last_indexed_at: indexed.into(),
    }
}

fn message(dir: &str, projects: &Vec<RegisteredProject>) -> String {
    let d = descend(dir, projects);
    descent_message(dir, projects, &d)
}

#[test]
fn workspace_root_binds_the_group() {
    let projects = vec![
        project("api", "/tmp/ws/api", "ACME", "2025-01-02T00:00:00Z"),
        project("web", "/tmp/ws/web", "ACME", "2025-03-04T00:00:00Z"),
        project("worker", "/tmp/ws/worker", "ACME", ""),
    ];
    let err = message("/tmp/ws", &projects);
    assert!(err.contains("Bound to group ACME"), "expected a group binding, got:\n{err}");
    assert!(err.contains('3'), "expected the member count, got:\n{err}");
    match descend("/tmp/ws", &projects) {
        Descent::Group { group, members, default } => {
            assert_eq!(group, "ACME");
            assert_eq!(members, vec![0, 1, 2]);
            assert_eq!(default, 1, "the most recently indexed member answers by default");
        }
        _ => panic!("expected a group"),
    }
}

#[test]
fn workspace_root_with_one_project_binds_that_project() {
    let projects = vec![project("only", "/tmp/ws/only", "", "")];
    let err = message("/tmp/ws", &projects);
    assert!(err.contains("Bound to project only"), "expected a single-project binding, got:\n{err}");
}

#[test]
fn mixed_groups_stay_unbound_and_name_the_candidates() {
    let projects = vec![
        project("alpha", "/tmp/ws/alpha", "ONE", ""),
        project("beta", "/tmp/ws/beta", "TWO", ""),
    ];
    let err = message("/tmp/ws", &projects);
    assert!(!err.contains("Bound to group"), "must not invent a group binding:\n{err}");
    assert!(err.contains("alpha") && err.contains("beta"), "the candidates should be named:\n{err}");
    assert!(err.contains("do not share a group"), "the reason should be stated:\n{err}");
}

#[test]
fn inside_a_repository_binds_that_repository() {
    // Seen from inside `api`, nothing is below it: the descent finds no
    // workspace, and the walk upwards (the caller's) binds `api` itself.
    let projects = vec![
        project("api", "/tmp/ws/api", "ACME", ""),
        project("web", "/tmp/ws/web", "ACME", ""),
    ];
    let err = message("/tmp/ws/api", &projects);
    assert!(!err.contains("Bound to group"), "a directory inside a repository is not a workspace root:\n{err}");
    assert!(matches!(descend("/tmp/ws/api", &projects), Descent::Nothing));
}

#[test]
fn a_name_prefix_is_not_a_parent_directory() {
    let projects = vec![
        project("mine", "/tmp/ws/mine", "MINE", ""),
        project("theirs", "/tmp/ws-other/theirs", "THEIRS", ""),
    ];
    let err = message("/tmp/ws", &projects);
    assert!(err.contains("Bound to project mine"), "only the project under ws should have been found:\n{err}");
    assert!(!err.contains("theirs"), "a sibling directory sharing a name prefix leaked in:\n{err}");
}

#[test]
fn an_empty_directory_starts_unbound() {
    let projects = vec![project("elsewhere", "/srv/elsewhere", "", "")];
    let err = message("/tmp/nothing-here", &projects);
    assert!(err.contains("no project bound") || err.contains("not bound to a project"), "expected the unbound message, got:\n{err}");
}

#[test]
fn members_without_any_group_do_not_form_one() {
    let projects = vec![project("a", "/w/a", "", ""), project("b", "/w/b", "", "")];
    assert!(matches!(descend("/w", &projects), Descent::Mixed(ref m) if *m == vec![0, 1]));
    assert_eq!(
        message("/w", &projects),
        "Not bound: the projects under /w (a, b) do not share a group; use the use_project tool to pick one."
    );
}

#[test]
fn the_root_directory_contains_everything_below_it() {
    let projects = vec![project("a", "/w/a", "G", "x"), project("b", "/", "G", "y")];
    // `/` itself is not strictly below `/`.
    assert!(matches!(descend("/", &projects), Descent::Project(0)));
    assert_eq!(message("/", &projects), "Bound to project a (/w/a)");
}

#[test]
fn a_tie_on_the_index_time_goes_to_the_first_member() {
    let projects = vec![
        project("a", "/w/a", "G", "2025-05-05"),
        project("b", "/w/b", "G", "2025-05-05"),
    ];
    assert!(matches!(descend("/w", &projects), Descent::Group { default: 0, .. }));
    assert_eq!(message("/w", &projects), "Bound to group G: 2 projects under /w; code tools default to a");
}
