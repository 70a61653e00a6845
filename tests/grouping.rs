use fi::aggregate::{available_backends, combine_results, find_backend, group_results_by_backend, require_sources};
use fi::error::FiError;
use fi::render::{choice_line, item_line, section_height};
use fi::result::SearchResult;

fn rec(backend: &str, name: &str, version: Option<&str>, description: &str) -> SearchResult {
    SearchResult {
        backend: backend.to_string(),
        name: name.to_string(),
        identifier: name.to_string(),
        description: description.to_string(),
        version: version.map(|v| v.to_string()),
    }
}

fn names(v: &[&str]) -> Vec<String> {
    v.iter().map(|s| s.to_string()).collect()
}

#[test]
fn one_group_per_source_in_registration_order() {
    let lists = vec![
        vec![rec("dnf", "a", None, "")],
        vec![rec("flatpak", "b", None, ""), rec("flatpak", "c", None, "")],
        vec![rec("cargo", "d", None, "")],
    ];
    let combined = combine_results(&lists);
    assert_eq!(combined.len(), 4);
    let groups = group_results_by_backend(&combined, &names(&["cargo", "dnf", "flatpak"]));
    assert_eq!(groups.len(), 3);
    assert_eq!(groups[0].0, "cargo");
    assert_eq!(groups[0].1[0].name, "d");
    assert_eq!(groups[1].0, "dnf");
    assert_eq!(groups[2].1.len(), 2);
    assert_eq!(groups[2].1[1].name, "c");
}

#[test]
fn failed_source_gives_empty_group_and_leaves_others() {
    let lists = vec![
        vec![rec("dnf", "a", None, "")],
        vec![],
        vec![rec("cargo", "d", None, "")],
    ];
    let groups = group_results_by_backend(&combine_results(&lists), &names(&["dnf", "flatpak", "cargo"]));
    assert_eq!(groups.len(), 3);
    assert_eq!(groups[0].1.len(), 1);
    assert_eq!(groups[0].1[0].name, "a");
    assert!(groups[1].1.is_empty());
    assert_eq!(groups[2].1[0].name, "d");
}

#[test]
fn finding_the_backend_of_a_record() {
    let n = names(&["dnf", "flatpak", "cargo"]);
    assert_eq!(find_backend(&n, &"cargo".to_string()).unwrap(), 2);
    match find_backend(&n, &"snap".to_string()) {
        Err(FiError::BackendNotFound(b)) => assert_eq!(b, "snap"),
        other => panic!("unexpected {:?}", other),
    }
}

#[test]
fn no_sources_is_an_error() {
    assert!(require_sources(&names(&["dnf"])).is_ok());
    match require_sources(&vec![]) {
        Err(e) => assert_eq!(
            e.message(),
            "Invalid arguments: No package managers found. Please install at least one: dnf, flatpak, or cargo"
        ),
        Ok(()) => panic!("expected an error"),
    }
}

#[test]
fn error_messages() {
    assert_eq!(FiError::InstallationFailed("boom".to_string()).message(), "Installation failed: boom");
    assert_eq!(FiError::BackendNotFound("snap".to_string()).message(), "Backend not found: snap");
    assert_eq!(FiError::TuiError("x".to_string()).message(), "TUI error: x");
}

#[test]
fn panel_heights() {
    let one = vec![rec("dnf", "a", None, "")];
    assert_eq!(section_height(&vec![]), 3);
    assert_eq!(section_height(&one), 3);
    let ten: Vec<SearchResult> = (0..10).map(|_| rec("dnf", "a", None, "")).collect();
    assert_eq!(section_height(&ten), 12);
    let many: Vec<SearchResult> = (0..50).map(|_| rec("dnf", "a", None, "")).collect();
    assert_eq!(section_height(&many), 12);
    let four: Vec<SearchResult> = (0..4).map(|_| rec("dnf", "a", None, "")).collect();
    assert_eq!(section_height(&four), 6);
}

#[test]
fn record_lines() {
    assert_eq!(item_line(&rec("cargo", "serde", Some("1.0"), "framework")), "serde [1.0] — framework");
    assert_eq!(item_line(&rec("cargo", "serde", None, "framework")), "serde — framework");
    assert_eq!(item_line(&rec("cargo", "serde", Some("1.0"), "")), "serde [1.0]");
    assert_eq!(item_line(&rec("cargo", "serde", None, "")), "serde");
}

#[test]
fn only_installed_sources_are_kept_in_order() {
    assert_eq!(available_backends(&vec![true, false, true]), vec![0, 2]);
    assert_eq!(available_backends(&vec![false, false, false]), Vec::<usize>::new());
    assert_eq!(available_backends(&vec![]), Vec::<usize>::new());
}

#[test]
fn prompt_lines() {
    assert_eq!(choice_line(&rec("dnf", "vim", None, "editor")), "[dnf] vim - editor");
}
