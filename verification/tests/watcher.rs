use rws::watcher::{is_project_config, Plan, WatchList, RESCAN_INTERVAL_MS};

fn paths(names: &[&str]) -> Vec<String> {
    names.iter().map(|n| n.to_string()).collect()
}

#[test]
fn the_first_scan_starts_everything_found() {
    let mut list = WatchList::new();
    let plan = list.reconcile(&paths(&["a/tsconfig.json", "b/tsconfig.json"]));
    assert_eq!(
        plan,
        Plan { start: paths(&["a/tsconfig.json", "b/tsconfig.json"]), stop: vec![] }
    );
    assert_eq!(list.paths(), &paths(&["a/tsconfig.json", "b/tsconfig.json"]));
}

#[test]
fn a_scan_starts_the_new_and_stops_the_missing() {
    let mut list = WatchList::new();
    list.reconcile(&paths(&["a", "b", "c"]));
    let plan = list.reconcile(&paths(&["d", "c", "a", "e"]));
    assert_eq!(plan, Plan { start: paths(&["d", "e"]), stop: paths(&["b"]) });
    assert_eq!(list.paths(), &paths(&["a", "c", "d", "e"]));
}

#[test]
fn a_path_found_twice_is_started_once() {
    let mut list = WatchList::new();
    let plan = list.reconcile(&paths(&["x", "y", "x", "x", "y"]));
    assert_eq!(plan, Plan { start: paths(&["x", "y"]), stop: vec![] });
    assert_eq!(list.paths(), &paths(&["x", "y"]));
}

#[test]
fn the_same_scan_again_changes_nothing() {
    let mut list = WatchList::new();
    list.reconcile(&paths(&["a", "b"]));
    let plan = list.reconcile(&paths(&["b", "a"]));
    assert_eq!(plan, Plan { start: vec![], stop: vec![] });
    assert_eq!(list.paths(), &paths(&["a", "b"]));
}

#[test]
fn an_empty_scan_stops_everything() {
    let mut list = WatchList::new();
    list.reconcile(&paths(&["a", "b"]));
    let plan = list.reconcile(&vec![]);
    assert_eq!(plan, Plan { start: vec![], stop: paths(&["a", "b"]) });
    assert!(list.paths().is_empty());
}

#[test]
fn only_tsconfig_json_is_a_project_configuration() {
    assert!(is_project_config(&"tsconfig.json".to_string()));
    assert!(!is_project_config(&"tsconfig.jsonc".to_string()));
    assert!(!is_project_config(&"Tsconfig.json".to_string()));
    assert!(!is_project_config(&"package.json".to_string()));
    assert!(!is_project_config(&String::new()));
    assert_eq!(RESCAN_INTERVAL_MS, 30_000);
}
