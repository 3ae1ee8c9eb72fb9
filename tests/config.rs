use healthcheck::{
    collect_entries, drop_empty, normalize_path, resolve_paths, resolve_ports, split_commas,
    split_entries,
};

fn strings(items: &[&str]) -> Vec<String> {
    items.iter().map(|s| s.to_string()).collect()
}

#[test]
fn split_trims_and_drops_empty_fields() {
    assert_eq!(split_entries(" 8080, 80 ,,x,"), strings(&["8080", "80", "x"]));
}

#[test]
fn split_of_empty_value_is_empty() {
    assert!(split_entries("").is_empty());
    assert!(split_entries(" , ,").is_empty());
}

#[test]
fn split_keeps_single_field() {
    assert_eq!(split_entries("/health"), strings(&["/health"]));
}

#[test]
fn collect_joins_values_in_order() {
    let values = strings(&["8080,80", "", " 9090 "]);
    assert_eq!(collect_entries(&values), strings(&["8080", "80", "9090"]));
}

#[test]
fn duplicate_ports_resolve_once() {
    let entries = collect_entries(&strings(&["8080,8080,80"]));
    assert_eq!(resolve_ports(&entries), vec![8080u16, 80]);
}

#[test]
fn invalid_port_entries_are_discarded() {
    let entries = strings(&["abc", "-1", "70000", "0", "65536", "+81", "65535", "8 0", "+"]);
    assert_eq!(resolve_ports(&entries), vec![81u16, 65535]);
}

#[test]
fn all_non_numeric_ports_resolve_empty() {
    let entries = collect_entries(&strings(&["http,https", "none"]));
    assert!(resolve_ports(&entries).is_empty());
}

#[test]
fn normalize_root_is_kept() {
    assert_eq!(normalize_path("/".to_string()), "/");
}

#[test]
fn normalize_strips_one_trailing_slash() {
    assert_eq!(normalize_path("/health/".to_string()), "/health");
    assert_eq!(normalize_path("/health".to_string()), "/health");
    assert_eq!(normalize_path("/a//".to_string()), "/a/");
    assert_eq!(normalize_path("//".to_string()), "/");
    assert_eq!(normalize_path(String::new()), "");
}

#[test]
fn normalize_twice_equals_once() {
    for p in ["/", "/health/", "/health", "//", "x/"] {
        let once = normalize_path(p.to_string());
        assert_eq!(normalize_path(once.clone()), once);
    }
}

#[test]
fn paths_are_normalized_and_deduplicated() {
    let entries = collect_entries(&strings(&["/health/, /health,/,/ready", "/ready/"]));
    assert_eq!(resolve_paths(&entries), strings(&["/health", "/", "/ready"]));
}

#[test]
fn empty_path_entries_resolve_empty() {
    assert!(resolve_paths(&strings(&[""])).is_empty());
    assert!(resolve_paths(&collect_entries(&strings(&[" , "]))).is_empty());
}

#[test]
fn split_commas_keeps_every_field() {
    assert_eq!(split_commas("a, b,,"), strings(&["a", " b", "", ""]));
    assert_eq!(split_commas(""), strings(&[""]));
}

#[test]
fn drop_empty_keeps_order() {
    assert_eq!(drop_empty(strings(&["", "a", "", " ", "b"])), strings(&["a", " ", "b"]));
}
