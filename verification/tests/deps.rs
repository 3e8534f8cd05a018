use vzctl::deps::dependency_order;

fn vms(list: &[(&str, &[&str])]) -> Vec<(String, Vec<String>)> {
    list.iter()
        .map(|(name, deps)| (name.to_string(), deps.iter().map(|d| d.to_string()).collect()))
        .collect()
}

#[test]
fn dependencies_come_first() {
    let order = dependency_order(&vms(&[
        ("app", &["db", "cache"]),
        ("cache", &[]),
        ("db", &["net"]),
        ("net", &[]),
    ]))
    .unwrap();
    assert_eq!(order, vec!["net", "db", "cache", "app"]);
}

#[test]
fn independent_vms_keep_their_order() {
    let order = dependency_order(&vms(&[("a", &[]), ("b", &[]), ("c", &[])])).unwrap();
    assert_eq!(order, vec!["a", "b", "c"]);
}

#[test]
fn shared_dependency_is_listed_once() {
    let order = dependency_order(&vms(&[("a", &["c"]), ("b", &["c"]), ("c", &[])])).unwrap();
    assert_eq!(order, vec!["c", "a", "b"]);
}

#[test]
fn cycles_are_refused() {
    let failure = dependency_order(&vms(&[("a", &["b"]), ("b", &["a"])])).unwrap_err();
    assert_eq!(failure.code, 3);
    assert_eq!(failure.message, "VM dependency cycle");
    assert!(dependency_order(&vms(&[("a", &["a"])])).is_err());
}

#[test]
fn no_vms_no_order() {
    assert!(dependency_order(&[]).unwrap().is_empty());
}
