use wash_lib::links::{Link, LinkKey, Links};

fn link(ifaces: &[&str]) -> Link {
    Link {
        source_id: "comp-a".to_string(),
        name: "default".to_string(),
        wit_namespace: "wasi".to_string(),
        wit_package: "http".to_string(),
        interfaces: ifaces.iter().map(|s| s.to_string()).collect(),
    }
}

#[test]
fn overlapping_interfaces_rejected_in_either_order() {
    for flip in [false, true] {
        let mut reg = Links::new();
        let a = link(&["incoming-handler", "outgoing-handler"]);
        let b = link(&["outgoing-handler"]);
        let (first, second) = if flip { (b.clone(), a.clone()) } else { (a.clone(), b.clone()) };
        assert!(reg.insert(first.clone()).is_ok());
        assert!(reg.insert(second).is_err());
        let stored = reg.iter();
        assert_eq!(stored.len(), 1);
        assert_eq!(stored[0].interfaces, first.interfaces);
    }
}

#[test]
fn disjoint_interfaces_coexist() {
    let mut reg = Links::new();
    assert!(reg.insert(link(&["incoming-handler"])).is_ok());
    assert!(reg.insert(link(&["outgoing-handler"])).is_ok());
    let stored = reg.iter();
    assert_eq!(stored.len(), 2);
    let mut names: Vec<String> = stored.iter().map(|l| l.interfaces[0].clone()).collect();
    names.sort();
    assert_eq!(names, vec!["incoming-handler".to_string(), "outgoing-handler".to_string()]);
}

#[test]
fn reinsert_identical_link_is_noop() {
    let mut reg = Links::new();
    let l = link(&["incoming-handler"]);
    assert!(reg.insert(l.clone()).is_ok());
    assert!(reg.insert(l).is_ok());
    assert_eq!(reg.iter().len(), 1);

    let mut reg2 = Links::new();
    let empty = link(&[]);
    assert!(reg2.insert(empty.clone()).is_ok());
    assert!(reg2.insert(empty).is_ok());
    assert_eq!(reg2.iter().len(), 1);
}

#[test]
fn interface_set_ignores_order_and_duplicates() {
    // The same interfaces in another order name the same entry.
    let mut reg = Links::new();
    assert!(reg.insert(link(&["incoming-handler", "outgoing-handler"])).is_ok());
    assert!(reg.insert(link(&["outgoing-handler", "incoming-handler"])).is_ok());
    let stored = reg.iter();
    assert_eq!(stored.len(), 1);
    assert_eq!(stored[0].interfaces, vec!["incoming-handler", "outgoing-handler"]);

    // A repeated name collapses into the same set.
    let mut reg2 = Links::new();
    assert!(reg2.insert(link(&["incoming-handler"])).is_ok());
    assert!(reg2.insert(link(&["incoming-handler", "incoming-handler"])).is_ok());
    assert_eq!(reg2.iter().len(), 1);
}

#[test]
fn remove_deletes_whole_slot() {
    let mut reg = Links::new();
    assert!(reg.insert(link(&["a"])).is_ok());
    assert!(reg.insert(link(&["b"])).is_ok());
    assert!(reg.insert(link(&["c"])).is_ok());
    let key = LinkKey::new("comp-a", "default", "wasi", "http");
    assert!(reg.remove(&key));
    assert_eq!(reg.iter().len(), 0);
    assert!(!reg.remove(&key));
    assert_eq!(reg.iter().len(), 0);
}

#[test]
fn remove_absent_key_leaves_registry_unchanged() {
    let mut reg = Links::new();
    assert!(reg.insert(link(&["a"])).is_ok());
    let other = LinkKey::new("comp-b", "default", "wasi", "http");
    assert!(!reg.remove(&other));
    assert_eq!(reg.iter().len(), 1);
}

#[test]
fn slot_scenario_two_disjoint_then_conflict() {
    let mut reg = Links::new();
    assert!(reg.insert(link(&["incoming-handler"])).is_ok());
    assert!(reg.insert(link(&["outgoing-handler"])).is_ok());
    // A link identical to a stored one is the same entry: a successful no-op.
    assert!(reg.insert(link(&["incoming-handler"])).is_ok());
    assert_eq!(reg.iter().len(), 2);
    // A different link wiring an already-wired interface is a conflict.
    let err = reg.insert(link(&["incoming-handler", "request-reply"]));
    assert!(err.is_err());
    assert_eq!(
        err.unwrap_err().message(),
        "Links between the same component and package must have disjoint (non overlapping) interfaces"
    );
    assert_eq!(reg.iter().len(), 2);
}

#[test]
fn cross_slot_links_never_conflict() {
    let mut reg = Links::new();
    assert!(reg.insert(link(&["incoming-handler"])).is_ok());
    let mut other = link(&["incoming-handler"]);
    other.wit_package = "keyvalue".to_string();
    assert!(reg.insert(other).is_ok());
    assert_eq!(reg.iter().len(), 2);
}
