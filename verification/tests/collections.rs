use ndk_build::ports::PortForwards;
use ndk_build::staged::StagedLibrarySet;

fn text(s: &str) -> String {
    s.to_string()
}

#[test]
fn a_new_set_is_empty() {
    let set = StagedLibrarySet::new();
    assert_eq!(set.len(), 0);
    assert!(set.paths().is_empty());
    assert!(!set.contains("lib/x86/libdemo.so"));
}

#[test]
fn insert_adds_a_new_path_at_the_end() {
    let set = StagedLibrarySet::new()
        .insert(text("lib/x86/liba.so"))
        .insert(text("lib/x86/libb.so"));
    assert_eq!(set.len(), 2);
    assert_eq!(set.paths(), &vec![text("lib/x86/liba.so"), text("lib/x86/libb.so")]);
    assert!(set.contains("lib/x86/liba.so"));
    assert!(set.contains("lib/x86/libb.so"));
    assert!(!set.contains("lib/x86/libc.so"));
}

#[test]
fn inserting_twice_yields_one_entry() {
    let set = StagedLibrarySet::new()
        .insert(text("lib/x86/liba.so"))
        .insert(text("lib/x86/liba.so"));
    assert_eq!(set.len(), 1);
    assert_eq!(set.paths(), &vec![text("lib/x86/liba.so")]);
}

#[test]
fn inserting_again_keeps_the_order() {
    let set = StagedLibrarySet::new()
        .insert(text("a"))
        .insert(text("b"))
        .insert(text("a"))
        .insert(text("c"))
        .insert(text("b"));
    assert_eq!(set.paths(), &vec![text("a"), text("b"), text("c")]);
}

#[test]
fn new_port_forwards_hold_no_rule() {
    let ports = PortForwards::new();
    assert_eq!(ports.len(), 0);
    assert!(ports.rules().is_empty());
}

#[test]
fn port_forwards_keep_the_rules_in_order() {
    let ports = PortForwards::new()
        .insert(text("tcp:8000"), text("tcp:8000"))
        .insert(text("tcp:9000"), text("tcp:9001"));
    assert_eq!(ports.len(), 2);
    assert_eq!(
        ports.rules(),
        &vec![(text("tcp:8000"), text("tcp:8000")), (text("tcp:9000"), text("tcp:9001"))]
    );
}

#[test]
fn a_local_port_has_one_rule() {
    let ports = PortForwards::new()
        .insert(text("tcp:8000"), text("tcp:8000"))
        .insert(text("tcp:9000"), text("tcp:9000"))
        .insert(text("tcp:8000"), text("tcp:8080"));
    assert_eq!(ports.len(), 2);
    assert_eq!(
        ports.rules(),
        &vec![(text("tcp:8000"), text("tcp:8080")), (text("tcp:9000"), text("tcp:9000"))]
    );
}

#[test]
fn two_local_ports_may_share_a_remote_port() {
    let ports = PortForwards::new()
        .insert(text("tcp:8000"), text("tcp:7000"))
        .insert(text("tcp:9000"), text("tcp:7000"));
    assert_eq!(ports.len(), 2);
}

#[test]
fn a_duplicate_has_the_same_rules() {
    let ports = PortForwards::new()
        .insert(text("tcp:8000"), text("tcp:8000"))
        .insert(text("tcp:9000"), text("tcp:9001"));
    let copy = ports.duplicate();
    assert_eq!(copy.rules(), ports.rules());
    assert_eq!(copy.len(), 2);
}
