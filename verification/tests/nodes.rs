use bluechi_monitor::{
    DecodeError, MonitorError, Node, NodeDirectory, PropertyChanged, PropertyValue, Reach,
    RemoteHandle,
};

fn node(name: &str, status: &str) -> Node {
    Node {
        name: name.to_string(),
        handle: RemoteHandle::new("org.eclipse.bluechi", &format!("/org/eclipse/bluechi/node/{}", name)),
        status: status.to_string(),
    }
}

fn status_change(node: &str, status: &str) -> PropertyChanged {
    PropertyChanged {
        node: node.to_string(),
        property: "Status".to_string(),
        value: PropertyValue::Text(status.to_string()),
    }
}

#[test]
fn remote_handle_holds_its_parts() {
    let h = RemoteHandle::new("org.eclipse.bluechi", "/org/eclipse/bluechi");
    assert_eq!(h.destination, "org.eclipse.bluechi");
    assert_eq!(h.path, "/org/eclipse/bluechi");
    assert_eq!(h.clone(), h);
}

#[test]
fn report_all_keeps_the_order_of_the_listing() {
    let mut d = NodeDirectory::new();
    d.report_all(vec![node("n1", "online"), node("n2", "offline"), node("n3", "online")]);
    let names: Vec<&str> = d.nodes().iter().map(|n| n.name.as_str()).collect();
    assert_eq!(names, vec!["n1", "n2", "n3"]);
}

#[test]
fn report_replaces_the_node_of_the_same_name() {
    let mut d = NodeDirectory::new();
    d.report(node("n1", "online"));
    d.report(node("n2", "online"));
    d.report(node("n1", "offline"));
    assert_eq!(d.nodes().len(), 2);
    assert_eq!(d.nodes()[0], node("n1", "offline"));
    assert_eq!(d.nodes()[1], node("n2", "online"));
}

#[test]
fn report_all_lets_a_later_entry_of_a_name_win() {
    let mut d = NodeDirectory::new();
    d.report_all(vec![node("n1", "online"), node("n1", "offline")]);
    assert_eq!(d.nodes().len(), 1);
    assert_eq!(d.status("n1"), Some("offline".to_string()));
}

#[test]
fn resolve_finds_a_node_by_its_exact_name() {
    let mut d = NodeDirectory::new();
    d.report_all(vec![node("n1", "online"), node("n2", "offline")]);
    assert_eq!(
        d.resolve("n2"),
        Ok(RemoteHandle::new("org.eclipse.bluechi", "/org/eclipse/bluechi/node/n2"))
    );
    assert_eq!(d.resolve("n3"), Err(MonitorError::NotFound("n3".to_string())));
    assert_eq!(d.resolve("N1"), Err(MonitorError::NotFound("N1".to_string())));
    assert_eq!(NodeDirectory::new().resolve("n1"), Err(MonitorError::NotFound("n1".to_string())));
}

#[test]
fn announce_sets_the_status_of_one_node() {
    let mut d = NodeDirectory::new();
    d.report_all(vec![node("n1", "online"), node("n2", "online")]);
    assert!(d.announce(&status_change("n1", "offline")));
    assert_eq!(d.status("n1"), Some("offline".to_string()));
    assert_eq!(d.status("n2"), Some("online".to_string()));
    assert_eq!(d.nodes()[0].handle, node("n1", "").handle);
}

#[test]
fn announce_ignores_other_properties_values_and_nodes() {
    let mut d = NodeDirectory::new();
    d.report(node("n1", "online"));
    assert!(!d.announce(&PropertyChanged {
        node: "n1".to_string(),
        property: "LastSeen".to_string(),
        value: PropertyValue::Text("now".to_string()),
    }));
    assert!(!d.announce(&PropertyChanged {
        node: "n1".to_string(),
        property: "Status".to_string(),
        value: PropertyValue::Unsigned(1),
    }));
    assert!(!d.announce(&status_change("n9", "offline")));
    assert_eq!(d.nodes(), &vec![node("n1", "online")]);
    assert_eq!(d.status("n9"), None);
}

#[test]
fn reach_of_each_failure() {
    assert_eq!(MonitorError::Connection("refused".to_string()).reach(), Reach::Connection);
    assert_eq!(MonitorError::Transport("closed".to_string()).reach(), Reach::Connection);
    assert_eq!(MonitorError::Bus("rejected".to_string()).reach(), Reach::Call);
    assert_eq!(MonitorError::NotFound("n1".to_string()).reach(), Reach::Call);
    assert_eq!(
        MonitorError::Decode(DecodeError::WrongType { position: 0 }).reach(),
        Reach::Notification
    );
}

#[test]
fn only_connection_and_transport_failures_are_fatal() {
    assert!(MonitorError::Connection("refused".to_string()).is_fatal());
    assert!(MonitorError::Transport("closed".to_string()).is_fatal());
    assert!(!MonitorError::Bus("rejected".to_string()).is_fatal());
    assert!(!MonitorError::NotFound("n1".to_string()).is_fatal());
    assert!(!MonitorError::Decode(DecodeError::WrongArity { expected: 3, found: 1 }).is_fatal());
}
