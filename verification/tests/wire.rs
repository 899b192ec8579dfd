use bluechi_monitor::{
    read_payload, DecodeError, Delivery, Event, Field, Item, Notification, Outcome, Property,
    PropertyChanged, PropertyValue, Registry, SignalKind, UnitNewSignal, UnitStateChangedSignal,
};
use dbus::arg::{PropMap, RefArg, Variant};
use dbus::Message;

fn signal(path: &str, interface: &str, member: &str) -> Message {
    Message::new_signal(path, interface, member).unwrap()
}

#[test]
fn payload_of_three_strings() {
    let msg = signal("/org/eclipse/bluechi/monitor/1", "org.eclipse.bluechi.Monitor", "UnitNew")
        .append3("n1", "sshd.service", "activation");
    let fields = read_payload(&msg);
    assert_eq!(
        fields,
        vec![
            Field::Text("n1".to_string()),
            Field::Text("sshd.service".to_string()),
            Field::Text("activation".to_string()),
        ]
    );
}

#[test]
fn payload_of_empty_message_is_empty() {
    let msg = signal("/org/eclipse/bluechi/monitor/1", "org.eclipse.bluechi.Monitor", "UnitNew");
    assert_eq!(read_payload(&msg), Vec::<Field>::new());
}

#[test]
fn payload_keeps_order_and_marks_other_types() {
    let msg = signal("/a", "org.example.Iface", "Mixed").append3("first", 7u32, "third");
    assert_eq!(
        read_payload(&msg),
        vec![Field::Text("first".to_string()), Field::Other, Field::Text("third".to_string())]
    );
}

#[test]
fn payload_of_properties_changed() {
    let mut changed: PropMap = PropMap::new();
    changed.insert("Status".to_string(), Variant(Box::new("offline".to_string()) as Box<dyn RefArg>));
    changed.insert("OtherProp".to_string(), Variant(Box::new(5i32) as Box<dyn RefArg>));
    let invalidated: Vec<String> = vec!["Stale".to_string()];
    let msg = signal("/org/eclipse/bluechi/node/n1", "org.freedesktop.DBus.Properties", "PropertiesChanged")
        .append3("org.eclipse.bluechi.Node", changed, invalidated);
    let fields = read_payload(&msg);
    assert_eq!(fields.len(), 3);
    assert_eq!(fields[0], Field::Text("org.eclipse.bluechi.Node".to_string()));
    match &fields[1] {
        Field::List(items) => {
            assert_eq!(items.len(), 2);
            assert!(items.contains(&Item::Entry(Property {
                name: "Status".to_string(),
                value: PropertyValue::Text("offline".to_string()),
            })));
            assert!(items.contains(&Item::Entry(Property {
                name: "OtherProp".to_string(),
                value: PropertyValue::Signed(5),
            })));
        }
        other => panic!("second field is {:?}", other),
    }
    assert_eq!(fields[2], Field::List(vec![Item::Text("Stale".to_string())]));
}

#[test]
fn property_values_by_integer_width() {
    let mut changed: PropMap = PropMap::new();
    changed.insert("A".to_string(), Variant(Box::new(1u32) as Box<dyn RefArg>));
    let msg = signal("/n", "org.freedesktop.DBus.Properties", "PropertiesChanged").append1(changed);
    assert_eq!(
        read_payload(&msg),
        vec![Field::List(vec![Item::Entry(Property {
            name: "A".to_string(),
            value: PropertyValue::Unsigned(1),
        })])]
    );
    let mut changed: PropMap = PropMap::new();
    changed.insert("B".to_string(), Variant(Box::new(u64::MAX) as Box<dyn RefArg>));
    let msg = signal("/n", "org.freedesktop.DBus.Properties", "PropertiesChanged").append1(changed);
    assert_eq!(
        read_payload(&msg),
        vec![Field::List(vec![Item::Entry(Property {
            name: "B".to_string(),
            value: PropertyValue::Unsigned(u64::MAX),
        })])]
    );
    let mut changed: PropMap = PropMap::new();
    changed.insert("C".to_string(), Variant(Box::new(-9i64) as Box<dyn RefArg>));
    changed.insert("D".to_string(), Variant(Box::new(true) as Box<dyn RefArg>));
    let msg = signal("/n", "org.freedesktop.DBus.Properties", "PropertiesChanged").append1(changed);
    match &read_payload(&msg)[0] {
        Field::List(items) => {
            assert!(items.contains(&Item::Entry(Property {
                name: "C".to_string(),
                value: PropertyValue::Signed(-9),
            })));
            assert!(items.contains(&Item::Entry(Property {
                name: "D".to_string(),
                value: PropertyValue::Other,
            })));
        }
        other => panic!("field is {:?}", other),
    }
}

#[test]
fn notification_from_message_carries_header_and_payload() {
    let msg = signal("/org/eclipse/bluechi/monitor/1", "org.eclipse.bluechi.Monitor", "UnitRemoved")
        .append3("n1", "sshd.service", "stopped");
    let n = Notification::from_message(
        "/org/eclipse/bluechi/monitor/1",
        "org.eclipse.bluechi.Monitor",
        "UnitRemoved",
        &msg,
    );
    assert_eq!(n.path, "/org/eclipse/bluechi/monitor/1");
    assert_eq!(n.interface, "org.eclipse.bluechi.Monitor");
    assert_eq!(n.member, "UnitRemoved");
    assert_eq!(n.fields.len(), 3);
    assert_eq!(n.fields[2], Field::Text("stopped".to_string()));
}

#[test]
fn signal_stream_from_bus_messages_reaches_the_handlers() {
    let session = "/org/eclipse/bluechi/monitor/1";
    let iface = "org.eclipse.bluechi.Monitor";
    let mut registry = Registry::new();
    registry.open_session(session);
    let on_new = registry.on_signal(session, SignalKind::UnitNew).unwrap();
    let on_state = registry.on_signal(session, SignalKind::UnitStateChanged).unwrap();
    registry.subscribe(session, "*", "sshd.service").unwrap();

    let first = signal(session, iface, "UnitNew").append3("n1", "sshd.service", "activation");
    let mut second = signal(session, iface, "UnitStateChanged");
    second.append_all(("n1", "sshd.service", "activating", "start", ""));
    let mut third = signal(session, iface, "UnitStateChanged");
    third.append_all(("n1", "sshd.service", "active", "running", ""));
    let batch = vec![
        Notification::from_message(session, iface, "UnitNew", &first),
        Notification::from_message(session, iface, "UnitStateChanged", &second),
        Notification::from_message(session, iface, "UnitStateChanged", &third),
    ];
    assert_eq!(
        registry.dispatch_batch(&batch).deliveries,
        vec![
            Delivery {
                callback: on_new,
                event: Event::UnitNew(UnitNewSignal {
                    node: "n1".to_string(),
                    unit: "sshd.service".to_string(),
                    reason: "activation".to_string(),
                }),
            },
            Delivery {
                callback: on_state,
                event: Event::UnitStateChanged(UnitStateChangedSignal {
                    node: "n1".to_string(),
                    unit: "sshd.service".to_string(),
                    active_state: "activating".to_string(),
                    sub_state: "start".to_string(),
                    reason: "".to_string(),
                }),
            },
            Delivery {
                callback: on_state,
                event: Event::UnitStateChanged(UnitStateChangedSignal {
                    node: "n1".to_string(),
                    unit: "sshd.service".to_string(),
                    active_state: "active".to_string(),
                    sub_state: "running".to_string(),
                    reason: "".to_string(),
                }),
            },
        ]
    );
}

#[test]
fn properties_changed_message_reaches_the_status_listener_once() {
    let path = "/org/eclipse/bluechi/node/n1";
    let mut registry = Registry::new();
    let cb = registry.watch_property("n1", path, "Status").unwrap();
    let mut changed: PropMap = PropMap::new();
    changed.insert("Status".to_string(), Variant(Box::new("offline".to_string()) as Box<dyn RefArg>));
    changed.insert("OtherProp".to_string(), Variant(Box::new(5i32) as Box<dyn RefArg>));
    let msg = signal(path, "org.freedesktop.DBus.Properties", "PropertiesChanged").append3(
        "org.eclipse.bluechi.Node",
        changed,
        Vec::<String>::new(),
    );
    let n = Notification::from_message(path, "org.freedesktop.DBus.Properties", "PropertiesChanged", &msg);
    assert_eq!(
        registry.dispatch(&n).deliveries,
        vec![Delivery {
            callback: cb,
            event: Event::PropertyChanged(PropertyChanged {
                node: "n1".to_string(),
                property: "Status".to_string(),
                value: PropertyValue::Text("offline".to_string()),
            }),
        }]
    );
}

#[test]
fn message_with_a_number_in_place_of_a_text_is_malformed() {
    let session = "/org/eclipse/bluechi/monitor/1";
    let iface = "org.eclipse.bluechi.Monitor";
    let mut registry = Registry::new();
    registry.open_session(session);
    registry.on_signal(session, SignalKind::UnitNew).unwrap();
    let msg = signal(session, iface, "UnitNew").append3("n1", 7u32, "activation");
    let answer = registry.dispatch(&Notification::from_message(session, iface, "UnitNew", &msg));
    assert!(answer.deliveries.is_empty());
    assert_eq!(answer.outcome, Outcome::Malformed(DecodeError::WrongType { position: 1 }));
}

#[test]
fn payload_with_nested_and_other_containers() {
    let msg = signal("/a", "org.example.Iface", "Mixed").append3(
        vec!["x".to_string(), "y".to_string()],
        Variant("inside".to_string()),
        ("s", 1u8),
    );
    assert_eq!(
        read_payload(&msg),
        vec![
            Field::List(vec![Item::Text("x".to_string()), Item::Text("y".to_string())]),
            Field::Other,
            Field::Other,
        ]
    );
    let msg = signal("/a", "org.example.Iface", "Numbers").append1(vec![1u32, 2u32]);
    assert_eq!(read_payload(&msg), vec![Field::List(vec![Item::Other, Item::Other])]);
}
