use bluechi_monitor::{
    decode, decode_unit_signal, read_texts, DecodeError, Decoded, Event, Field, Item, Notification,
    PropertiesChange, Property, PropertyValue, SignalKind, UnitNewSignal,
    UnitPropertiesChangedSignal, UnitRemovedSignal, UnitStateChangedSignal,
};

fn texts(values: &[&str]) -> Vec<Field> {
    values.iter().map(|v| Field::Text(v.to_string())).collect()
}

fn monitor_signal(member: &str, values: &[&str]) -> Notification {
    let mut n = Notification::new("/org/eclipse/bluechi/monitor/1", "org.eclipse.bluechi.Monitor", member);
    for v in values {
        n.push_text(v);
    }
    n
}

#[test]
fn signal_names_round_trip() {
    for kind in [
        SignalKind::UnitNew,
        SignalKind::UnitRemoved,
        SignalKind::UnitPropertiesChanged,
        SignalKind::UnitStateChanged,
    ] {
        assert_eq!(SignalKind::from_name(kind.name()), Some(kind));
    }
    assert_eq!(SignalKind::UnitNew.name(), "UnitNew");
    assert_eq!(SignalKind::UnitRemoved.name(), "UnitRemoved");
    assert_eq!(SignalKind::UnitPropertiesChanged.name(), "UnitPropertiesChanged");
    assert_eq!(SignalKind::UnitStateChanged.name(), "UnitStateChanged");
    assert_eq!(SignalKind::from_name("UnitFrobnicated"), None);
    assert_eq!(SignalKind::from_name("unitnew"), None);
    assert_eq!(SignalKind::from_name(""), None);
}

#[test]
fn signal_arities() {
    assert_eq!(SignalKind::UnitNew.arity(), 3);
    assert_eq!(SignalKind::UnitRemoved.arity(), 3);
    assert_eq!(SignalKind::UnitPropertiesChanged.arity(), 3);
    assert_eq!(SignalKind::UnitStateChanged.arity(), 5);
}

#[test]
fn read_texts_gives_the_texts_in_order() {
    assert_eq!(
        read_texts(&texts(&["a", "b", "c"]), 3),
        Ok(vec!["a".to_string(), "b".to_string(), "c".to_string()])
    );
    assert_eq!(read_texts(&Vec::new(), 0), Ok(Vec::<String>::new()));
}

#[test]
fn read_texts_reports_the_arity_before_the_types() {
    let fields = vec![Field::Other, Field::Text("b".to_string())];
    assert_eq!(read_texts(&fields, 3), Err(DecodeError::WrongArity { expected: 3, found: 2 }));
}

#[test]
fn read_texts_reports_the_first_field_that_is_no_text() {
    let fields = vec![
        Field::Text("a".to_string()),
        Field::Other,
        Field::List(Vec::new()),
    ];
    assert_eq!(read_texts(&fields, 3), Err(DecodeError::WrongType { position: 1 }));
}

#[test]
fn read_unit_new() {
    let signal = UnitNewSignal::read(&texts(&["n1", "sshd.service", "activation"])).unwrap();
    assert_eq!(signal.node, "n1");
    assert_eq!(signal.unit, "sshd.service");
    assert_eq!(signal.reason, "activation");
}

#[test]
fn read_unit_removed() {
    let signal = UnitRemovedSignal::read(&texts(&["n2", "httpd.service", "stopped"])).unwrap();
    assert_eq!(signal.node, "n2");
    assert_eq!(signal.unit, "httpd.service");
    assert_eq!(signal.reason, "stopped");
}

#[test]
fn read_unit_properties_changed() {
    let signal = UnitPropertiesChangedSignal::read(&texts(&[
        "n1",
        "sshd.service",
        "org.freedesktop.systemd1.Service",
    ]))
    .unwrap();
    assert_eq!(signal.node, "n1");
    assert_eq!(signal.unit, "sshd.service");
    assert_eq!(signal.interface, "org.freedesktop.systemd1.Service");
}

#[test]
fn read_unit_state_changed() {
    let signal =
        UnitStateChangedSignal::read(&texts(&["n1", "sshd.service", "active", "running", ""])).unwrap();
    assert_eq!(signal.node, "n1");
    assert_eq!(signal.unit, "sshd.service");
    assert_eq!(signal.active_state, "active");
    assert_eq!(signal.sub_state, "running");
    assert_eq!(signal.reason, "");
}

#[test]
fn read_rejects_a_payload_that_is_too_short() {
    assert_eq!(
        UnitNewSignal::read(&texts(&["n1", "sshd.service"])),
        Err(DecodeError::WrongArity { expected: 3, found: 2 })
    );
    assert_eq!(
        UnitRemovedSignal::read(&Vec::new()),
        Err(DecodeError::WrongArity { expected: 3, found: 0 })
    );
    assert_eq!(
        UnitStateChangedSignal::read(&texts(&["n1", "sshd.service", "active"])),
        Err(DecodeError::WrongArity { expected: 5, found: 3 })
    );
}

#[test]
fn read_rejects_a_payload_that_is_too_long() {
    assert_eq!(
        UnitNewSignal::read(&texts(&["n1", "sshd.service", "activation", "more"])),
        Err(DecodeError::WrongArity { expected: 3, found: 4 })
    );
    assert_eq!(
        UnitPropertiesChangedSignal::read(&texts(&["a", "b", "c", "d", "e"])),
        Err(DecodeError::WrongArity { expected: 3, found: 5 })
    );
}

#[test]
fn read_rejects_a_field_of_another_type() {
    let fields = vec![
        Field::Text("n1".to_string()),
        Field::Text("sshd.service".to_string()),
        Field::Other,
    ];
    assert_eq!(UnitNewSignal::read(&fields), Err(DecodeError::WrongType { position: 2 }));
    let fields = vec![
        Field::List(vec![Item::Text("n1".to_string())]),
        Field::Text("sshd.service".to_string()),
        Field::Text("x".to_string()),
    ];
    assert_eq!(UnitRemovedSignal::read(&fields), Err(DecodeError::WrongType { position: 0 }));
}

#[test]
fn append_then_read_gives_the_signal_back() {
    let new = UnitNewSignal {
        node: "n1".to_string(),
        unit: "sshd.service".to_string(),
        reason: "activation".to_string(),
    };
    let mut fields = Vec::new();
    new.append(&mut fields);
    assert_eq!(fields, texts(&["n1", "sshd.service", "activation"]));
    assert_eq!(UnitNewSignal::read(&fields), Ok(new));

    let removed = UnitRemovedSignal {
        node: "n1".to_string(),
        unit: "u".to_string(),
        reason: "r".to_string(),
    };
    let mut fields = Vec::new();
    removed.append(&mut fields);
    assert_eq!(UnitRemovedSignal::read(&fields), Ok(removed));

    let changed = UnitPropertiesChangedSignal {
        node: "n1".to_string(),
        unit: "u".to_string(),
        interface: "i".to_string(),
    };
    let mut fields = Vec::new();
    changed.append(&mut fields);
    assert_eq!(UnitPropertiesChangedSignal::read(&fields), Ok(changed));

    let state = UnitStateChangedSignal {
        node: "n1".to_string(),
        unit: "u".to_string(),
        active_state: "activating".to_string(),
        sub_state: "start".to_string(),
        reason: "".to_string(),
    };
    let mut fields = Vec::new();
    state.append(&mut fields);
    assert_eq!(fields.len(), 5);
    assert_eq!(UnitStateChangedSignal::read(&fields), Ok(state));
}

#[test]
fn append_adds_behind_what_the_payload_holds() {
    let mut fields = vec![Field::Other];
    UnitNewSignal { node: "a".to_string(), unit: "b".to_string(), reason: "c".to_string() }
        .append(&mut fields);
    assert_eq!(
        fields,
        vec![
            Field::Other,
            Field::Text("a".to_string()),
            Field::Text("b".to_string()),
            Field::Text("c".to_string()),
        ]
    );
}

#[test]
fn decode_each_unit_signal() {
    assert_eq!(
        decode(&monitor_signal("UnitNew", &["n1", "sshd.service", "activation"])),
        Decoded::Unit(Event::UnitNew(UnitNewSignal {
            node: "n1".to_string(),
            unit: "sshd.service".to_string(),
            reason: "activation".to_string(),
        }))
    );
    assert_eq!(
        decode(&monitor_signal("UnitRemoved", &["n1", "sshd.service", "gone"])),
        Decoded::Unit(Event::UnitRemoved(UnitRemovedSignal {
            node: "n1".to_string(),
            unit: "sshd.service".to_string(),
            reason: "gone".to_string(),
        }))
    );
    assert_eq!(
        decode(&monitor_signal("UnitPropertiesChanged", &["n1", "sshd.service", "iface"])),
        Decoded::Unit(Event::UnitPropertiesChanged(UnitPropertiesChangedSignal {
            node: "n1".to_string(),
            unit: "sshd.service".to_string(),
            interface: "iface".to_string(),
        }))
    );
    assert_eq!(
        decode(&monitor_signal("UnitStateChanged", &["n1", "sshd.service", "active", "running", ""])),
        Decoded::Unit(Event::UnitStateChanged(UnitStateChangedSignal {
            node: "n1".to_string(),
            unit: "sshd.service".to_string(),
            active_state: "active".to_string(),
            sub_state: "running".to_string(),
            reason: "".to_string(),
        }))
    );
}

#[test]
fn decode_unit_signal_by_kind() {
    assert_eq!(
        decode_unit_signal(SignalKind::UnitNew, &texts(&["n1", "u", "r"])),
        Decoded::Unit(Event::UnitNew(UnitNewSignal {
            node: "n1".to_string(),
            unit: "u".to_string(),
            reason: "r".to_string(),
        }))
    );
    assert_eq!(
        decode_unit_signal(SignalKind::UnitStateChanged, &texts(&["n1", "u", "r"])),
        Decoded::Malformed(DecodeError::WrongArity { expected: 5, found: 3 })
    );
}

#[test]
fn decode_unknown_member_is_unknown() {
    assert_eq!(decode(&monitor_signal("UnitFrobnicated", &["n1", "sshd.service", "x"])), Decoded::Unknown);
}

#[test]
fn decode_unknown_interface_is_unknown() {
    let mut n = Notification::new("/org/eclipse/bluechi/monitor/1", "org.example.Other", "UnitNew");
    n.push_text("n1");
    n.push_text("sshd.service");
    n.push_text("activation");
    assert_eq!(decode(&n), Decoded::Unknown);
    let n = Notification::new("/x", "org.freedesktop.DBus.Properties", "Get");
    assert_eq!(decode(&n), Decoded::Unknown);
}

#[test]
fn decode_malformed_payload_says_why() {
    assert_eq!(
        decode(&monitor_signal("UnitNew", &["n1"])),
        Decoded::Malformed(DecodeError::WrongArity { expected: 3, found: 1 })
    );
    let mut n = monitor_signal("UnitStateChanged", &["n1", "sshd.service", "active"]);
    n.fields.push(Field::Other);
    n.push_text("");
    assert_eq!(decode(&n), Decoded::Malformed(DecodeError::WrongType { position: 3 }));
}

fn properties_changed(path: &str, entries: Vec<Item>, invalidated: Vec<Item>) -> Notification {
    let mut n = Notification::new(path, "org.freedesktop.DBus.Properties", "PropertiesChanged");
    n.push_text("org.eclipse.bluechi.Node");
    n.fields.push(Field::List(entries));
    n.fields.push(Field::List(invalidated));
    n
}

fn entry(name: &str, value: PropertyValue) -> Item {
    Item::Entry(Property { name: name.to_string(), value })
}

#[test]
fn decode_properties_changed() {
    let n = properties_changed(
        "/org/eclipse/bluechi/node/n1",
        vec![
            entry("Status", PropertyValue::Text("offline".to_string())),
            entry("OtherProp", PropertyValue::Signed(5)),
        ],
        vec![Item::Text("Stale".to_string())],
    );
    assert_eq!(
        decode(&n),
        Decoded::Properties(PropertiesChange {
            interface: "org.eclipse.bluechi.Node".to_string(),
            changed: vec![
                Property { name: "Status".to_string(), value: PropertyValue::Text("offline".to_string()) },
                Property { name: "OtherProp".to_string(), value: PropertyValue::Signed(5) },
            ],
        })
    );
}

#[test]
fn decode_properties_changed_with_empty_lists() {
    let n = properties_changed("/n", Vec::new(), Vec::new());
    assert_eq!(
        decode(&n),
        Decoded::Properties(PropertiesChange {
            interface: "org.eclipse.bluechi.Node".to_string(),
            changed: Vec::new(),
        })
    );
}

#[test]
fn decode_properties_changed_rejects_other_shapes() {
    let n = Notification::new("/n", "org.freedesktop.DBus.Properties", "PropertiesChanged");
    assert_eq!(decode(&n), Decoded::Malformed(DecodeError::WrongArity { expected: 3, found: 0 }));

    let mut n = properties_changed("/n", Vec::new(), Vec::new());
    n.fields[0] = Field::Other;
    assert_eq!(decode(&n), Decoded::Malformed(DecodeError::WrongType { position: 0 }));

    let n = properties_changed("/n", vec![Item::Text("Status".to_string())], Vec::new());
    assert_eq!(decode(&n), Decoded::Malformed(DecodeError::WrongType { position: 1 }));

    let mut n = properties_changed("/n", Vec::new(), Vec::new());
    n.fields[1] = Field::Text("x".to_string());
    assert_eq!(decode(&n), Decoded::Malformed(DecodeError::WrongType { position: 1 }));

    let n = properties_changed("/n", Vec::new(), vec![Item::Other]);
    assert_eq!(decode(&n), Decoded::Malformed(DecodeError::WrongType { position: 2 }));

    let mut n = properties_changed("/n", Vec::new(), Vec::new());
    n.push_text("extra");
    assert_eq!(decode(&n), Decoded::Malformed(DecodeError::WrongArity { expected: 3, found: 4 }));
}

#[test]
fn properties_change_get_finds_by_name() {
    let change = PropertiesChange {
        interface: "i".to_string(),
        changed: vec![
            Property { name: "Status".to_string(), value: PropertyValue::Text("offline".to_string()) },
            Property { name: "OtherProp".to_string(), value: PropertyValue::Unsigned(5) },
        ],
    };
    assert_eq!(change.get("Status"), Some(&PropertyValue::Text("offline".to_string())));
    assert_eq!(change.get("OtherProp"), Some(&PropertyValue::Unsigned(5)));
    assert_eq!(change.get("Missing"), None);
    assert_eq!(change.get("status"), None);
}

#[test]
fn properties_change_get_takes_the_last_of_a_name() {
    let change = PropertiesChange {
        interface: "i".to_string(),
        changed: vec![
            Property { name: "Status".to_string(), value: PropertyValue::Text("first".to_string()) },
            Property { name: "Other".to_string(), value: PropertyValue::Other },
            Property { name: "Status".to_string(), value: PropertyValue::Text("last".to_string()) },
        ],
    };
    assert_eq!(change.get("Status"), Some(&PropertyValue::Text("last".to_string())));
}

#[test]
fn property_value_as_text() {
    assert_eq!(PropertyValue::Text("online".to_string()).as_text(), "online");
    assert_eq!(PropertyValue::Unsigned(5).as_text(), "");
    assert_eq!(PropertyValue::Signed(-5).as_text(), "");
    assert_eq!(PropertyValue::Other.as_text(), "");
}

#[test]
fn event_accessors() {
    let e = Event::UnitStateChanged(UnitStateChangedSignal {
        node: "n1".to_string(),
        unit: "sshd.service".to_string(),
        active_state: "active".to_string(),
        sub_state: "running".to_string(),
        reason: "".to_string(),
    });
    assert_eq!(e.node(), "n1");
    assert_eq!(e.unit(), Some(&"sshd.service".to_string()));
    assert_eq!(e.kind(), Some(SignalKind::UnitStateChanged));
    assert_eq!(e.clone(), e);
}
