use bluechi_monitor::{
    route, DecodeError, Decoded, Delivery, Event, Field, Item, NodeDirectory, Notification, Outcome,
    Property, PropertyChanged, PropertyValue, Registry, SignalKind, UnitNewSignal,
    UnitRemovedSignal, UnitStateChangedSignal,
};

const SESSION: &str = "/org/eclipse/bluechi/monitor/1";
const MONITOR: &str = "org.eclipse.bluechi.Monitor";

fn monitor_signal(path: &str, member: &str, values: &[&str]) -> Notification {
    let mut n = Notification::new(path, MONITOR, member);
    for v in values {
        n.push_text(v);
    }
    n
}

fn properties_changed(path: &str, entries: Vec<(&str, PropertyValue)>) -> Notification {
    let mut n = Notification::new(path, "org.freedesktop.DBus.Properties", "PropertiesChanged");
    n.push_text("org.eclipse.bluechi.Node");
    n.fields.push(Field::List(
        entries
            .into_iter()
            .map(|(name, value)| Item::Entry(Property { name: name.to_string(), value }))
            .collect(),
    ));
    n.fields.push(Field::List(Vec::new()));
    n
}

fn unit_new(node: &str, unit: &str, reason: &str) -> Event {
    Event::UnitNew(UnitNewSignal {
        node: node.to_string(),
        unit: unit.to_string(),
        reason: reason.to_string(),
    })
}

fn state_changed(node: &str, unit: &str, active: &str, sub: &str, reason: &str) -> Event {
    Event::UnitStateChanged(UnitStateChangedSignal {
        node: node.to_string(),
        unit: unit.to_string(),
        active_state: active.to_string(),
        sub_state: sub.to_string(),
        reason: reason.to_string(),
    })
}

fn status_changed(node: &str, status: &str) -> Event {
    Event::PropertyChanged(PropertyChanged {
        node: node.to_string(),
        property: "Status".to_string(),
        value: PropertyValue::Text(status.to_string()),
    })
}

struct Monitor {
    registry: Registry,
    on_new: u64,
    on_removed: u64,
    on_properties: u64,
    on_state: u64,
}

fn monitor_of_sshd() -> Monitor {
    let mut registry = Registry::new();
    assert!(registry.open_session(SESSION));
    let on_new = registry.on_signal(SESSION, SignalKind::UnitNew).unwrap();
    let on_removed = registry.on_signal(SESSION, SignalKind::UnitRemoved).unwrap();
    let on_properties = registry.on_signal(SESSION, SignalKind::UnitPropertiesChanged).unwrap();
    let on_state = registry.on_signal(SESSION, SignalKind::UnitStateChanged).unwrap();
    assert_eq!(registry.subscribe(SESSION, "*", "sshd.service"), Ok(true));
    Monitor { registry, on_new, on_removed, on_properties, on_state }
}

#[test]
fn round_trip_of_a_signal_stream() {
    let m = monitor_of_sshd();
    let stream = vec![
        monitor_signal(SESSION, "UnitNew", &["n1", "sshd.service", "activation"]),
        monitor_signal(SESSION, "UnitStateChanged", &["n1", "sshd.service", "activating", "start", ""]),
        monitor_signal(SESSION, "UnitStateChanged", &["n1", "sshd.service", "active", "running", ""]),
    ];
    let answer = m.registry.dispatch_batch(&stream);
    assert_eq!(answer.outcomes, vec![Outcome::Decoded, Outcome::Decoded, Outcome::Decoded]);
    let deliveries = answer.deliveries;
    assert_eq!(
        deliveries,
        vec![
            Delivery { callback: m.on_new, event: unit_new("n1", "sshd.service", "activation") },
            Delivery {
                callback: m.on_state,
                event: state_changed("n1", "sshd.service", "activating", "start", ""),
            },
            Delivery {
                callback: m.on_state,
                event: state_changed("n1", "sshd.service", "active", "running", ""),
            },
        ]
    );
    for d in &deliveries {
        assert!(d.callback != m.on_removed && d.callback != m.on_properties);
    }
}

#[test]
fn each_signal_goes_to_the_handler_of_its_name() {
    let m = monitor_of_sshd();
    let answer = m.registry.dispatch(&monitor_signal(SESSION, "UnitRemoved", &["n1", "sshd.service", "gone"]));
    assert_eq!(answer.outcome, Outcome::Decoded);
    assert_eq!(
        answer.deliveries,
        vec![Delivery {
            callback: m.on_removed,
            event: Event::UnitRemoved(UnitRemovedSignal {
                node: "n1".to_string(),
                unit: "sshd.service".to_string(),
                reason: "gone".to_string(),
            }),
        }]
    );
    let answer =
        m.registry.dispatch(&monitor_signal(SESSION, "UnitPropertiesChanged", &["n1", "sshd.service", "i"]));
    assert_eq!(answer.deliveries.len(), 1);
    assert_eq!(answer.deliveries[0].callback, m.on_properties);
}

#[test]
fn delivered_event_matches_a_subscription() {
    let m = monitor_of_sshd();
    let n = monitor_signal(SESSION, "UnitNew", &["n1", "sshd.service", "activation"]);
    assert!(m.registry.covers(SESSION, "n1", "sshd.service"));
    for d in m.registry.dispatch(&n).deliveries {
        let unit = d.event.unit().unwrap().clone();
        assert!(m.registry.covers(SESSION, d.event.node(), &unit));
        assert_eq!(d.event.node(), "n1");
        assert_eq!(unit, "sshd.service");
    }
}

#[test]
fn wildcard_delivers_from_a_node_never_listed() {
    let m = monitor_of_sshd();
    let directory = NodeDirectory::new();
    assert!(directory.nodes().is_empty());
    assert!(m.registry.covers(SESSION, "brand-new-node", "sshd.service"));
    let answer = m.registry.dispatch(&monitor_signal(
        SESSION,
        "UnitStateChanged",
        &["brand-new-node", "sshd.service", "active", "running", ""],
    ));
    assert_eq!(
        answer.deliveries,
        vec![Delivery {
            callback: m.on_state,
            event: state_changed("brand-new-node", "sshd.service", "active", "running", ""),
        }]
    );
}

#[test]
fn unknown_signal_runs_no_handler_and_is_no_error() {
    let m = monitor_of_sshd();
    let answer = m.registry.dispatch(&monitor_signal(SESSION, "UnitFrobnicated", &["n1", "sshd.service", "x"]));
    assert_eq!(answer.deliveries, Vec::<Delivery>::new());
    assert_eq!(answer.outcome, Outcome::Unknown);
    let answer = m.registry.dispatch(&Notification::new(SESSION, "org.example.Else", "UnitNew"));
    assert_eq!(answer.deliveries, Vec::<Delivery>::new());
    assert_eq!(answer.outcome, Outcome::Unknown);
}

#[test]
fn malformed_payload_is_dropped_with_its_reason() {
    let m = monitor_of_sshd();
    let answer = m.registry.dispatch(&monitor_signal(SESSION, "UnitNew", &["n1", "sshd.service"]));
    assert_eq!(answer.deliveries, Vec::<Delivery>::new());
    assert_eq!(answer.outcome, Outcome::Malformed(DecodeError::WrongArity { expected: 3, found: 2 }));
}

#[test]
fn decode_failure_does_not_stop_the_batch() {
    let m = monitor_of_sshd();
    let good_before = monitor_signal(SESSION, "UnitNew", &["n1", "sshd.service", "activation"]);
    let bad = monitor_signal(SESSION, "UnitStateChanged", &["n1", "sshd.service"]);
    let unknown = monitor_signal(SESSION, "UnitFrobnicated", &[]);
    let good_after = monitor_signal(SESSION, "UnitStateChanged", &["n1", "sshd.service", "active", "running", ""]);
    let answer = m.registry.dispatch_batch(&vec![good_before, bad, unknown, good_after]);
    assert_eq!(
        answer.outcomes,
        vec![
            Outcome::Decoded,
            Outcome::Malformed(DecodeError::WrongArity { expected: 5, found: 2 }),
            Outcome::Unknown,
            Outcome::Decoded,
        ]
    );
    let with_bad = answer.deliveries;
    let without_bad = m
        .registry
        .dispatch_batch(&vec![
            monitor_signal(SESSION, "UnitNew", &["n1", "sshd.service", "activation"]),
            monitor_signal(SESSION, "UnitStateChanged", &["n1", "sshd.service", "active", "running", ""]),
        ])
        .deliveries;
    assert_eq!(with_bad, without_bad);
    assert_eq!(with_bad.len(), 2);
    assert_eq!(with_bad[1].callback, m.on_state);
}

#[test]
fn decode_failure_does_not_stop_the_next_pump() {
    let m = monitor_of_sshd();
    let first = m.registry.dispatch_batch(&vec![monitor_signal(SESSION, "UnitNew", &["only-one"])]);
    assert!(first.deliveries.is_empty());
    assert_eq!(first.outcomes, vec![Outcome::Malformed(DecodeError::WrongArity { expected: 3, found: 1 })]);
    let second = m
        .registry
        .dispatch_batch(&vec![monitor_signal(SESSION, "UnitNew", &["n1", "sshd.service", "activation"])])
        .deliveries;
    assert_eq!(
        second,
        vec![Delivery { callback: m.on_new, event: unit_new("n1", "sshd.service", "activation") }]
    );
}

#[test]
fn empty_batch_delivers_nothing() {
    let m = monitor_of_sshd();
    let answer = m.registry.dispatch_batch(&Vec::new());
    assert!(answer.deliveries.is_empty());
    assert!(answer.outcomes.is_empty());
}

#[test]
fn signal_of_another_session_is_not_delivered() {
    let m = monitor_of_sshd();
    let answer = m.registry.dispatch(&monitor_signal(
        "/org/eclipse/bluechi/monitor/2",
        "UnitNew",
        &["n1", "sshd.service", "activation"],
    ));
    assert!(answer.deliveries.is_empty());
    assert_eq!(answer.outcome, Outcome::Decoded);
}

#[test]
fn every_handler_of_a_signal_is_called_in_order_of_registration() {
    let mut m = monitor_of_sshd();
    let second = m.registry.on_signal(SESSION, SignalKind::UnitNew).unwrap();
    let answer = m.registry.dispatch(&monitor_signal(SESSION, "UnitNew", &["n1", "sshd.service", "a"]));
    let ids: Vec<u64> = answer.deliveries.iter().map(|d| d.callback).collect();
    assert_eq!(ids, vec![m.on_new, second]);
    assert_eq!(answer.deliveries[0].event, answer.deliveries[1].event);
}

#[test]
fn closed_session_receives_nothing() {
    let mut m = monitor_of_sshd();
    assert!(m.registry.close_session(SESSION));
    let answer = m.registry.dispatch(&monitor_signal(SESSION, "UnitNew", &["n1", "sshd.service", "a"]));
    assert!(answer.deliveries.is_empty());
}

#[test]
fn direct_listener_gets_the_property_it_asked_for() {
    let mut registry = Registry::new();
    let cb = registry.watch_property("n1", "/org/eclipse/bluechi/node/n1", "Status").unwrap();
    let n = properties_changed(
        "/org/eclipse/bluechi/node/n1",
        vec![
            ("Status", PropertyValue::Text("offline".to_string())),
            ("OtherProp", PropertyValue::Signed(5)),
        ],
    );
    let answer = registry.dispatch(&n);
    assert_eq!(answer.outcome, Outcome::Decoded);
    assert_eq!(answer.deliveries, vec![Delivery { callback: cb, event: status_changed("n1", "offline") }]);
    match &answer.deliveries[0].event {
        Event::PropertyChanged(p) => assert_eq!(p.value.as_text(), "offline"),
        other => panic!("unexpected event {:?}", other),
    }
}

#[test]
fn direct_listener_is_silent_when_its_property_is_absent() {
    let mut registry = Registry::new();
    registry.watch_property("n1", "/org/eclipse/bluechi/node/n1", "Status").unwrap();
    let n = properties_changed("/org/eclipse/bluechi/node/n1", vec![("OtherProp", PropertyValue::Signed(5))]);
    let answer = registry.dispatch(&n);
    assert!(answer.deliveries.is_empty());
    assert_eq!(answer.outcome, Outcome::Decoded);
}

#[test]
fn direct_listener_hears_only_its_node() {
    let mut registry = Registry::new();
    let n1 = registry.watch_property("n1", "/node/n1", "Status").unwrap();
    let n2 = registry.watch_property("n2", "/node/n2", "Status").unwrap();
    let answer =
        registry.dispatch(&properties_changed("/node/n2", vec![("Status", PropertyValue::Text("online".to_string()))]));
    assert_eq!(answer.deliveries, vec![Delivery { callback: n2, event: status_changed("n2", "online") }]);
    assert_ne!(n1, n2);
}

#[test]
fn direct_listener_gets_a_value_that_is_no_text() {
    let mut registry = Registry::new();
    let cb = registry.watch_property("n1", "/node/n1", "OtherProp").unwrap();
    let answer = registry.dispatch(&properties_changed(
        "/node/n1",
        vec![("Status", PropertyValue::Text("offline".to_string())), ("OtherProp", PropertyValue::Unsigned(5))],
    ));
    assert_eq!(
        answer.deliveries,
        vec![Delivery {
            callback: cb,
            event: Event::PropertyChanged(PropertyChanged {
                node: "n1".to_string(),
                property: "OtherProp".to_string(),
                value: PropertyValue::Unsigned(5),
            }),
        }]
    );
}

#[test]
fn unwatch_stops_one_listener_and_leaves_the_others() {
    let mut registry = Registry::new();
    let status = registry.watch_property("n1", "/node/n1", "Status").unwrap();
    let other = registry.watch_property("n1", "/node/n1", "OtherProp").unwrap();
    let n = || {
        properties_changed(
            "/node/n1",
            vec![("Status", PropertyValue::Text("offline".to_string())), ("OtherProp", PropertyValue::Signed(5))],
        )
    };
    let before = registry.dispatch(&n()).deliveries;
    assert_eq!(before.len(), 2);
    assert!(registry.unwatch(status));
    let after = registry.dispatch(&n()).deliveries;
    let expected: Vec<Delivery> = before.into_iter().filter(|d| d.callback != status).collect();
    assert_eq!(after, expected);
    assert_eq!(after.len(), 1);
    assert_eq!(after[0].callback, other);
}

#[test]
fn route_takes_a_decoded_notification() {
    let m = monitor_of_sshd();
    let decoded = Decoded::Unit(unit_new("n1", "sshd.service", "activation"));
    let out = route(m.registry.registrations(), SESSION, &decoded);
    assert_eq!(out, vec![Delivery { callback: m.on_new, event: unit_new("n1", "sshd.service", "activation") }]);
    assert!(route(m.registry.registrations(), SESSION, &Decoded::Unknown).is_empty());
    assert!(route(
        m.registry.registrations(),
        SESSION,
        &Decoded::Malformed(DecodeError::WrongType { position: 0 })
    )
    .is_empty());
    assert!(route(m.registry.registrations(), "/elsewhere", &decoded).is_empty());
}

#[test]
fn passes_filter_follows_the_recorded_subscriptions() {
    let m = monitor_of_sshd();
    assert!(m.registry.passes_filter(&monitor_signal(SESSION, "UnitNew", &["n1", "sshd.service", "a"])));
    assert!(m.registry.passes_filter(&monitor_signal(SESSION, "UnitNew", &["other-node", "sshd.service", "a"])));
    assert!(!m.registry.passes_filter(&monitor_signal(SESSION, "UnitNew", &["n1", "httpd.service", "a"])));
    assert!(!m.registry.passes_filter(&monitor_signal("/elsewhere", "UnitNew", &["n1", "sshd.service", "a"])));
    assert!(!m.registry.passes_filter(&monitor_signal(SESSION, "UnitNew", &["n1"])));
}

#[test]
fn dispatcher_does_not_filter_again() {
    let m = monitor_of_sshd();
    let n = monitor_signal(SESSION, "UnitNew", &["n1", "httpd.service", "activation"]);
    assert!(!m.registry.passes_filter(&n));
    let answer = m.registry.dispatch(&n);
    assert_eq!(
        answer.deliveries,
        vec![Delivery { callback: m.on_new, event: unit_new("n1", "httpd.service", "activation") }]
    );
}
