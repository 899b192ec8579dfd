//! What holds of the registry, the decoder and the dispatcher together.
use vstd::prelude::*;
use crate::decode::{
    DecodedView, decode_spec, lemma_unit_new_round_trip, lemma_unit_properties_changed_round_trip,
    lemma_unit_removed_round_trip, lemma_unit_state_changed_round_trip, text_of, unit_signal_of,
};
use crate::dispatch::{DeliveryView, deliver_to, deliveries, delivery_for, passes_filter};
use crate::event::{EventView, SignalKind, MONITOR_INTERFACE};
use crate::payload::{FieldView, NotificationView};
use crate::registry::{
    CallbackId, RegistrationView, RegistryView, TargetView, is_listener_on, lemma_filter_ascending,
    not_id,
};
use crate::subscription::{SubscriptionView, WILDCARD, any_accepts};

verus! {

/// The deliveries to any callback but this one.
pub open spec fn not_callback(id: CallbackId) -> spec_fn(DeliveryView) -> bool {
    |d: DeliveryView| d.callback != id
}

/// The payload that carries a unit signal; the empty payload for a property
/// change, which is no unit signal.
pub open spec fn unit_fields(event: EventView) -> Seq<FieldView> {
    match event {
        EventView::UnitNew(s) => s.fields(),
        EventView::UnitRemoved(s) => s.fields(),
        EventView::UnitPropertiesChanged(s) => s.fields(),
        EventView::UnitStateChanged(s) => s.fields(),
        EventView::PropertyChanged(_) => Seq::empty(),
    }
}

/// The notification by which the session with the handle announces a unit
/// signal.
pub open spec fn unit_notification(session: Seq<char>, event: EventView) -> NotificationView {
    NotificationView {
        path: session,
        interface: MONITOR_INTERFACE@,
        member: match event.kind() {
            Some(kind) => kind.spec_name(),
            None => Seq::empty(),
        },
        fields: unit_fields(event),
    }
}

/// What a mapping filter keeps came from an element of the sequence.
pub proof fn lemma_filter_map_source<A, B>(s: Seq<A>, f: spec_fn(A) -> Option<B>, k: int)
    requires
        0 <= k < s.filter_map(f).len(),
    ensures
        exists|i: int| 0 <= i < s.len() && f(#[trigger] s[i]) == Some(s.filter_map(f)[k]),
    decreases s.len(),
{
    if s.len() > 0 {
        let init = s.drop_last();
        if k < init.filter_map(f).len() {
            lemma_filter_map_source(init, f, k);
            let i = choose|i: int|
                0 <= i < init.len() && f(#[trigger] init[i]) == Some(init.filter_map(f)[k]);
            assert(s[i] == init[i]);
        } else {
            assert(f(s[s.len() - 1]) == Some(s.filter_map(f)[k]));
        }
    }
}

/// What an element of the sequence is mapped to stands in what a mapping
/// filter keeps.
pub proof fn lemma_filter_map_keeps<A, B>(s: Seq<A>, f: spec_fn(A) -> Option<B>, i: int)
    requires
        0 <= i < s.len(),
        f(s[i]) is Some,
    ensures
        s.filter_map(f).contains(f(s[i])->Some_0),
    decreases s.len(),
{
    let init = s.drop_last();
    let all = s.filter_map(f);
    if i == s.len() - 1 {
        assert(all[all.len() - 1] == f(s[i])->Some_0);
    } else {
        lemma_filter_map_keeps(init, f, i);
        let kept = init.filter_map(f);
        let k = choose|k: int| 0 <= k < kept.len() && kept[k] == f(init[i])->Some_0;
        assert(all[k] == kept[k]);
    }
}

/// A mapping filter that maps every element to nothing keeps nothing.
pub proof fn lemma_filter_map_none<A, B>(s: Seq<A>, f: spec_fn(A) -> Option<B>)
    requires
        forall|i: int| 0 <= i < s.len() ==> f(#[trigger] s[i]) is None,
    ensures
        s.filter_map(f) == Seq::<B>::empty(),
    decreases s.len(),
{
    if s.len() > 0 {
        lemma_filter_map_none(s.drop_last(), f);
    }
}

/// A unit signal is decoded from the notification that announces it: the
/// event that comes out has the fields that went in.
pub proof fn lemma_unit_notification_round_trip(session: Seq<char>, event: EventView)
    requires
        event.kind() is Some,
    ensures
        decode_spec(unit_notification(session, event)) == DecodedView::Unit(event),
{
    let kind = event.kind()->Some_0;
    kind.lemma_name_round_trip();
    match event {
        EventView::UnitNew(s) => lemma_unit_new_round_trip(s),
        EventView::UnitRemoved(s) => lemma_unit_removed_round_trip(s),
        EventView::UnitPropertiesChanged(s) => lemma_unit_properties_changed_round_trip(s),
        EventView::UnitStateChanged(s) => lemma_unit_state_changed_round_trip(s),
        EventView::PropertyChanged(_) => {},
    }
}

/// A unit signal that is decoded from a payload names its node in the first
/// field of the payload and its unit in the second.
pub proof fn lemma_unit_signal_names(kind: SignalKind, fields: Seq<FieldView>)
    requires
        unit_signal_of(kind, fields) is Unit,
    ensures
        fields.len() == kind.spec_arity(),
        unit_signal_of(kind, fields)->Unit_0.kind() == Some(kind),
        unit_signal_of(kind, fields)->Unit_0.node() == text_of(fields[0]),
        unit_signal_of(kind, fields)->Unit_0.unit() == Some(text_of(fields[1])),
{
}

/// Every event that a callback on a session's signal receives is accepted
/// by a subscription of that session, provided that the session's filter
/// let the notification through, as the controller does before it sends:
/// the node and the unit of the event are those that the payload names, and
/// the callback is registered on that signal of that session.
pub proof fn lemma_delivered_event_matches_subscription(
    registry: RegistryView,
    n: NotificationView,
    k: int,
)
    requires
        registry.wf(),
        0 <= k < registry.deliveries(n).len(),
        registry.deliveries(n)[k].event.kind() is Some,
        passes_filter(registry, n),
    ensures
        registry.deliveries(n)[k].event.unit() is Some,
        any_accepts(
            registry.subscriptions_of(n.path),
            registry.deliveries(n)[k].event.node(),
            registry.deliveries(n)[k].event.unit()->Some_0,
        ),
        exists|i: int|
            0 <= i < registry.registrations.len() && (#[trigger] registry.registrations[i])
                == (RegistrationView {
                id: registry.deliveries(n)[k].callback,
                target: TargetView::Signal {
                    session: n.path,
                    kind: registry.deliveries(n)[k].event.kind()->Some_0,
                },
            }),
{
    let decoded = decode_spec(n);
    let f = deliver_to(n.path, decoded);
    let d = registry.deliveries(n)[k];
    lemma_filter_map_source(registry.registrations, f, k);
    let i = choose|i: int|
        0 <= i < registry.registrations.len() && f(#[trigger] registry.registrations[i]) == Some(d);
    let r = registry.registrations[i];
    assert(delivery_for(r, n.path, decoded) == Some(d));
    match (r.target, decoded) {
        (TargetView::Signal { session, kind }, DecodedView::Unit(event)) => {
            assert(d.event == event);
            let name = SignalKind::spec_from_name(n.member);
            assert(name is Some);
            lemma_unit_signal_names(name->Some_0, n.fields);
        },
        _ => {},
    }
}

/// A subscription with the wildcard as its node pattern takes a unit's
/// signals from every node, whether the client has seen the node listed or
/// not: the session's filter lets the signal through, and a callback on that
/// signal of the session receives the event with its fields as they were
/// sent.
pub proof fn lemma_wildcard_delivers_from_any_node(
    registry: RegistryView,
    i: int,
    j: int,
    event: EventView,
)
    requires
        registry.wf(),
        event.kind() is Some,
        0 <= i < registry.registrations.len(),
        registry.registrations[i].target is Signal,
        registry.registrations[i].target->kind == event.kind()->Some_0,
        0 <= j < registry.subscriptions_of(registry.registrations[i].target->session).len(),
        registry.subscriptions_of(registry.registrations[i].target->session)[j] == (SubscriptionView {
            node_pattern: WILDCARD@,
            unit_pattern: event.unit()->Some_0,
        }),
    ensures
        registry.covers(
            registry.registrations[i].target->session,
            event.node(),
            event.unit()->Some_0,
        ),
        registry.deliveries(
            unit_notification(registry.registrations[i].target->session, event),
        ).contains(DeliveryView { callback: registry.registrations[i].id, event }),
{
    let session = registry.registrations[i].target->session;
    let n = unit_notification(session, event);
    lemma_unit_notification_round_trip(session, event);
    let f = deliver_to(n.path, decode_spec(n));
    assert(f(registry.registrations[i]) == Some(
        DeliveryView { callback: registry.registrations[i].id, event },
    ));
    lemma_filter_map_keeps(registry.registrations, f, i);
    assert(registry.subscriptions_of(session)[j].accepts(event.node(), event.unit()->Some_0));
}

/// A filter on one element keeps it or keeps nothing.
proof fn lemma_filter_one<A>(x: A, pred: spec_fn(A) -> bool)
    ensures
        seq![x].filter(pred) == if pred(x) {
            seq![x]
        } else {
            Seq::<A>::empty()
        },
{
    reveal(Seq::filter);
    Seq::<A>::empty().lemma_filter_push(x, pred);
    assert(Seq::<A>::empty().push(x) =~= seq![x]);
    assert(Seq::<A>::empty().filter(pred) =~= Seq::<A>::empty());
}

/// To remove the registration under an identifier is to stop the deliveries
/// to that callback and no other: for every notification, what the
/// remaining registrations receive is what all of them received, without
/// the deliveries to the callback removed, and in the same order.
pub proof fn lemma_unwatch_stops_one_callback(
    registrations: Seq<RegistrationView>,
    id: CallbackId,
    path: Seq<char>,
    decoded: DecodedView,
)
    ensures
        deliveries(registrations.filter(not_id(id)), path, decoded) == deliveries(
            registrations,
            path,
            decoded,
        ).filter(not_callback(id)),
    decreases registrations.len(),
{
    reveal(Seq::filter);
    let f = deliver_to(path, decoded);
    if registrations.len() > 0 {
        let init = registrations.drop_last();
        let last = registrations.last();
        lemma_unwatch_stops_one_callback(init, id, path, decoded);
        let tail = match f(last) {
            Some(d) => seq![d],
            None => Seq::empty(),
        };
        assert(registrations.filter_map(f) == init.filter_map(f) + tail);
        Seq::filter_distributes_over_add(init.filter_map(f), tail, not_callback(id));
        match f(last) {
            Some(d) => {
                lemma_filter_one(d, not_callback(id));
                assert(d.callback == last.id);
            },
            None => {
                assert(tail.filter(not_callback(id)) =~= Seq::<DeliveryView>::empty());
            },
        }
        if last.id != id {
            let kept = init.filter(not_id(id));
            assert(kept.push(last).drop_last() =~= kept);
            assert(kept.push(last).filter_map(f) == kept.filter_map(f) + tail);
        } else {
            assert(init.filter_map(f).filter(not_callback(id)) + Seq::<DeliveryView>::empty()
                =~= init.filter_map(f).filter(not_callback(id)));
        }
    } else {
        assert(registrations.filter_map(f).filter(not_callback(id)) =~= Seq::<DeliveryView>::empty());
    }
}

impl RegistryView {
    /// After a registration is removed, the registry delivers for every
    /// notification what it delivered before, without the deliveries to the
    /// removed callback: every other callback is called as before.
    pub proof fn lemma_unwatch_leaves_the_others(self, id: CallbackId, n: NotificationView)
        ensures
            self.without(id).deliveries(n) == self.deliveries(n).filter(not_callback(id)),
    {
        lemma_unwatch_stops_one_callback(self.registrations, id, n.path, decode_spec(n));
    }

    /// Once the listener of a property of a node is removed, nothing listens
    /// to that property of that node any more, and no notification leads to
    /// a delivery to the removed callback.
    pub proof fn lemma_unwatch_frees_property(
        self,
        id: CallbackId,
        path: Seq<char>,
        property: Seq<char>,
    )
        requires
            self.wf(),
            self.listener_is(id, path, property),
        ensures
            !self.without(id).has_listener(path, property),
            !self.without(id).has_id(id),
            forall|n: NotificationView, k: int|
                0 <= k < self.without(id).deliveries(n).len() ==> (
                #[trigger] self.without(id).deliveries(n)[k]).callback != id,
    {
        let after = self.without(id);
        let kept = after.registrations;
        lemma_filter_ascending(self.registrations, not_id(id));
        let i = choose|i: int|
            0 <= i < self.registrations.len() && (#[trigger] self.registrations[i]).id == id
                && is_listener_on(self.registrations[i], path, property);
        assert forall|k: int| 0 <= k < kept.len() implies !is_listener_on(
            #[trigger] kept[k],
            path,
            property,
        ) && kept[k].id != id by {
            assert(not_id(id)(kept[k]));
            assert(self.registrations.contains(kept[k]));
            let j = choose|j: int| 0 <= j < self.registrations.len() && self.registrations[j] == kept[k];
            if j < i {
                assert(!crate::registry::same_property(self.registrations[j], self.registrations[i]));
            } else if i < j {
                assert(!crate::registry::same_property(self.registrations[i], self.registrations[j]));
            }
        }
        assert forall|n: NotificationView, k: int|
            0 <= k < after.deliveries(n).len() implies (#[trigger] after.deliveries(n)[k]).callback
            != id by {
            let f = deliver_to(n.path, decode_spec(n));
            lemma_filter_map_source(kept, f, k);
        }
    }

    /// What a registry delivers for two batches in a row is what it delivers
    /// for the first, then what it delivers for the second: where one pump
    /// ends and the next begins changes nothing.
    pub proof fn lemma_batches_add_up(self, first: Seq<NotificationView>, second: Seq<NotificationView>)
        ensures
            self.batch_deliveries(first + second) == self.batch_deliveries(first)
                + self.batch_deliveries(second),
        decreases second.len(),
    {
        if second.len() == 0 {
            assert(first + second =~= first);
            assert(self.batch_deliveries(first) + Seq::<DeliveryView>::empty()
                =~= self.batch_deliveries(first));
        } else {
            self.lemma_batches_add_up(first, second.drop_last());
            assert((first + second).drop_last() =~= first + second.drop_last());
            assert((first + second).last() == second.last());
            assert(self.batch_deliveries(first) + (self.batch_deliveries(second.drop_last())
                + self.deliveries(second.last())) =~= (self.batch_deliveries(first)
                + self.batch_deliveries(second.drop_last())) + self.deliveries(second.last()));
        }
    }

    /// A notification that is unknown or malformed runs no callback.
    pub proof fn lemma_dropped_delivers_nothing(self, n: NotificationView)
        requires
            decode_spec(n) is Unknown || decode_spec(n) is Malformed,
        ensures
            self.deliveries(n) == Seq::<DeliveryView>::empty(),
    {
        lemma_filter_map_none(self.registrations, deliver_to(n.path, decode_spec(n)));
    }

    /// A notification that is unknown or malformed is dropped alone: the
    /// notifications before it and after it in the batch are delivered as if
    /// it had not come.
    pub proof fn lemma_dropped_is_contained(
        self,
        before: Seq<NotificationView>,
        dropped: NotificationView,
        after: Seq<NotificationView>,
    )
        requires
            decode_spec(dropped) is Unknown || decode_spec(dropped) is Malformed,
        ensures
            self.batch_deliveries(before.push(dropped) + after) == self.batch_deliveries(
                before + after,
            ),
            self.batch_deliveries(before.push(dropped) + after) == self.batch_deliveries(before)
                + self.batch_deliveries(after),
    {
        self.lemma_dropped_delivers_nothing(dropped);
        self.lemma_batches_add_up(before.push(dropped), after);
        self.lemma_batches_add_up(before, after);
        assert(before.push(dropped).drop_last() =~= before);
        assert(self.batch_deliveries(before) + Seq::<DeliveryView>::empty()
            =~= self.batch_deliveries(before));
    }
}

} // verus!
