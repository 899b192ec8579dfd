//! From a notification to the callbacks to run.
//!
//! A notification is decoded once. A unit signal goes to every callback
//! registered on that signal of the session it came from; changed properties
//! go to every listener of the node they came from whose property is among
//! them. The filter of a session is applied by the controller before it
//! sends, so the dispatcher does not apply it again.
use vstd::prelude::*;
use crate::decode::{DecodeError, Decoded, DecodedView, decode, decode_spec, text_of};
use crate::event::{Event, EventView, PropertyChanged, PropertyChangedView};
use crate::payload::{Field, Notification, NotificationView, batch_view};
use crate::registry::{
    CallbackId, Registration, RegistrationView, Registry, RegistryView, Target, TargetView,
    registrations_view,
};
use crate::text::text_eq;

verus! {

/// One callback to run, and the event to hand to it.
#[derive(Debug, PartialEq, Eq)]
pub struct Delivery {
    pub callback: CallbackId,
    pub event: Event,
}

pub struct DeliveryView {
    pub callback: CallbackId,
    pub event: EventView,
}

impl View for Delivery {
    type V = DeliveryView;

    open spec fn view(&self) -> DeliveryView {
        DeliveryView { callback: self.callback, event: self.event@ }
    }
}

/// The deliveries of a batch, each by its view.
pub open spec fn deliveries_view(deliveries: Seq<Delivery>) -> Seq<DeliveryView> {
    deliveries.map_values(|d: Delivery| d@)
}

/// What one registration receives from a decoded notification that came
/// from the object at `path`.
///
/// A registration on a signal of a session receives the unit signal of that
/// kind that came from the session. A registration on a property of a node
/// receives the new value of the property where the node announced one.
pub open spec fn delivery_for(r: RegistrationView, path: Seq<char>, decoded: DecodedView) -> Option<
    DeliveryView,
> {
    match (r.target, decoded) {
        (TargetView::Signal { session, kind }, DecodedView::Unit(event)) => if session == path
            && event.kind() == Some(kind) {
            Some(DeliveryView { callback: r.id, event })
        } else {
            None
        },
        (TargetView::Property { node, path: p, property }, DecodedView::Properties(change)) => if p
            == path {
            match change.get(property) {
                Some(value) => Some(
                    DeliveryView {
                        callback: r.id,
                        event: EventView::PropertyChanged(
                            PropertyChangedView { node, property, value },
                        ),
                    },
                ),
                None => None,
            }
        } else {
            None
        },
        _ => None,
    }
}

/// `delivery_for`, as a function of the registration.
pub open spec fn deliver_to(path: Seq<char>, decoded: DecodedView) -> spec_fn(
    RegistrationView,
) -> Option<DeliveryView> {
    |r: RegistrationView| delivery_for(r, path, decoded)
}

/// What the registrations receive from a decoded notification, in the order
/// of the registrations.
pub open spec fn deliveries(
    registrations: Seq<RegistrationView>,
    path: Seq<char>,
    decoded: DecodedView,
) -> Seq<DeliveryView> {
    registrations.filter_map(deliver_to(path, decoded))
}

/// What became of a notification, for the log.
#[derive(Clone, Copy, Debug, PartialEq, Eq, Structural)]
pub enum Outcome {
    /// The notification was decoded and handed to whoever listens to it.
    Decoded,
    /// The notification has a name that the library does not know; it was
    /// dropped.
    Unknown,
    /// The payload of the notification could not be read; it was dropped.
    Malformed(DecodeError),
}

/// What became of a decoded notification.
pub open spec fn outcome_of(decoded: DecodedView) -> Outcome {
    match decoded {
        DecodedView::Unit(_) => Outcome::Decoded,
        DecodedView::Properties(_) => Outcome::Decoded,
        DecodedView::Unknown => Outcome::Unknown,
        DecodedView::Malformed(e) => Outcome::Malformed(e),
    }
}

/// What became of a notification.
pub open spec fn outcome_of_notification() -> spec_fn(NotificationView) -> Outcome {
    |n: NotificationView| outcome_of(decode_spec(n))
}

/// What became of each notification of a batch, in the order of the batch.
pub open spec fn batch_outcomes(batch: Seq<NotificationView>) -> Seq<Outcome> {
    batch.map_values(outcome_of_notification())
}

/// The answer to one notification.
#[derive(Debug, PartialEq, Eq)]
pub struct Dispatch {
    pub deliveries: Vec<Delivery>,
    pub outcome: Outcome,
}

/// The answer to a batch of notifications: the callbacks to run, in order,
/// and what became of each notification, for the log.
#[derive(Debug, PartialEq, Eq)]
pub struct BatchDispatch {
    pub deliveries: Vec<Delivery>,
    pub outcomes: Vec<Outcome>,
}

impl RegistryView {
    /// What the registry delivers for a notification.
    pub open spec fn deliveries(self, n: NotificationView) -> Seq<DeliveryView> {
        deliveries(self.registrations, n.path, decode_spec(n))
    }

    /// What the registry delivers for a batch of notifications: what it
    /// delivers for each, in the order of the batch.
    pub open spec fn batch_deliveries(self, batch: Seq<NotificationView>) -> Seq<DeliveryView>
        decreases batch.len(),
    {
        if batch.len() == 0 {
            Seq::empty()
        } else {
            self.batch_deliveries(batch.drop_last()) + self.deliveries(batch.last())
        }
    }
}

/// Whether the filter of the session that sent a notification lets the
/// notification through: whether one of the session's subscriptions accepts
/// the node and the unit that the payload names first.
pub open spec fn passes_filter(registry: RegistryView, n: NotificationView) -> bool {
    &&& n.fields.len() >= 2
    &&& registry.covers(n.path, text_of(n.fields[0]), text_of(n.fields[1]))
}

/// What one registration receives from a decoded notification.
fn deliver(r: &Registration, path: &str, decoded: &Decoded) -> (delivery: Option<Delivery>)
    ensures
        match delivery {
            Some(d) => delivery_for(r@, path@, decoded@) == Some(d@),
            None => delivery_for(r@, path@, decoded@) is None,
        },
{
    match (&r.target, decoded) {
        (Target::Signal { session, kind }, Decoded::Unit(event)) => {
            let wanted = match event.kind() {
                Some(k) => k == *kind,
                None => false,
            };
            if wanted && text_eq(session, path) {
                Some(Delivery { callback: r.id, event: event.clone() })
            } else {
                None
            }
        },
        (Target::Property { node, path: p, property }, Decoded::Properties(change)) => {
            if text_eq(p, path) {
                match change.get(property) {
                    Some(value) => Some(
                        Delivery {
                            callback: r.id,
                            event: Event::PropertyChanged(
                                PropertyChanged {
                                    node: node.clone(),
                                    property: property.clone(),
                                    value: value.clone(),
                                },
                            ),
                        },
                    ),
                    None => None,
                }
            } else {
                None
            }
        },
        _ => None,
    }
}

/// Routes a decoded notification that came from the object at `path` to the
/// registrations that listen to it.
pub fn route(registrations: &Vec<Registration>, path: &str, decoded: &Decoded) -> (out: Vec<
    Delivery,
>)
    ensures
        deliveries_view(out@) == deliveries(registrations_view(registrations@), path@, decoded@),
{
    let ghost all = registrations_view(registrations@);
    let ghost f = deliver_to(path@, decoded@);
    let mut out: Vec<Delivery> = Vec::new();
    let mut i: usize = 0;
    assert(deliveries_view(out@) =~= all.take(0).filter_map(f));
    while i < registrations.len()
        invariant
            all == registrations_view(registrations@),
            f == deliver_to(path@, decoded@),
            i <= registrations.len(),
            deliveries_view(out@) == all.take(i as int).filter_map(f),
        decreases registrations.len() - i,
    {
        assert(all[i as int] == registrations@[i as int]@);
        proof {
            all.lemma_filter_map_take_succ(f, i as int);
        }
        let ghost before = deliveries_view(out@);
        match deliver(&registrations[i], path, decoded) {
            Some(d) => {
                out.push(d);
                assert(deliveries_view(out@) =~= before + seq![d@]);
            },
            None => {
                assert(before + Seq::<DeliveryView>::empty() =~= before);
            },
        }
        i += 1;
    }
    assert(all.take(i as int) == all);
    out
}

impl Registry {
    /// Decodes a notification and answers with the callbacks to run, in the
    /// order of their registration. A notification that is unknown or
    /// malformed runs none and is no error; the outcome says which it was.
    pub fn dispatch(&self, n: &Notification) -> (answer: Dispatch)
        ensures
            deliveries_view(answer.deliveries@) == self@.deliveries(n@),
            answer.outcome == outcome_of(decode_spec(n@)),
    {
        let decoded = decode(n);
        let outcome = match &decoded {
            Decoded::Unit(_) => Outcome::Decoded,
            Decoded::Properties(_) => Outcome::Decoded,
            Decoded::Unknown => Outcome::Unknown,
            Decoded::Malformed(e) => Outcome::Malformed(*e),
        };
        let deliveries = route(self.registrations(), &n.path, &decoded);
        Dispatch { deliveries, outcome }
    }

    /// Whether the filter of the session that sent a notification, as far as
    /// the registry has recorded it, lets the notification through. The
    /// dispatcher does not ask: the controller has filtered what it sends.
    pub fn passes_filter(&self, n: &Notification) -> (passes: bool)
        ensures
            passes == passes_filter(self@, n@),
    {
        if n.fields.len() < 2 {
            return false;
        }
        assert(n@.fields[0] == n.fields@[0]@ && n@.fields[1] == n.fields@[1]@);
        let node = match &n.fields[0] {
            Field::Text(s) => s.clone(),
            _ => String::new(),
        };
        let unit = match &n.fields[1] {
            Field::Text(s) => s.clone(),
            _ => String::new(),
        };
        self.covers(&n.path, &node, &unit)
    }

    /// Dispatches the notifications of one pump, in the order in which the
    /// transport delivered them. A notification that is dropped does not
    /// keep the ones after it from their callbacks.
    pub fn dispatch_batch(&self, batch: &Vec<Notification>) -> (answer: BatchDispatch)
        ensures
            deliveries_view(answer.deliveries@) == self@.batch_deliveries(batch_view(batch@)),
            answer.outcomes@ == batch_outcomes(batch_view(batch@)),
    {
        let ghost all = batch_view(batch@);
        let mut out: Vec<Delivery> = Vec::new();
        let mut outcomes: Vec<Outcome> = Vec::new();
        let mut i: usize = 0;
        assert(deliveries_view(out@) =~= self@.batch_deliveries(all.take(0)));
        while i < batch.len()
            invariant
                all == batch_view(batch@),
                i <= batch.len(),
                deliveries_view(out@) == self@.batch_deliveries(all.take(i as int)),
                outcomes@ == batch_outcomes(all.take(i as int)),
            decreases batch.len() - i,
        {
            assert(all[i as int] == batch@[i as int]@);
            assert(all.take(i + 1).drop_last() == all.take(i as int));
            let ghost before = deliveries_view(out@);
            let mut answer = self.dispatch(&batch[i]);
            let ghost added = deliveries_view(answer.deliveries@);
            out.append(&mut answer.deliveries);
            outcomes.push(answer.outcome);
            assert(deliveries_view(out@) =~= before + added);
            assert(outcomes@ =~= batch_outcomes(all.take(i + 1)));
            i += 1;
        }
        assert(all.take(i as int) == all);
        BatchDispatch { deliveries: out, outcomes }
    }
}

} // verus!
