//! The registry of what the client listens to: the monitor sessions with
//! their subscriptions, and every callback registration, be it on a signal
//! of a session or on a property of a node.
//!
//! The registry holds no callback. Each registration gets an identifier, the
//! program keeps its callbacks by identifier, and the dispatcher answers
//! every notification with the identifiers to call.
use vstd::prelude::*;
use crate::event::SignalKind;
use crate::subscription::{
    Subscription, SubscriptionView, any_accepts, subscriptions_view,
};
use crate::text::text_eq;

verus! {

/// The identifier of a registration. Identifiers count up from one and are
/// never used twice.
pub type CallbackId = u64;

/// What a registration listens to.
#[derive(Debug, PartialEq, Eq)]
pub enum Target {
    /// One signal of the monitor session with this handle.
    Signal { session: String, kind: SignalKind },
    /// One property of the node with this name and handle.
    Property { node: String, path: String, property: String },
}

pub enum TargetView {
    Signal { session: Seq<char>, kind: SignalKind },
    Property { node: Seq<char>, path: Seq<char>, property: Seq<char> },
}

impl View for Target {
    type V = TargetView;

    open spec fn view(&self) -> TargetView {
        match self {
            Target::Signal { session, kind } => TargetView::Signal { session: session@, kind: *kind },
            Target::Property { node, path, property } => TargetView::Property {
                node: node@,
                path: path@,
                property: property@,
            },
        }
    }
}

impl Clone for Target {
    fn clone(&self) -> (copy: Self)
        ensures
            copy@ == self@,
    {
        match self {
            Target::Signal { session, kind } => Target::Signal {
                session: session.clone(),
                kind: *kind,
            },
            Target::Property { node, path, property } => Target::Property {
                node: node.clone(),
                path: path.clone(),
                property: property.clone(),
            },
        }
    }
}

/// One callback registration.
#[derive(Debug, PartialEq, Eq)]
pub struct Registration {
    pub id: CallbackId,
    pub target: Target,
}

pub struct RegistrationView {
    pub id: CallbackId,
    pub target: TargetView,
}

impl View for Registration {
    type V = RegistrationView;

    open spec fn view(&self) -> RegistrationView {
        RegistrationView { id: self.id, target: self.target@ }
    }
}

impl Clone for Registration {
    fn clone(&self) -> (copy: Self)
        ensures
            copy@ == self@,
    {
        Registration { id: self.id, target: self.target.clone() }
    }
}

/// The registrations of a registry, each by its view.
pub open spec fn registrations_view(registrations: Seq<Registration>) -> Seq<RegistrationView> {
    registrations.map_values(|r: Registration| r@)
}

/// A monitor session: the handle under which the controller made it, and
/// the subscriptions recorded for it.
#[derive(Debug, PartialEq, Eq)]
pub struct MonitorSession {
    pub handle: String,
    pub subscriptions: Vec<Subscription>,
}

pub struct SessionView {
    pub handle: Seq<char>,
    pub subscriptions: Seq<SubscriptionView>,
}

impl View for MonitorSession {
    type V = SessionView;

    open spec fn view(&self) -> SessionView {
        SessionView { handle: self.handle@, subscriptions: subscriptions_view(self.subscriptions@) }
    }
}

/// The sessions of a registry, each by its view.
pub open spec fn sessions_view(sessions: Seq<MonitorSession>) -> Seq<SessionView> {
    sessions.map_values(|s: MonitorSession| s@)
}

/// Why a registry refused a call.
#[derive(Clone, Copy, Debug, PartialEq, Eq, Structural)]
pub enum RegistryError {
    /// No open session has the handle.
    UnknownSession,
    /// Every identifier has been given out.
    IdsExhausted,
}

/// The registrations under any identifier but this one.
pub open spec fn not_id(id: CallbackId) -> spec_fn(RegistrationView) -> bool {
    |r: RegistrationView| r.id != id
}

/// Whether a registration listens to a signal of the session.
pub open spec fn is_handler_of(r: RegistrationView, session: Seq<char>) -> bool {
    match r.target {
        TargetView::Signal { session: s, .. } => s == session,
        _ => false,
    }
}

/// The registrations that listen to no signal of the session.
pub open spec fn not_handler_of(session: Seq<char>) -> spec_fn(RegistrationView) -> bool {
    |r: RegistrationView| !is_handler_of(r, session)
}

/// The sessions under any handle but this one.
pub open spec fn not_session(handle: Seq<char>) -> spec_fn(SessionView) -> bool {
    |s: SessionView| s.handle != handle
}

/// Whether a registration listens to the property of the node with the
/// handle.
pub open spec fn is_listener_on(r: RegistrationView, path: Seq<char>, property: Seq<char>) -> bool {
    match r.target {
        TargetView::Property { path: p, property: q, .. } => p == path && q == property,
        _ => false,
    }
}

/// Whether two registrations listen to the same property of the same node.
pub open spec fn same_property(a: RegistrationView, b: RegistrationView) -> bool {
    match a.target {
        TargetView::Property { path, property, .. } => is_listener_on(b, path, property),
        _ => false,
    }
}

/// The session with the subscription added, where the session has the handle
/// and does not hold the subscription yet; the session as it is otherwise.
pub open spec fn subscribed(s: SessionView, handle: Seq<char>, subscription: SubscriptionView) -> SessionView {
    if s.handle == handle && !s.subscriptions.contains(subscription) {
        SessionView { subscriptions: s.subscriptions.push(subscription), ..s }
    } else {
        s
    }
}

/// Whether the registrations stand in the order of their identifiers, which
/// is the order in which they were made.
pub open spec fn ascending(registrations: Seq<RegistrationView>) -> bool {
    forall|i: int, j: int|
        0 <= i < j < registrations.len() ==> (#[trigger] registrations[i]).id < (
        #[trigger] registrations[j]).id
}

/// What a registry holds.
pub struct RegistryView {
    pub sessions: Seq<SessionView>,
    pub registrations: Seq<RegistrationView>,
    /// The identifier that the next registration gets.
    pub next_id: CallbackId,
}

impl RegistryView {
    /// Whether a session with the handle is open.
    pub open spec fn has_session(self, handle: Seq<char>) -> bool {
        exists|i: int| 0 <= i < self.sessions.len() && (#[trigger] self.sessions[i]).handle == handle
    }

    /// The subscriptions of the session with the handle; none where no such
    /// session is open.
    pub open spec fn subscriptions_of(self, handle: Seq<char>) -> Seq<SubscriptionView> {
        if self.has_session(handle) {
            let i = choose|i: int|
                0 <= i < self.sessions.len() && (#[trigger] self.sessions[i]).handle == handle;
            self.sessions[i].subscriptions
        } else {
            Seq::empty()
        }
    }

    /// Whether the filter of the session with the handle lets a unit on a
    /// node through: whether any of its subscriptions accepts it.
    pub open spec fn covers(self, handle: Seq<char>, node: Seq<char>, unit: Seq<char>) -> bool {
        any_accepts(self.subscriptions_of(handle), node, unit)
    }

    /// Whether a registration has the identifier.
    pub open spec fn has_id(self, id: CallbackId) -> bool {
        exists|i: int|
            0 <= i < self.registrations.len() && (#[trigger] self.registrations[i]).id == id
    }

    /// Whether a registration listens to the property of the node with the
    /// handle.
    pub open spec fn has_listener(self, path: Seq<char>, property: Seq<char>) -> bool {
        exists|i: int|
            0 <= i < self.registrations.len() && is_listener_on(
                #[trigger] self.registrations[i],
                path,
                property,
            )
    }

    /// What every registry keeps true of what it holds: the identifiers in
    /// use are at least one and below the next one, and the registrations
    /// stand in their order; no two sessions have the same handle, and no
    /// session holds a subscription twice; every registration on a signal is
    /// on a session that is open; no property of a node has two listeners.
    pub open spec fn wf(self) -> bool {
        &&& self.next_id >= 1
        &&& forall|i: int|
            0 <= i < self.registrations.len() ==> 1 <= (#[trigger] self.registrations[i]).id
                < self.next_id
        &&& ascending(self.registrations)
        &&& forall|i: int, j: int|
            0 <= i < j < self.sessions.len() ==> (#[trigger] self.sessions[i]).handle != (
            #[trigger] self.sessions[j]).handle
        &&& forall|i: int|
            0 <= i < self.sessions.len() ==> (
            #[trigger] self.sessions[i]).subscriptions.no_duplicates()
        &&& forall|i: int|
            0 <= i < self.registrations.len() ==> match (#[trigger] self.registrations[i]).target {
                TargetView::Signal { session, .. } => self.has_session(session),
                _ => true,
            }
        &&& forall|i: int, j: int|
            0 <= i < j < self.registrations.len() ==> !same_property(
                #[trigger] self.registrations[i],
                #[trigger] self.registrations[j],
            )
    }
}

/// Adds the subscription to the session with the handle.
pub open spec fn subscribe_to(handle: Seq<char>, subscription: SubscriptionView) -> spec_fn(
    SessionView,
) -> SessionView {
    |s: SessionView| subscribed(s, handle, subscription)
}

/// A filter that every element passes leaves a sequence as it is.
pub proof fn lemma_filter_all<A>(s: Seq<A>, pred: spec_fn(A) -> bool)
    requires
        forall|i: int| 0 <= i < s.len() ==> pred(#[trigger] s[i]),
    ensures
        s.filter(pred) == s,
    decreases s.len(),
{
    reveal(Seq::filter);
    if s.len() > 0 {
        lemma_filter_all(s.drop_last(), pred);
        assert(s.drop_last().push(s.last()) =~= s);
    }
}

/// Among sessions of distinct handles, to filter out a handle is to remove
/// the one session that has it.
pub proof fn lemma_filter_removes_session(sessions: Seq<SessionView>, i: int)
    requires
        0 <= i < sessions.len(),
        forall|a: int, b: int|
            0 <= a < b < sessions.len() ==> (#[trigger] sessions[a]).handle != (
            #[trigger] sessions[b]).handle,
    ensures
        sessions.filter(not_session(sessions[i].handle)) == sessions.remove(i),
    decreases sessions.len(),
{
    reveal(Seq::filter);
    let handle = sessions[i].handle;
    let init = sessions.drop_last();
    if i == sessions.len() - 1 {
        assert forall|k: int| 0 <= k < init.len() implies not_session(handle)(#[trigger] init[k]) by {
            assert(sessions[k].handle != sessions[i].handle);
        }
        lemma_filter_all(init, not_session(handle));
        assert(sessions.remove(i) =~= init);
    } else {
        assert(init[i] == sessions[i]);
        assert forall|a: int, b: int| 0 <= a < b < init.len() implies (#[trigger] init[a]).handle != (
        #[trigger] init[b]).handle by {
            assert(sessions[a].handle != sessions[b].handle);
        }
        lemma_filter_removes_session(init, i);
        assert(sessions[i].handle != sessions.last().handle);
        assert(sessions.remove(i) =~= init.remove(i).push(sessions.last()));
    }
}

/// What passes a filter stood in the sequence, and stands in the order in
/// which it stood there.
pub proof fn lemma_filter_ascending(
    registrations: Seq<RegistrationView>,
    pred: spec_fn(RegistrationView) -> bool,
)
    requires
        ascending(registrations),
    ensures
        ascending(registrations.filter(pred)),
        forall|k: int|
            0 <= k < registrations.filter(pred).len() ==> pred(
                #[trigger] registrations.filter(pred)[k],
            ) && registrations.contains(registrations.filter(pred)[k]),
    decreases registrations.len(),
{
    reveal(Seq::filter);
    if registrations.len() > 0 {
        let init = registrations.drop_last();
        let last = registrations.last();
        assert forall|i: int, j: int| 0 <= i < j < init.len() implies (#[trigger] init[i]).id < (
        #[trigger] init[j]).id by {
            assert(registrations[i].id < registrations[j].id);
        }
        lemma_filter_ascending(init, pred);
        let kept = init.filter(pred);
        let all = registrations.filter(pred);
        assert forall|k: int| 0 <= k < kept.len() implies (#[trigger] kept[k]).id < last.id
            && registrations.contains(kept[k]) by {
            assert(init.contains(kept[k]));
            let j = choose|j: int| 0 <= j < init.len() && init[j] == kept[k];
            assert(registrations[j] == kept[k]);
            assert(registrations[j].id < registrations[registrations.len() - 1].id);
        }
        assert forall|k: int| 0 <= k < all.len() implies pred(#[trigger] all[k])
            && registrations.contains(all[k]) by {
            if k < kept.len() {
                assert(all[k] == kept[k]);
            } else {
                assert(all[k] == last);
                assert(registrations[registrations.len() - 1] == last);
            }
        }
        assert forall|i: int, j: int| 0 <= i < j < all.len() implies (#[trigger] all[i]).id < (
        #[trigger] all[j]).id by {
            if j < kept.len() {
                assert(kept[i].id < kept[j].id);
            } else {
                assert(all[i] == kept[i]);
            }
        }
    }
}

impl RegistryView {
    /// Whether the registration under the identifier listens to the property
    /// of the node with the handle.
    pub open spec fn listener_is(self, id: CallbackId, path: Seq<char>, property: Seq<char>) -> bool {
        exists|i: int|
            0 <= i < self.registrations.len() && (#[trigger] self.registrations[i]).id == id
                && is_listener_on(self.registrations[i], path, property)
    }

    /// The registry with one more session, which has no subscription yet.
    pub open spec fn with_session(self, handle: Seq<char>) -> RegistryView {
        RegistryView {
            sessions: self.sessions.push(SessionView { handle, subscriptions: Seq::empty() }),
            ..self
        }
    }

    /// The registry with the subscription recorded for the session with the
    /// handle, unless the session holds it already.
    pub open spec fn with_subscription(
        self,
        handle: Seq<char>,
        subscription: SubscriptionView,
    ) -> RegistryView {
        RegistryView {
            sessions: self.sessions.map_values(subscribe_to(handle, subscription)),
            ..self
        }
    }

    /// The registry with one more registration, under the next identifier.
    pub open spec fn with_registration(self, target: TargetView) -> RegistryView {
        RegistryView {
            registrations: self.registrations.push(RegistrationView { id: self.next_id, target }),
            next_id: (self.next_id + 1) as CallbackId,
            ..self
        }
    }

    /// The registry without the registration under an identifier.
    pub open spec fn without(self, id: CallbackId) -> RegistryView {
        RegistryView { registrations: self.registrations.filter(not_id(id)), ..self }
    }

    /// The registry without the session with the handle and without the
    /// registrations on its signals.
    pub open spec fn without_session(self, handle: Seq<char>) -> RegistryView {
        RegistryView {
            sessions: self.sessions.filter(not_session(handle)),
            registrations: self.registrations.filter(not_handler_of(handle)),
            ..self
        }
    }

    /// In a well-formed registry every session is the only one under its
    /// handle, so its subscriptions are those found under the handle.
    pub proof fn lemma_subscriptions_of(self, i: int)
        requires
            self.wf(),
            0 <= i < self.sessions.len(),
        ensures
            self.has_session(self.sessions[i].handle),
            self.subscriptions_of(self.sessions[i].handle) == self.sessions[i].subscriptions,
    {
        let handle = self.sessions[i].handle;
        let c = choose|c: int|
            0 <= c < self.sessions.len() && (#[trigger] self.sessions[c]).handle == handle;
        if c < i {
            assert(self.sessions[c].handle != self.sessions[i].handle);
        } else if i < c {
            assert(self.sessions[i].handle != self.sessions[c].handle);
        }
    }

    /// A session of a handle that is not open yet joins a well-formed
    /// registry.
    pub proof fn lemma_with_session_wf(self, handle: Seq<char>)
        requires
            self.wf(),
            !self.has_session(handle),
        ensures
            self.with_session(handle).wf(),
            self.with_session(handle).has_session(handle),
    {
        let after = self.with_session(handle);
        assert(after.sessions[self.sessions.len() as int].handle == handle);
        assert forall|i: int| 0 <= i < after.registrations.len() implies match (
        #[trigger] after.registrations[i]).target {
            TargetView::Signal { session, .. } => after.has_session(session),
            _ => true,
        } by {
            match after.registrations[i].target {
                TargetView::Signal { session, .. } => {
                    assert(self.has_session(session));
                    let k = choose|k: int|
                        0 <= k < self.sessions.len() && (#[trigger] self.sessions[k]).handle
                            == session;
                    assert(after.sessions[k].handle == session);
                },
                _ => {},
            }
        }
        assert forall|a: int, b: int| 0 <= a < b < after.sessions.len() implies (
        #[trigger] after.sessions[a]).handle != (#[trigger] after.sessions[b]).handle by {
            if b < self.sessions.len() {
                assert(self.sessions[a].handle != self.sessions[b].handle);
            }
        }
        assert forall|k: int| 0 <= k < after.sessions.len() implies (
        #[trigger] after.sessions[k]).subscriptions.no_duplicates() by {
            if k < self.sessions.len() {
                assert(self.sessions[k].subscriptions.no_duplicates());
            }
        }
    }

    /// A subscription joins a well-formed registry: only the session at `i`
    /// changes, and it changes only where it does not hold the subscription
    /// yet.
    pub proof fn lemma_with_subscription_wf(self, i: int, subscription: SubscriptionView)
        requires
            self.wf(),
            0 <= i < self.sessions.len(),
        ensures
            self.with_subscription(self.sessions[i].handle, subscription).wf(),
            self.with_subscription(self.sessions[i].handle, subscription).sessions
                == self.sessions.update(
                i,
                subscribed(self.sessions[i], self.sessions[i].handle, subscription),
            ),
            self.with_subscription(self.sessions[i].handle, subscription).subscriptions_of(
                self.sessions[i].handle,
            ) == subscribed(self.sessions[i], self.sessions[i].handle, subscription).subscriptions,
    {
        let handle = self.sessions[i].handle;
        let after = self.with_subscription(handle, subscription);
        assert forall|j: int| 0 <= j < self.sessions.len() && j != i implies subscribed(
            #[trigger] self.sessions[j],
            handle,
            subscription,
        ) == self.sessions[j] by {
            if j < i {
                assert(self.sessions[j].handle != self.sessions[i].handle);
            } else {
                assert(self.sessions[i].handle != self.sessions[j].handle);
            }
        }
        assert(after.sessions =~= self.sessions.update(
            i,
            subscribed(self.sessions[i], handle, subscription),
        ));
        assert forall|j: int| 0 <= j < after.registrations.len() implies match (
        #[trigger] after.registrations[j]).target {
            TargetView::Signal { session, .. } => after.has_session(session),
            _ => true,
        } by {
            match after.registrations[j].target {
                TargetView::Signal { session, .. } => {
                    assert(self.has_session(session));
                    let c = choose|c: int|
                        0 <= c < self.sessions.len() && (#[trigger] self.sessions[c]).handle
                            == session;
                    assert(after.sessions[c].handle == session);
                },
                _ => {},
            }
        }
        assert forall|a: int, b: int| 0 <= a < b < after.sessions.len() implies (
        #[trigger] after.sessions[a]).handle != (#[trigger] after.sessions[b]).handle by {
            assert(self.sessions[a].handle != self.sessions[b].handle);
        }
        assert forall|j: int| 0 <= j < after.sessions.len() implies (
        #[trigger] after.sessions[j]).subscriptions.no_duplicates() by {
            assert(self.sessions[j].subscriptions.no_duplicates());
        }
        after.lemma_subscriptions_of(i);
    }

    /// A registration joins a well-formed registry under the next
    /// identifier, unless it listens to a session that is not open or to a
    /// property that is listened to already.
    pub proof fn lemma_with_registration_wf(self, target: TargetView)
        requires
            self.wf(),
            self.next_id < CallbackId::MAX,
            match target {
                TargetView::Signal { session, .. } => self.has_session(session),
                TargetView::Property { path, property, .. } => !self.has_listener(path, property),
            },
        ensures
            self.with_registration(target).wf(),
    {
        let after = self.with_registration(target);
        let added = RegistrationView { id: self.next_id, target };
        assert forall|i: int| 0 <= i < after.registrations.len() implies 1 <= (
        #[trigger] after.registrations[i]).id < after.next_id && match after.registrations[i].target {
            TargetView::Signal { session, .. } => after.has_session(session),
            _ => true,
        } by {
            assert(after.sessions == self.sessions);
            if i < self.registrations.len() {
                assert(after.registrations[i] == self.registrations[i]);
            }
        }
        assert forall|i: int, j: int| 0 <= i < j < after.registrations.len() implies (
        #[trigger] after.registrations[i]).id < (#[trigger] after.registrations[j]).id
            && !same_property(after.registrations[i], after.registrations[j]) by {
            assert(after.registrations[i] == self.registrations[i]);
            if j < self.registrations.len() {
                assert(after.registrations[j] == self.registrations[j]);
                assert(!same_property(self.registrations[i], self.registrations[j]));
            } else {
                assert(after.registrations[j] == added);
                match target {
                    TargetView::Property { path, property, .. } => {
                        assert(!is_listener_on(self.registrations[i], path, property));
                    },
                    _ => {},
                }
            }
        }
    }

    /// A registry stays well formed when registrations leave it.
    pub proof fn lemma_filter_keeps_wf(self, pred: spec_fn(RegistrationView) -> bool)
        requires
            self.wf(),
        ensures
            (RegistryView { registrations: self.registrations.filter(pred), ..self }).wf(),
    {
        let kept = self.registrations.filter(pred);
        let after = RegistryView { registrations: kept, ..self };
        lemma_filter_ascending(self.registrations, pred);
        assert forall|k: int| 0 <= k < kept.len() implies 1 <= (#[trigger] kept[k]).id < self.next_id
            && match kept[k].target {
            TargetView::Signal { session, .. } => after.has_session(session),
            _ => true,
        } by {
            assert(self.registrations.contains(kept[k]));
            let j = choose|j: int| 0 <= j < self.registrations.len() && self.registrations[j] == kept[k];
            assert(1 <= self.registrations[j].id < self.next_id);
            assert(after.sessions == self.sessions);
        }
        assert forall|a: int, b: int| 0 <= a < b < kept.len() implies !same_property(
            #[trigger] kept[a],
            #[trigger] kept[b],
        ) by {
            assert(self.registrations.contains(kept[a]));
            assert(self.registrations.contains(kept[b]));
            let i = choose|i: int| 0 <= i < self.registrations.len() && self.registrations[i] == kept[a];
            let j = choose|j: int| 0 <= j < self.registrations.len() && self.registrations[j] == kept[b];
            assert(kept[a].id < kept[b].id);
            if i < j {
                assert(!same_property(self.registrations[i], self.registrations[j]));
            } else if j < i {
                assert(self.registrations[j].id < self.registrations[i].id);
            }
        }
    }

    /// A well-formed registry stays well formed without the session at `i`
    /// and the registrations on its signals; the sessions that stay are the
    /// others, in their order.
    pub proof fn lemma_without_session_wf(self, i: int)
        requires
            self.wf(),
            0 <= i < self.sessions.len(),
        ensures
            self.without_session(self.sessions[i].handle).wf(),
            self.without_session(self.sessions[i].handle).sessions == self.sessions.remove(i),
    {
        let handle = self.sessions[i].handle;
        let after = self.without_session(handle);
        let all = self.registrations;
        lemma_filter_removes_session(self.sessions, i);
        self.lemma_filter_keeps_wf(not_handler_of(handle));
        lemma_filter_ascending(all, not_handler_of(handle));
        assert forall|a: int, b: int| 0 <= a < b < after.sessions.len() implies (
        #[trigger] after.sessions[a]).handle != (#[trigger] after.sessions[b]).handle by {
            let a0 = if a < i { a } else { a + 1 };
            let b0 = if b < i { b } else { b + 1 };
            assert(self.sessions[a0].handle != self.sessions[b0].handle);
        }
        assert forall|k: int| 0 <= k < after.sessions.len() implies (
        #[trigger] after.sessions[k]).subscriptions.no_duplicates() by {
            let k0 = if k < i { k } else { k + 1 };
            assert(self.sessions[k0].subscriptions.no_duplicates());
        }
        assert forall|k: int| 0 <= k < after.registrations.len() implies match (
        #[trigger] after.registrations[k]).target {
            TargetView::Signal { session, .. } => after.has_session(session),
            _ => true,
        } by {
            match after.registrations[k].target {
                TargetView::Signal { session, .. } => {
                    assert(all.contains(after.registrations[k]));
                    assert(not_handler_of(handle)(after.registrations[k]));
                    let j = choose|j: int| 0 <= j < all.len() && all[j] == after.registrations[k];
                    assert(self.has_session(session));
                    let c = choose|c: int|
                        0 <= c < self.sessions.len() && (#[trigger] self.sessions[c]).handle
                            == session;
                    assert(c != i);
                    let c1 = if c < i { c } else { c - 1 };
                    assert(after.sessions[c1] == self.sessions[c]);
                },
                _ => {},
            }
        }
    }

    /// To close a session that is not open changes nothing.
    pub proof fn lemma_without_missing_session(self, handle: Seq<char>)
        requires
            self.wf(),
            !self.has_session(handle),
        ensures
            self.without_session(handle) == self,
    {
        lemma_filter_all(self.sessions, not_session(handle));
        assert forall|k: int| 0 <= k < self.registrations.len() implies not_handler_of(handle)(
            #[trigger] self.registrations[k],
        ) by {
            match self.registrations[k].target {
                TargetView::Signal { session, .. } => {
                    assert(self.has_session(session));
                },
                _ => {},
            }
        }
        lemma_filter_all(self.registrations, not_handler_of(handle));
    }
}

/// The registry of sessions, subscriptions and callback registrations of
/// one bus connection. What it holds is well formed at all times.
pub struct Registry {
    sessions: Vec<MonitorSession>,
    registrations: Vec<Registration>,
    next_id: CallbackId,
}

impl View for Registry {
    type V = RegistryView;

    closed spec fn view(&self) -> RegistryView {
        RegistryView {
            sessions: sessions_view(self.sessions@),
            registrations: registrations_view(self.registrations@),
            next_id: self.next_id,
        }
    }
}

impl Registry {
    #[verifier::type_invariant]
    spec fn well_formed(&self) -> bool {
        self@.wf()
    }

    /// A registry that holds nothing.
    pub fn new() -> (registry: Registry)
        ensures
            registry@.wf(),
            registry@ == (RegistryView {
                sessions: Seq::empty(),
                registrations: Seq::empty(),
                next_id: 1,
            }),
    {
        Registry::starting_at(1)
    }

    /// A registry that holds nothing and gives out identifiers from `first`
    /// on, for a program that keeps the identifiers of several registries
    /// apart. No identifier is zero: from zero the registry starts at one.
    pub fn starting_at(first: CallbackId) -> (registry: Registry)
        ensures
            registry@.wf(),
            registry@ == (RegistryView {
                sessions: Seq::empty(),
                registrations: Seq::empty(),
                next_id: if first == 0 {
                    1
                } else {
                    first
                },
            }),
    {
        let next_id = if first == 0 {
            1
        } else {
            first
        };
        let sessions: Vec<MonitorSession> = Vec::new();
        let registrations: Vec<Registration> = Vec::new();
        assert(sessions_view(sessions@) =~= Seq::empty());
        assert(registrations_view(registrations@) =~= Seq::empty());
        Registry { sessions, registrations, next_id }
    }

    /// The registrations, in the order in which they were made.
    pub fn registrations(&self) -> (registrations: &Vec<Registration>)
        ensures
            self@.wf(),
            registrations_view(registrations@) == self@.registrations,
    {
        proof {
            use_type_invariant(self);
        }
        &self.registrations
    }

    /// The open sessions, in the order in which they were opened.
    pub fn sessions(&self) -> (sessions: &Vec<MonitorSession>)
        ensures
            self@.wf(),
            sessions_view(sessions@) == self@.sessions,
    {
        proof {
            use_type_invariant(self);
        }
        &self.sessions
    }

    /// The position of the session with the handle.
    fn find_session(&self, handle: &str) -> (found: Option<usize>)
        ensures
            match found {
                Some(i) => i < self.sessions@.len() && self@.sessions[i as int].handle == handle@,
                None => !self@.has_session(handle@),
            },
    {
        let mut i: usize = 0;
        while i < self.sessions.len()
            invariant
                i <= self.sessions.len(),
                forall|k: int| 0 <= k < i ==> (#[trigger] self@.sessions[k]).handle != handle@,
            decreases self.sessions.len() - i,
        {
            if text_eq(&self.sessions[i].handle, handle) {
                return Some(i);
            }
            i += 1;
        }
        None
    }

    /// Whether the session at a position holds a subscription.
    fn holds(&self, i: usize, subscription: &Subscription) -> (held: bool)
        requires
            i < self.sessions@.len(),
        ensures
            held == self@.sessions[i as int].subscriptions.contains(subscription@),
    {
        let ghost all = self@.sessions[i as int].subscriptions;
        let mut k: usize = 0;
        while k < self.sessions[i].subscriptions.len()
            invariant
                i < self.sessions@.len(),
                all == subscriptions_view(self.sessions@[i as int].subscriptions@),
                k <= self.sessions@[i as int].subscriptions@.len(),
                forall|j: int| 0 <= j < k ==> #[trigger] all[j] != subscription@,
            decreases self.sessions@[i as int].subscriptions@.len() - k,
        {
            if self.sessions[i].subscriptions[k].same_as(subscription) {
                assert(all[k as int] == subscription@);
                return true;
            }
            k += 1;
        }
        false
    }

    /// The identifier of the registration that listens to the property of
    /// the node with the handle.
    fn find_listener(&self, path: &str, property: &str) -> (found: Option<CallbackId>)
        ensures
            match found {
                Some(id) => self@.listener_is(id, path@, property@),
                None => !self@.has_listener(path@, property@),
            },
    {
        let mut i: usize = 0;
        while i < self.registrations.len()
            invariant
                i <= self.registrations.len(),
                forall|k: int|
                    0 <= k < i ==> !is_listener_on(
                        #[trigger] self@.registrations[k],
                        path@,
                        property@,
                    ),
            decreases self.registrations.len() - i,
        {
            assert(self@.registrations[i as int] == self.registrations@[i as int]@);
            match &self.registrations[i].target {
                Target::Property { node: _, path: p, property: q } => {
                    if text_eq(p, path) && text_eq(q, property) {
                        return Some(self.registrations[i].id);
                    }
                },
                _ => {},
            }
            i += 1;
        }
        None
    }

    /// Takes the parts out of the registry and leaves it empty.
    fn take_parts(&mut self) -> (parts: (Vec<MonitorSession>, Vec<Registration>, CallbackId))
        ensures
            sessions_view(parts.0@) == old(self)@.sessions,
            registrations_view(parts.1@) == old(self)@.registrations,
            parts.2 == old(self)@.next_id,
    {
        let mut taken = Registry::new();
        std::mem::swap(self, &mut taken);
        let Registry { sessions, registrations, next_id } = taken;
        (sessions, registrations, next_id)
    }

    /// Whether a session with the handle is open.
    pub fn has_session(&self, handle: &str) -> (open: bool)
        ensures
            open == self@.has_session(handle@),
    {
        self.find_session(handle).is_some()
    }

    /// Whether the filter of the session with the handle lets a unit on a
    /// node through. The filter of a session that is not open lets nothing
    /// through.
    pub fn covers(&self, session: &str, node: &str, unit: &str) -> (covered: bool)
        ensures
            covered == self@.covers(session@, node@, unit@),
    {
        proof {
            use_type_invariant(self);
        }
        match self.find_session(session) {
            Some(i) => {
                proof {
                    self@.lemma_subscriptions_of(i as int);
                }
                crate::subscription::covers(&self.sessions[i].subscriptions, node, unit)
            },
            None => false,
        }
    }

    /// Opens the session that the controller made under the handle. Nothing
    /// changes where the session is open already.
    pub fn open_session(&mut self, handle: &str) -> (opened: bool)
        ensures
            final(self)@.wf(),
            opened == !old(self)@.has_session(handle@),
            final(self)@.has_session(handle@),
            final(self)@ == if opened {
                old(self)@.with_session(handle@)
            } else {
                old(self)@
            },
    {
        proof {
            use_type_invariant(&*self);
        }
        if self.find_session(handle).is_some() {
            return false;
        }
        let session = MonitorSession { handle: handle.to_owned(), subscriptions: Vec::new() };
        let (mut sessions, registrations, next_id) = self.take_parts();
        sessions.push(session);
        proof {
            old(self)@.lemma_with_session_wf(handle@);
            assert(session@.subscriptions =~= Seq::empty());
            assert(sessions_view(sessions@) =~= old(self)@.with_session(handle@).sessions);
        }
        *self = Registry { sessions, registrations, next_id };
        true
    }

    /// Records a subscription of the session with the handle, once the
    /// controller has accepted it. Subscriptions add up; one that the session
    /// holds already is not recorded a second time.
    pub fn subscribe(&mut self, session: &str, node_pattern: &str, unit_pattern: &str) -> (added:
        Result<bool, RegistryError>)
        ensures
            final(self)@.wf(),
            match added {
                Ok(new) => {
                    &&& old(self)@.has_session(session@)
                    &&& final(self)@.has_session(session@)
                    &&& new == !old(self)@.subscriptions_of(session@).contains(
                        SubscriptionView { node_pattern: node_pattern@, unit_pattern: unit_pattern@ },
                    )
                    &&& final(self)@ == old(self)@.with_subscription(
                        session@,
                        SubscriptionView { node_pattern: node_pattern@, unit_pattern: unit_pattern@ },
                    )
                    &&& final(self)@.subscriptions_of(session@) == if new {
                        old(self)@.subscriptions_of(session@).push(
                            SubscriptionView {
                                node_pattern: node_pattern@,
                                unit_pattern: unit_pattern@,
                            },
                        )
                    } else {
                        old(self)@.subscriptions_of(session@)
                    }
                },
                Err(e) => {
                    &&& e == RegistryError::UnknownSession
                    &&& !old(self)@.has_session(session@)
                    &&& final(self)@ == old(self)@
                },
            },
    {
        proof {
            use_type_invariant(&*self);
        }
        let i = match self.find_session(session) {
            Some(i) => i,
            None => {
                return Err(RegistryError::UnknownSession);
            },
        };
        let subscription = Subscription::new(node_pattern, unit_pattern);
        proof {
            old(self)@.lemma_subscriptions_of(i as int);
            old(self)@.lemma_with_subscription_wf(i as int, subscription@);
        }
        if self.holds(i, &subscription) {
            assert(old(self)@.with_subscription(session@, subscription@).sessions
                =~= old(self)@.sessions);
            return Ok(false);
        }
        let (mut sessions, registrations, next_id) = self.take_parts();
        sessions[i].subscriptions.push(subscription);
        proof {
            let wanted = old(self)@.with_subscription(session@, subscription@);
            assert(sessions@[i as int]@.subscriptions =~= wanted.sessions[i as int].subscriptions);
            assert(sessions_view(sessions@) =~= wanted.sessions);
        }
        *self = Registry { sessions, registrations, next_id };
        Ok(true)
    }

    /// Registers a callback on one signal of the session with the handle and
    /// returns its identifier.
    pub fn on_signal(&mut self, session: &str, kind: SignalKind) -> (id: Result<
        CallbackId,
        RegistryError,
    >)
        ensures
            final(self)@.wf(),
            match id {
                Ok(id) => {
                    &&& old(self)@.has_session(session@)
                    &&& old(self)@.next_id < CallbackId::MAX
                    &&& id == old(self)@.next_id
                    &&& final(self)@ == old(self)@.with_registration(
                        TargetView::Signal { session: session@, kind },
                    )
                },
                Err(RegistryError::UnknownSession) => {
                    &&& !old(self)@.has_session(session@)
                    &&& final(self)@ == old(self)@
                },
                Err(RegistryError::IdsExhausted) => {
                    &&& old(self)@.has_session(session@)
                    &&& old(self)@.next_id == CallbackId::MAX
                    &&& final(self)@ == old(self)@
                },
            },
    {
        proof {
            use_type_invariant(&*self);
        }
        if self.find_session(session).is_none() {
            return Err(RegistryError::UnknownSession);
        }
        self.register(Target::Signal { session: session.to_owned(), kind })
    }

    /// Registers a callback on one property of a node, given the node's name
    /// and handle, and returns its identifier. A property of a node has one
    /// listener: where it has one already, that listener stays and its
    /// identifier is returned.
    pub fn watch_property(&mut self, node: &str, path: &str, property: &str) -> (id: Result<
        CallbackId,
        RegistryError,
    >)
        ensures
            final(self)@.wf(),
            match id {
                Ok(id) => if old(self)@.has_listener(path@, property@) {
                    &&& old(self)@.listener_is(id, path@, property@)
                    &&& final(self)@ == old(self)@
                } else {
                    &&& old(self)@.next_id < CallbackId::MAX
                    &&& id == old(self)@.next_id
                    &&& final(self)@ == old(self)@.with_registration(
                        TargetView::Property { node: node@, path: path@, property: property@ },
                    )
                },
                Err(e) => {
                    &&& e == RegistryError::IdsExhausted
                    &&& !old(self)@.has_listener(path@, property@)
                    &&& old(self)@.next_id == CallbackId::MAX
                    &&& final(self)@ == old(self)@
                },
            },
    {
        proof {
            use_type_invariant(&*self);
        }
        if let Some(id) = self.find_listener(path, property) {
            return Ok(id);
        }
        self.register(
            Target::Property {
                node: node.to_owned(),
                path: path.to_owned(),
                property: property.to_owned(),
            },
        )
    }

    /// Adds a registration under the next identifier, where one is left.
    fn register(&mut self, target: Target) -> (id: Result<CallbackId, RegistryError>)
        requires
            match target@ {
                TargetView::Signal { session, .. } => old(self)@.has_session(session),
                TargetView::Property { path, property, .. } => !old(self)@.has_listener(
                    path,
                    property,
                ),
            },
        ensures
            final(self)@.wf(),
            match id {
                Ok(id) => {
                    &&& old(self)@.next_id < CallbackId::MAX
                    &&& id == old(self)@.next_id
                    &&& final(self)@ == old(self)@.with_registration(target@)
                },
                Err(e) => {
                    &&& e == RegistryError::IdsExhausted
                    &&& old(self)@.next_id == CallbackId::MAX
                    &&& final(self)@ == old(self)@
                },
            },
    {
        proof {
            use_type_invariant(&*self);
        }
        if self.next_id == CallbackId::MAX {
            return Err(RegistryError::IdsExhausted);
        }
        let (sessions, mut registrations, id) = self.take_parts();
        registrations.push(Registration { id, target });
        proof {
            old(self)@.lemma_with_registration_wf(target@);
            assert(registrations_view(registrations@) =~= old(self)@.with_registration(
                target@,
            ).registrations);
        }
        *self = Registry { sessions, registrations, next_id: id + 1 };
        Ok(id)
    }

    /// Removes the registration under the identifier, be it on a signal or
    /// on a property. Every other registration stays as it is.
    pub fn unwatch(&mut self, id: CallbackId) -> (removed: bool)
        ensures
            final(self)@.wf(),
            removed == old(self)@.has_id(id),
            final(self)@ == old(self)@.without(id),
    {
        proof {
            use_type_invariant(&*self);
        }
        let (sessions, registrations, next_id) = self.take_parts();
        let ghost all = registrations_view(registrations@);
        let mut kept: Vec<Registration> = Vec::new();
        let mut removed = false;
        let mut i: usize = 0;
        assert(all.take(0).filter(not_id(id)) =~= Seq::empty()) by {
            reveal(Seq::filter);
        }
        while i < registrations.len()
            invariant
                all == registrations_view(registrations@),
                i <= registrations.len(),
                registrations_view(kept@) == all.take(i as int).filter(not_id(id)),
                removed == exists|k: int| 0 <= k < i && (#[trigger] all[k]).id == id,
            decreases registrations.len() - i,
        {
            assert(all[i as int] == registrations@[i as int]@);
            proof {
                assert(all.take(i + 1) =~= all.take(i as int).push(all[i as int]));
                all.take(i as int).lemma_filter_push(all[i as int], not_id(id));
            }
            if registrations[i].id != id {
                let copy = registrations[i].clone();
                kept.push(copy);
                assert(registrations_view(kept@) =~= all.take(i as int).filter(not_id(id)).push(
                    all[i as int],
                ));
            } else {
                removed = true;
            }
            i += 1;
        }
        proof {
            assert(all.take(i as int) == all);
            old(self)@.lemma_filter_keeps_wf(not_id(id));
        }
        *self = Registry { sessions, registrations: kept, next_id };
        removed
    }

    /// Closes the session with the handle: the session, its subscriptions
    /// and every registration on one of its signals leave the registry.
    pub fn close_session(&mut self, handle: &str) -> (closed: bool)
        ensures
            final(self)@.wf(),
            closed == old(self)@.has_session(handle@),
            !final(self)@.has_session(handle@),
            final(self)@ == old(self)@.without_session(handle@),
    {
        proof {
            use_type_invariant(&*self);
        }
        let position = match self.find_session(handle) {
            Some(i) => i,
            None => {
                proof {
                    old(self)@.lemma_without_missing_session(handle@);
                }
                return false;
            },
        };
        let (mut sessions, registrations, next_id) = self.take_parts();
        assert(sessions@.len() == sessions_view(sessions@).len());
        sessions.remove(position);
        assert(sessions_view(sessions@) =~= old(self)@.sessions.remove(position as int));
        let ghost all = registrations_view(registrations@);
        let mut kept: Vec<Registration> = Vec::new();
        let mut i: usize = 0;
        assert(all.take(0).filter(not_handler_of(handle@)) =~= Seq::empty()) by {
            reveal(Seq::filter);
        }
        while i < registrations.len()
            invariant
                all == registrations_view(registrations@),
                i <= registrations.len(),
                registrations_view(kept@) == all.take(i as int).filter(not_handler_of(handle@)),
            decreases registrations.len() - i,
        {
            assert(all[i as int] == registrations@[i as int]@);
            proof {
                assert(all.take(i + 1) =~= all.take(i as int).push(all[i as int]));
                all.take(i as int).lemma_filter_push(all[i as int], not_handler_of(handle@));
            }
            let listens = match &registrations[i].target {
                Target::Signal { session, kind: _ } => text_eq(session, handle),
                _ => false,
            };
            if !listens {
                let copy = registrations[i].clone();
                kept.push(copy);
                assert(registrations_view(kept@) =~= all.take(i as int).filter(
                    not_handler_of(handle@),
                ).push(all[i as int]));
            }
            i += 1;
        }
        proof {
            assert(all.take(i as int) == all);
            old(self)@.lemma_without_session_wf(position as int);
            let after = old(self)@.without_session(handle@);
            assert forall|k: int| 0 <= k < after.sessions.len() implies (
            #[trigger] after.sessions[k]).handle != handle@ by {
                old(self)@.sessions.lemma_filter_pred(not_session(handle@), k);
            }
        }
        *self = Registry { sessions, registrations: kept, next_id };
        true
    }
}

} // verus!
