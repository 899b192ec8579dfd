//! The filter of a monitor session: which nodes and units it asks for.
use vstd::prelude::*;
use crate::text::text_eq;

verus! {

/// The pattern that accepts every name.
pub const WILDCARD: &'static str = "*";

/// Whether a pattern accepts a name: the wildcard accepts every name, any
/// other pattern accepts the name equal to it and no other.
pub open spec fn pattern_accepts(pattern: Seq<char>, name: Seq<char>) -> bool {
    pattern == WILDCARD@ || pattern == name
}

/// Whether a pattern accepts a name.
pub fn pattern_matches(pattern: &str, name: &str) -> (accepted: bool)
    ensures
        accepted == pattern_accepts(pattern@, name@),
{
    text_eq(pattern, WILDCARD) || text_eq(pattern, name)
}

/// One filter of a monitor session: a pattern for the node and one for the
/// unit. A session delivers what any of its subscriptions accepts.
#[derive(Debug, PartialEq, Eq)]
pub struct Subscription {
    pub node_pattern: String,
    pub unit_pattern: String,
}

pub struct SubscriptionView {
    pub node_pattern: Seq<char>,
    pub unit_pattern: Seq<char>,
}

impl View for Subscription {
    type V = SubscriptionView;

    open spec fn view(&self) -> SubscriptionView {
        SubscriptionView { node_pattern: self.node_pattern@, unit_pattern: self.unit_pattern@ }
    }
}

impl Clone for Subscription {
    fn clone(&self) -> (copy: Self)
        ensures
            copy@ == self@,
    {
        Subscription {
            node_pattern: self.node_pattern.clone(),
            unit_pattern: self.unit_pattern.clone(),
        }
    }
}

impl SubscriptionView {
    /// Whether the subscription accepts a unit on a node: both patterns
    /// accept their name.
    pub open spec fn accepts(self, node: Seq<char>, unit: Seq<char>) -> bool {
        pattern_accepts(self.node_pattern, node) && pattern_accepts(self.unit_pattern, unit)
    }
}

/// The subscriptions of a session, each by its view.
pub open spec fn subscriptions_view(subscriptions: Seq<Subscription>) -> Seq<SubscriptionView> {
    subscriptions.map_values(|s: Subscription| s@)
}

/// Whether any of the subscriptions accepts a unit on a node.
pub open spec fn any_accepts(
    subscriptions: Seq<SubscriptionView>,
    node: Seq<char>,
    unit: Seq<char>,
) -> bool {
    exists|i: int| 0 <= i < subscriptions.len() && (#[trigger] subscriptions[i]).accepts(node, unit)
}

impl Subscription {
    pub fn new(node_pattern: &str, unit_pattern: &str) -> (s: Subscription)
        ensures
            s@ == (SubscriptionView { node_pattern: node_pattern@, unit_pattern: unit_pattern@ }),
    {
        Subscription { node_pattern: node_pattern.to_owned(), unit_pattern: unit_pattern.to_owned() }
    }

    /// Whether the subscription accepts a unit on a node.
    pub fn accepts(&self, node: &str, unit: &str) -> (accepted: bool)
        ensures
            accepted == self@.accepts(node@, unit@),
    {
        pattern_matches(&self.node_pattern, node) && pattern_matches(&self.unit_pattern, unit)
    }

    /// Whether two subscriptions hold the same patterns.
    pub fn same_as(&self, other: &Subscription) -> (same: bool)
        ensures
            same == (self@ == other@),
    {
        text_eq(&self.node_pattern, &other.node_pattern) && text_eq(
            &self.unit_pattern,
            &other.unit_pattern,
        )
    }
}

/// Whether any of the subscriptions accepts a unit on a node.
pub fn covers(subscriptions: &Vec<Subscription>, node: &str, unit: &str) -> (covered: bool)
    ensures
        covered == any_accepts(subscriptions_view(subscriptions@), node@, unit@),
{
    let ghost all = subscriptions_view(subscriptions@);
    let mut i: usize = 0;
    while i < subscriptions.len()
        invariant
            all == subscriptions_view(subscriptions@),
            i <= subscriptions.len(),
            forall|k: int| 0 <= k < i ==> !(#[trigger] all[k]).accepts(node@, unit@),
        decreases subscriptions.len() - i,
    {
        assert(all[i as int] == subscriptions@[i as int]@);
        if subscriptions[i].accepts(node, unit) {
            return true;
        }
        i += 1;
    }
    false
}

/// The wildcard subscription on a unit accepts that unit on every node.
pub proof fn lemma_wildcard_accepts_every_node(unit: Seq<char>, node: Seq<char>)
    ensures
        (SubscriptionView { node_pattern: WILDCARD@, unit_pattern: unit }).accepts(node, unit),
{
}

} // verus!
