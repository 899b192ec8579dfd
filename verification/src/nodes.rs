//! The nodes that the client knows: what the controller listed or resolved,
//! and the status that each node last announced.
use vstd::prelude::*;
use crate::error::{MonitorError, MonitorErrorView};
use crate::event::{PropertyChanged, PropertyChangedView, PropertyValue};
use crate::text::text_eq;

verus! {

/// The property under which a node announces its connection status.
pub const STATUS_PROPERTY: &'static str = "Status";

/// The address of a controller, a node or a monitor session on the bus:
/// the name of the peer and the path of the object. It is resolved once and
/// used for every later call and registration on that object.
#[derive(Debug, PartialEq, Eq)]
pub struct RemoteHandle {
    pub destination: String,
    pub path: String,
}

pub struct RemoteHandleView {
    pub destination: Seq<char>,
    pub path: Seq<char>,
}

impl View for RemoteHandle {
    type V = RemoteHandleView;

    open spec fn view(&self) -> RemoteHandleView {
        RemoteHandleView { destination: self.destination@, path: self.path@ }
    }
}

impl Clone for RemoteHandle {
    fn clone(&self) -> (copy: Self)
        ensures
            copy@ == self@,
    {
        RemoteHandle { destination: self.destination.clone(), path: self.path.clone() }
    }
}

impl RemoteHandle {
    pub fn new(destination: &str, path: &str) -> (handle: RemoteHandle)
        ensures
            handle@ == (RemoteHandleView { destination: destination@, path: path@ }),
    {
        RemoteHandle { destination: destination.to_owned(), path: path.to_owned() }
    }
}

/// A node as the controller lists it: its name, its handle and its status.
#[derive(Debug, PartialEq, Eq)]
pub struct Node {
    pub name: String,
    pub handle: RemoteHandle,
    pub status: String,
}

pub struct NodeView {
    pub name: Seq<char>,
    pub handle: RemoteHandleView,
    pub status: Seq<char>,
}

impl View for Node {
    type V = NodeView;

    open spec fn view(&self) -> NodeView {
        NodeView { name: self.name@, handle: self.handle@, status: self.status@ }
    }
}

impl Clone for Node {
    fn clone(&self) -> (copy: Self)
        ensures
            copy@ == self@,
    {
        Node { name: self.name.clone(), handle: self.handle.clone(), status: self.status.clone() }
    }
}

/// The nodes of a directory, each by its view.
pub open spec fn nodes_view(nodes: Seq<Node>) -> Seq<NodeView> {
    nodes.map_values(|n: Node| n@)
}

/// Whether a node of the name stands among the nodes.
pub open spec fn has_node(nodes: Seq<NodeView>, name: Seq<char>) -> bool {
    exists|i: int| 0 <= i < nodes.len() && (#[trigger] nodes[i]).name == name
}

/// Whether no two of the nodes have the same name.
pub open spec fn distinct_names(nodes: Seq<NodeView>) -> bool {
    forall|i: int, j: int|
        0 <= i < j < nodes.len() ==> (#[trigger] nodes[i]).name != (#[trigger] nodes[j]).name
}

/// Puts a node in the place of the node of its name.
pub open spec fn replace_by(node: NodeView) -> spec_fn(NodeView) -> NodeView {
    |n: NodeView| if n.name == node.name { node } else { n }
}

/// Gives the node of the name the status.
pub open spec fn with_status(name: Seq<char>, status: Seq<char>) -> spec_fn(NodeView) -> NodeView {
    |n: NodeView| if n.name == name { NodeView { status, ..n } } else { n }
}

/// The nodes after the controller reported a node: the report takes the
/// place of the node of its name, or stands at the end where the name is
/// new.
pub open spec fn reported(nodes: Seq<NodeView>, node: NodeView) -> Seq<NodeView> {
    if has_node(nodes, node.name) {
        nodes.map_values(replace_by(node))
    } else {
        nodes.push(node)
    }
}

/// The nodes after the controller reported a listing, entry by entry.
pub open spec fn listed(nodes: Seq<NodeView>, listing: Seq<NodeView>) -> Seq<NodeView>
    decreases listing.len(),
{
    if listing.len() == 0 {
        nodes
    } else {
        reported(listed(nodes, listing.drop_last()), listing.last())
    }
}

/// The nodes after a node announced a property change: a text under the
/// status property becomes the status of the node of that name; any other
/// change leaves the nodes as they are.
pub open spec fn announced(nodes: Seq<NodeView>, change: PropertyChangedView) -> Seq<NodeView> {
    if change.property == STATUS_PROPERTY@ && change.value is Text {
        nodes.map_values(with_status(change.node, change.value.text()))
    } else {
        nodes
    }
}

/// A report keeps the names of a directory distinct.
pub proof fn lemma_reported_distinct(nodes: Seq<NodeView>, node: NodeView)
    requires
        distinct_names(nodes),
    ensures
        distinct_names(reported(nodes, node)),
{
    let after = reported(nodes, node);
    assert forall|i: int, j: int| 0 <= i < j < after.len() implies (#[trigger] after[i]).name != (
    #[trigger] after[j]).name by {
        if has_node(nodes, node.name) {
            assert(nodes[i].name != nodes[j].name);
        } else if j < nodes.len() {
            assert(nodes[i].name != nodes[j].name);
        }
    }
}

/// The nodes that the client knows, each name once.
pub struct NodeDirectory {
    nodes: Vec<Node>,
}

impl View for NodeDirectory {
    type V = Seq<NodeView>;

    closed spec fn view(&self) -> Seq<NodeView> {
        nodes_view(self.nodes@)
    }
}

impl NodeDirectory {
    #[verifier::type_invariant]
    spec fn names_are_distinct(&self) -> bool {
        distinct_names(self@)
    }

    /// A directory that knows no node.
    pub fn new() -> (directory: NodeDirectory)
        ensures
            directory@ == Seq::<NodeView>::empty(),
    {
        let nodes: Vec<Node> = Vec::new();
        assert(nodes_view(nodes@) =~= Seq::<NodeView>::empty());
        NodeDirectory { nodes }
    }

    /// The nodes, in the order in which their names were first reported. No
    /// two of them have the same name.
    pub fn nodes(&self) -> (nodes: &Vec<Node>)
        ensures
            nodes_view(nodes@) == self@,
            distinct_names(self@),
    {
        proof {
            use_type_invariant(self);
        }
        &self.nodes
    }

    /// The position of the node of the name.
    fn find(&self, name: &str) -> (found: Option<usize>)
        ensures
            match found {
                Some(i) => i < self.nodes@.len() && self@[i as int].name == name@,
                None => !has_node(self@, name@),
            },
    {
        let mut i: usize = 0;
        while i < self.nodes.len()
            invariant
                i <= self.nodes.len(),
                forall|k: int| 0 <= k < i ==> (#[trigger] self@[k]).name != name@,
            decreases self.nodes.len() - i,
        {
            if text_eq(&self.nodes[i].name, name) {
                return Some(i);
            }
            i += 1;
        }
        None
    }

    /// Takes the nodes out of the directory and leaves it empty.
    fn take_nodes(&mut self) -> (nodes: Vec<Node>)
        ensures
            nodes_view(nodes@) == old(self)@,
    {
        let mut taken = NodeDirectory::new();
        std::mem::swap(self, &mut taken);
        let NodeDirectory { nodes } = taken;
        nodes
    }

    /// Takes in a node that the controller listed or resolved.
    pub fn report(&mut self, node: Node)
        ensures
            final(self)@ == reported(old(self)@, node@),
            distinct_names(final(self)@),
    {
        proof {
            use_type_invariant(&*self);
            lemma_reported_distinct(old(self)@, node@);
        }
        let found = self.find(&node.name);
        let ghost before = old(self)@;
        let mut nodes = self.take_nodes();
        assert(nodes@.len() == nodes_view(nodes@).len());
        match found {
            Some(i) => {
                nodes[i] = node;
                assert forall|k: int| 0 <= k < before.len() implies #[trigger] nodes_view(nodes@)[k]
                    == replace_by(node@)(before[k]) by {
                    if k < i {
                        assert(before[k].name != before[i as int].name);
                    } else if k > i {
                        assert(before[i as int].name != before[k].name);
                    }
                }
                assert(nodes_view(nodes@) =~= before.map_values(replace_by(node@)));
            },
            None => {
                nodes.push(node);
                assert(nodes_view(nodes@) =~= before.push(node@));
            },
        }
        *self = NodeDirectory { nodes };
    }

    /// Takes in a listing of the controller, entry by entry.
    pub fn report_all(&mut self, listing: Vec<Node>)
        ensures
            final(self)@ == listed(old(self)@, nodes_view(listing@)),
            distinct_names(final(self)@),
    {
        proof {
            use_type_invariant(&*self);
        }
        let ghost before = self@;
        let ghost all = nodes_view(listing@);
        let mut i: usize = 0;
        assert(all.take(0) =~= Seq::<NodeView>::empty());
        while i < listing.len()
            invariant
                all == nodes_view(listing@),
                i <= listing.len(),
                distinct_names(self@),
                self@ == listed(before, all.take(i as int)),
            decreases listing.len() - i,
        {
            assert(all[i as int] == listing@[i as int]@);
            assert(all.take(i + 1).drop_last() == all.take(i as int));
            self.report(listing[i].clone());
            i += 1;
        }
        assert(all.take(i as int) == all);
    }

    /// The handle of the node of the name.
    pub fn resolve(&self, name: &str) -> (handle: Result<RemoteHandle, MonitorError>)
        ensures
            match handle {
                Ok(h) => exists|i: int|
                    0 <= i < self@.len() && (#[trigger] self@[i]).name == name@ && self@[i].handle
                        == h@,
                Err(e) => !has_node(self@, name@) && e@ == MonitorErrorView::NotFound(name@),
            },
    {
        match self.find(name) {
            Some(i) => Ok(self.nodes[i].handle.clone()),
            None => Err(MonitorError::NotFound(name.to_owned())),
        }
    }

    /// The status that the node of the name last had.
    pub fn status(&self, name: &str) -> (status: Option<String>)
        ensures
            match status {
                Some(s) => exists|i: int|
                    0 <= i < self@.len() && (#[trigger] self@[i]).name == name@ && self@[i].status
                        == s@,
                None => !has_node(self@, name@),
            },
    {
        match self.find(name) {
            Some(i) => Some(self.nodes[i].status.clone()),
            None => None,
        }
    }

    /// Takes in a property change that a node announced. Only this moves the
    /// status of a node. It returns whether a status was set.
    pub fn announce(&mut self, change: &PropertyChanged) -> (set: bool)
        ensures
            final(self)@ == announced(old(self)@, change@),
            distinct_names(final(self)@),
            set == (change@.property == STATUS_PROPERTY@ && change@.value is Text && has_node(
                old(self)@,
                change@.node,
            )),
    {
        proof {
            use_type_invariant(&*self);
        }
        let ghost before = self@;
        if !text_eq(&change.property, STATUS_PROPERTY) {
            return false;
        }
        let status = match &change.value {
            PropertyValue::Text(s) => s.clone(),
            _ => {
                return false;
            },
        };
        let ghost f = with_status(change@.node, status@);
        match self.find(&change.node) {
            Some(i) => {
                let mut nodes = self.take_nodes();
                assert(nodes@.len() == nodes_view(nodes@).len());
                nodes[i].status = status;
                proof {
                    let after = nodes_view(nodes@);
                    assert forall|k: int| 0 <= k < before.len() implies #[trigger] after[k] == f(
                        before[k],
                    ) by {
                        if k < i {
                            assert(before[k].name != before[i as int].name);
                        } else if k > i {
                            assert(before[i as int].name != before[k].name);
                        }
                    }
                    assert(after =~= before.map_values(f));
                    assert forall|a: int, b: int| 0 <= a < b < after.len() implies (
                    #[trigger] after[a]).name != (#[trigger] after[b]).name by {
                        assert(before[a].name != before[b].name);
                    }
                }
                *self = NodeDirectory { nodes };
                true
            },
            None => {
                assert forall|k: int| 0 <= k < before.len() implies f(#[trigger] before[k])
                    == before[k] by {}
                assert(self@ =~= before.map_values(f));
                false
            },
        }
    }
}

} // verus!
