//! The typed events that reach callbacks, and the four unit signals of a
//! monitor session.
use vstd::prelude::*;
use crate::text::text_eq;

verus! {

/// The interface on which a monitor session emits its unit signals.
pub const MONITOR_INTERFACE: &'static str = "org.eclipse.bluechi.Monitor";

/// The standard interface that announces changed properties of an object.
pub const PROPERTIES_INTERFACE: &'static str = "org.freedesktop.DBus.Properties";

/// The member name of the standard properties-changed signal.
pub const PROPERTIES_CHANGED: &'static str = "PropertiesChanged";

/// The four signals of a monitor session.
#[derive(Clone, Copy, Debug, PartialEq, Eq, Structural)]
pub enum SignalKind {
    UnitNew,
    UnitRemoved,
    UnitPropertiesChanged,
    UnitStateChanged,
}

impl SignalKind {
    /// The member name under which the signal travels.
    pub open spec fn spec_name(self) -> Seq<char> {
        match self {
            SignalKind::UnitNew => "UnitNew"@,
            SignalKind::UnitRemoved => "UnitRemoved"@,
            SignalKind::UnitPropertiesChanged => "UnitPropertiesChanged"@,
            SignalKind::UnitStateChanged => "UnitStateChanged"@,
        }
    }

    /// The signal that travels under a member name, if the name is one of
    /// the four.
    pub open spec fn spec_from_name(member: Seq<char>) -> Option<SignalKind> {
        if member == "UnitNew"@ {
            Some(SignalKind::UnitNew)
        } else if member == "UnitRemoved"@ {
            Some(SignalKind::UnitRemoved)
        } else if member == "UnitPropertiesChanged"@ {
            Some(SignalKind::UnitPropertiesChanged)
        } else if member == "UnitStateChanged"@ {
            Some(SignalKind::UnitStateChanged)
        } else {
            None
        }
    }

    /// How many payload fields the signal carries, all of them text.
    pub open spec fn spec_arity(self) -> nat {
        match self {
            SignalKind::UnitStateChanged => 5,
            _ => 3,
        }
    }

    pub fn name(self) -> (name: &'static str)
        ensures
            name@ == self.spec_name(),
    {
        match self {
            SignalKind::UnitNew => "UnitNew",
            SignalKind::UnitRemoved => "UnitRemoved",
            SignalKind::UnitPropertiesChanged => "UnitPropertiesChanged",
            SignalKind::UnitStateChanged => "UnitStateChanged",
        }
    }

    /// Looks a member name up in the table of known signals.
    pub fn from_name(member: &str) -> (kind: Option<SignalKind>)
        ensures
            kind == SignalKind::spec_from_name(member@),
    {
        if text_eq(member, "UnitNew") {
            Some(SignalKind::UnitNew)
        } else if text_eq(member, "UnitRemoved") {
            Some(SignalKind::UnitRemoved)
        } else if text_eq(member, "UnitPropertiesChanged") {
            Some(SignalKind::UnitPropertiesChanged)
        } else if text_eq(member, "UnitStateChanged") {
            Some(SignalKind::UnitStateChanged)
        } else {
            None
        }
    }

    pub fn arity(self) -> (n: usize)
        ensures
            n == self.spec_arity(),
    {
        match self {
            SignalKind::UnitStateChanged => 5,
            _ => 3,
        }
    }

    /// Every signal is found again under its own name.
    pub proof fn lemma_name_round_trip(self)
        ensures
            SignalKind::spec_from_name(self.spec_name()) == Some(self),
    {
        reveal_strlit("UnitNew");
        reveal_strlit("UnitRemoved");
        reveal_strlit("UnitPropertiesChanged");
        reveal_strlit("UnitStateChanged");
        let new = "UnitNew"@;
        let removed = "UnitRemoved"@;
        let props = "UnitPropertiesChanged"@;
        let state = "UnitStateChanged"@;
        assert(new.len() == 7 && removed.len() == 11 && props.len() == 21 && state.len() == 16);
    }
}

/// A unit appeared on a node.
#[derive(Debug, PartialEq, Eq)]
pub struct UnitNewSignal {
    pub node: String,
    pub unit: String,
    pub reason: String,
}

/// A unit disappeared from a node.
#[derive(Debug, PartialEq, Eq)]
pub struct UnitRemovedSignal {
    pub node: String,
    pub unit: String,
    pub reason: String,
}

/// Properties of a unit changed on one of its interfaces.
#[derive(Debug, PartialEq, Eq)]
pub struct UnitPropertiesChangedSignal {
    pub node: String,
    pub unit: String,
    pub interface: String,
}

/// A unit moved to another active state and sub state.
#[derive(Debug, PartialEq, Eq)]
pub struct UnitStateChangedSignal {
    pub node: String,
    pub unit: String,
    pub active_state: String,
    pub sub_state: String,
    pub reason: String,
}

pub struct UnitNewSignalView {
    pub node: Seq<char>,
    pub unit: Seq<char>,
    pub reason: Seq<char>,
}

pub struct UnitRemovedSignalView {
    pub node: Seq<char>,
    pub unit: Seq<char>,
    pub reason: Seq<char>,
}

pub struct UnitPropertiesChangedSignalView {
    pub node: Seq<char>,
    pub unit: Seq<char>,
    pub interface: Seq<char>,
}

pub struct UnitStateChangedSignalView {
    pub node: Seq<char>,
    pub unit: Seq<char>,
    pub active_state: Seq<char>,
    pub sub_state: Seq<char>,
    pub reason: Seq<char>,
}

impl View for UnitNewSignal {
    type V = UnitNewSignalView;

    open spec fn view(&self) -> UnitNewSignalView {
        UnitNewSignalView { node: self.node@, unit: self.unit@, reason: self.reason@ }
    }
}

impl View for UnitRemovedSignal {
    type V = UnitRemovedSignalView;

    open spec fn view(&self) -> UnitRemovedSignalView {
        UnitRemovedSignalView { node: self.node@, unit: self.unit@, reason: self.reason@ }
    }
}

impl View for UnitPropertiesChangedSignal {
    type V = UnitPropertiesChangedSignalView;

    open spec fn view(&self) -> UnitPropertiesChangedSignalView {
        UnitPropertiesChangedSignalView {
            node: self.node@,
            unit: self.unit@,
            interface: self.interface@,
        }
    }
}

impl View for UnitStateChangedSignal {
    type V = UnitStateChangedSignalView;

    open spec fn view(&self) -> UnitStateChangedSignalView {
        UnitStateChangedSignalView {
            node: self.node@,
            unit: self.unit@,
            active_state: self.active_state@,
            sub_state: self.sub_state@,
            reason: self.reason@,
        }
    }
}

impl Clone for UnitNewSignal {
    fn clone(&self) -> (copy: Self)
        ensures
            copy@ == self@,
    {
        UnitNewSignal {
            node: self.node.clone(),
            unit: self.unit.clone(),
            reason: self.reason.clone(),
        }
    }
}

impl Clone for UnitRemovedSignal {
    fn clone(&self) -> (copy: Self)
        ensures
            copy@ == self@,
    {
        UnitRemovedSignal {
            node: self.node.clone(),
            unit: self.unit.clone(),
            reason: self.reason.clone(),
        }
    }
}

impl Clone for UnitPropertiesChangedSignal {
    fn clone(&self) -> (copy: Self)
        ensures
            copy@ == self@,
    {
        UnitPropertiesChangedSignal {
            node: self.node.clone(),
            unit: self.unit.clone(),
            interface: self.interface.clone(),
        }
    }
}

impl Clone for UnitStateChangedSignal {
    fn clone(&self) -> (copy: Self)
        ensures
            copy@ == self@,
    {
        UnitStateChangedSignal {
            node: self.node.clone(),
            unit: self.unit.clone(),
            active_state: self.active_state.clone(),
            sub_state: self.sub_state.clone(),
            reason: self.reason.clone(),
        }
    }
}

/// The value of a changed property, by its type on the wire.
#[derive(Debug, PartialEq, Eq)]
pub enum PropertyValue {
    Text(String),
    Unsigned(u64),
    Signed(i64),
    /// A value of any other type; what it held is not kept.
    Other,
}

pub enum PropertyValueView {
    Text(Seq<char>),
    Unsigned(u64),
    Signed(i64),
    Other,
}

impl View for PropertyValue {
    type V = PropertyValueView;

    open spec fn view(&self) -> PropertyValueView {
        match self {
            PropertyValue::Text(s) => PropertyValueView::Text(s@),
            PropertyValue::Unsigned(n) => PropertyValueView::Unsigned(*n),
            PropertyValue::Signed(n) => PropertyValueView::Signed(*n),
            PropertyValue::Other => PropertyValueView::Other,
        }
    }
}

impl PropertyValueView {
    /// The text of a text value, the empty text of any other.
    pub open spec fn text(self) -> Seq<char> {
        match self {
            PropertyValueView::Text(s) => s,
            _ => Seq::empty(),
        }
    }
}

impl Clone for PropertyValue {
    fn clone(&self) -> (copy: Self)
        ensures
            copy@ == self@,
    {
        match self {
            PropertyValue::Text(s) => PropertyValue::Text(s.clone()),
            PropertyValue::Unsigned(n) => PropertyValue::Unsigned(*n),
            PropertyValue::Signed(n) => PropertyValue::Signed(*n),
            PropertyValue::Other => PropertyValue::Other,
        }
    }
}

impl PropertyValue {
    /// The text of a text value, the empty text of any other.
    pub fn as_text(&self) -> (text: String)
        ensures
            text@ == self@.text(),
    {
        match self {
            PropertyValue::Text(s) => s.clone(),
            _ => String::new(),
        }
    }
}

/// One property of a node took a new value; what a direct listener receives.
#[derive(Debug, PartialEq, Eq)]
pub struct PropertyChanged {
    pub node: String,
    pub property: String,
    pub value: PropertyValue,
}

pub struct PropertyChangedView {
    pub node: Seq<char>,
    pub property: Seq<char>,
    pub value: PropertyValueView,
}

impl View for PropertyChanged {
    type V = PropertyChangedView;

    open spec fn view(&self) -> PropertyChangedView {
        PropertyChangedView { node: self.node@, property: self.property@, value: self.value@ }
    }
}

impl Clone for PropertyChanged {
    fn clone(&self) -> (copy: Self)
        ensures
            copy@ == self@,
    {
        PropertyChanged {
            node: self.node.clone(),
            property: self.property.clone(),
            value: self.value.clone(),
        }
    }
}

/// What a callback receives: one of the four unit signals of a monitor
/// session, or the change of one watched property of a node.
#[derive(Debug, PartialEq, Eq)]
pub enum Event {
    UnitNew(UnitNewSignal),
    UnitRemoved(UnitRemovedSignal),
    UnitPropertiesChanged(UnitPropertiesChangedSignal),
    UnitStateChanged(UnitStateChangedSignal),
    PropertyChanged(PropertyChanged),
}

pub enum EventView {
    UnitNew(UnitNewSignalView),
    UnitRemoved(UnitRemovedSignalView),
    UnitPropertiesChanged(UnitPropertiesChangedSignalView),
    UnitStateChanged(UnitStateChangedSignalView),
    PropertyChanged(PropertyChangedView),
}

impl View for Event {
    type V = EventView;

    open spec fn view(&self) -> EventView {
        match self {
            Event::UnitNew(s) => EventView::UnitNew(s@),
            Event::UnitRemoved(s) => EventView::UnitRemoved(s@),
            Event::UnitPropertiesChanged(s) => EventView::UnitPropertiesChanged(s@),
            Event::UnitStateChanged(s) => EventView::UnitStateChanged(s@),
            Event::PropertyChanged(p) => EventView::PropertyChanged(p@),
        }
    }
}

impl EventView {
    /// The node on which the event arose.
    pub open spec fn node(self) -> Seq<char> {
        match self {
            EventView::UnitNew(s) => s.node,
            EventView::UnitRemoved(s) => s.node,
            EventView::UnitPropertiesChanged(s) => s.node,
            EventView::UnitStateChanged(s) => s.node,
            EventView::PropertyChanged(p) => p.node,
        }
    }

    /// The unit that the event is about; a property change is about none.
    pub open spec fn unit(self) -> Option<Seq<char>> {
        match self {
            EventView::UnitNew(s) => Some(s.unit),
            EventView::UnitRemoved(s) => Some(s.unit),
            EventView::UnitPropertiesChanged(s) => Some(s.unit),
            EventView::UnitStateChanged(s) => Some(s.unit),
            EventView::PropertyChanged(_) => None,
        }
    }

    /// The unit signal that the event is, if it is one.
    pub open spec fn kind(self) -> Option<SignalKind> {
        match self {
            EventView::UnitNew(_) => Some(SignalKind::UnitNew),
            EventView::UnitRemoved(_) => Some(SignalKind::UnitRemoved),
            EventView::UnitPropertiesChanged(_) => Some(SignalKind::UnitPropertiesChanged),
            EventView::UnitStateChanged(_) => Some(SignalKind::UnitStateChanged),
            EventView::PropertyChanged(_) => None,
        }
    }
}

impl Clone for Event {
    fn clone(&self) -> (copy: Self)
        ensures
            copy@ == self@,
    {
        match self {
            Event::UnitNew(s) => Event::UnitNew(s.clone()),
            Event::UnitRemoved(s) => Event::UnitRemoved(s.clone()),
            Event::UnitPropertiesChanged(s) => Event::UnitPropertiesChanged(s.clone()),
            Event::UnitStateChanged(s) => Event::UnitStateChanged(s.clone()),
            Event::PropertyChanged(p) => Event::PropertyChanged(p.clone()),
        }
    }
}

impl Event {
    /// The node on which the event arose.
    pub fn node(&self) -> (node: &String)
        ensures
            node@ == self@.node(),
    {
        match self {
            Event::UnitNew(s) => &s.node,
            Event::UnitRemoved(s) => &s.node,
            Event::UnitPropertiesChanged(s) => &s.node,
            Event::UnitStateChanged(s) => &s.node,
            Event::PropertyChanged(p) => &p.node,
        }
    }

    /// The unit that the event is about; a property change is about none.
    pub fn unit(&self) -> (unit: Option<&String>)
        ensures
            match unit {
                Some(u) => self@.unit() == Some(u@),
                None => self@.unit() is None,
            },
    {
        match self {
            Event::UnitNew(s) => Some(&s.unit),
            Event::UnitRemoved(s) => Some(&s.unit),
            Event::UnitPropertiesChanged(s) => Some(&s.unit),
            Event::UnitStateChanged(s) => Some(&s.unit),
            Event::PropertyChanged(_) => None,
        }
    }

    /// The unit signal that the event is, if it is one.
    pub fn kind(&self) -> (kind: Option<SignalKind>)
        ensures
            kind == self@.kind(),
    {
        match self {
            Event::UnitNew(_) => Some(SignalKind::UnitNew),
            Event::UnitRemoved(_) => Some(SignalKind::UnitRemoved),
            Event::UnitPropertiesChanged(_) => Some(SignalKind::UnitPropertiesChanged),
            Event::UnitStateChanged(_) => Some(SignalKind::UnitStateChanged),
            Event::PropertyChanged(_) => None,
        }
    }
}

} // verus!
