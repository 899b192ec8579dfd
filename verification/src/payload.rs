//! A notification as it comes off the bus, in plain values: where it came
//! from, what it is called, and its payload fields in order.
use vstd::prelude::*;
use crate::event::{PropertyValue, PropertyValueView};

verus! {

/// One entry of a property dictionary.
#[derive(Debug, PartialEq, Eq)]
pub struct Property {
    pub name: String,
    pub value: PropertyValue,
}

pub struct PropertyView {
    pub name: Seq<char>,
    pub value: PropertyValueView,
}

impl View for Property {
    type V = PropertyView;

    open spec fn view(&self) -> PropertyView {
        PropertyView { name: self.name@, value: self.value@ }
    }
}

impl Clone for Property {
    fn clone(&self) -> (copy: Self)
        ensures
            copy@ == self@,
    {
        Property { name: self.name.clone(), value: self.value.clone() }
    }
}

/// The properties of a dictionary, each by its view.
pub open spec fn properties_view(properties: Seq<Property>) -> Seq<PropertyView> {
    properties.map_values(|p: Property| p@)
}

/// One element of a list field.
#[derive(Debug, PartialEq, Eq)]
pub enum Item {
    Text(String),
    Entry(Property),
    /// An element of any other shape; what it held is not kept.
    Other,
}

pub enum ItemView {
    Text(Seq<char>),
    Entry(PropertyView),
    Other,
}

impl View for Item {
    type V = ItemView;

    open spec fn view(&self) -> ItemView {
        match self {
            Item::Text(s) => ItemView::Text(s@),
            Item::Entry(p) => ItemView::Entry(p@),
            Item::Other => ItemView::Other,
        }
    }
}

/// One payload field of a notification.
#[derive(Debug, PartialEq, Eq)]
pub enum Field {
    Text(String),
    List(Vec<Item>),
    /// A field of any other type; what it held is not kept.
    Other,
}

pub enum FieldView {
    Text(Seq<char>),
    List(Seq<ItemView>),
    Other,
}

/// The elements of a list, each by its view.
pub open spec fn items_view(items: Seq<Item>) -> Seq<ItemView> {
    items.map_values(|i: Item| i@)
}

/// The fields of a payload, each by its view.
pub open spec fn fields_view(fields: Seq<Field>) -> Seq<FieldView> {
    fields.map_values(|f: Field| f@)
}

impl View for Field {
    type V = FieldView;

    open spec fn view(&self) -> FieldView {
        match self {
            Field::Text(s) => FieldView::Text(s@),
            Field::List(items) => FieldView::List(items_view(items@)),
            Field::Other => FieldView::Other,
        }
    }
}

/// A notification pushed by a bus peer: the object it came from, the
/// interface and member that name it, and its payload.
#[derive(Debug, PartialEq, Eq)]
pub struct Notification {
    pub path: String,
    pub interface: String,
    pub member: String,
    pub fields: Vec<Field>,
}

pub struct NotificationView {
    pub path: Seq<char>,
    pub interface: Seq<char>,
    pub member: Seq<char>,
    pub fields: Seq<FieldView>,
}

impl View for Notification {
    type V = NotificationView;

    open spec fn view(&self) -> NotificationView {
        NotificationView {
            path: self.path@,
            interface: self.interface@,
            member: self.member@,
            fields: fields_view(self.fields@),
        }
    }
}

/// The notifications of a batch, each by its view.
pub open spec fn batch_view(batch: Seq<Notification>) -> Seq<NotificationView> {
    batch.map_values(|n: Notification| n@)
}

impl Notification {
    /// A notification with the given origin and name and an empty payload.
    pub fn new(path: &str, interface: &str, member: &str) -> (n: Notification)
        ensures
            n@ == (NotificationView {
                path: path@,
                interface: interface@,
                member: member@,
                fields: Seq::empty(),
            }),
    {
        let n = Notification {
            path: path.to_owned(),
            interface: interface.to_owned(),
            member: member.to_owned(),
            fields: Vec::new(),
        };
        assert(fields_view(n.fields@) =~= Seq::empty());
        n
    }

    /// Adds a text field at the end of the payload.
    pub fn push_text(&mut self, text: &str)
        ensures
            final(self)@ == (NotificationView {
                fields: old(self)@.fields.push(FieldView::Text(text@)),
                ..old(self)@
            }),
    {
        self.fields.push(Field::Text(text.to_owned()));
        assert(fields_view(self.fields@) =~= old(self)@.fields.push(FieldView::Text(text@)));
    }
}

} // verus!
