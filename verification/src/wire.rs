//! Reading the arguments of a bus message into plain payload fields.
//!
//! The message and its argument iterator belong to the `dbus` crate. What is
//! believed of them is stated on the few functions of this file that call
//! into it; the walk over the arguments, and what becomes of each, is proved
//! from those statements.
use vstd::prelude::*;
use crate::event::{PropertyValue, PropertyValueView};
use crate::payload::{
    Field, FieldView, Item, ItemView, Notification, NotificationView, Property, PropertyView,
    fields_view, items_view,
};

verus! {

/// What one argument of a message holds, as far as this library reads it.
pub enum WireArg {
    /// A string argument.
    Text(Seq<char>),
    /// A 32-bit unsigned integer argument.
    U32(u32),
    /// A 64-bit unsigned integer argument.
    U64(u64),
    /// A 32-bit signed integer argument.
    I32(i32),
    /// A 64-bit signed integer argument.
    I64(i64),
    /// An array argument, with its elements in order; a dictionary is an
    /// array of entries.
    Array(Seq<WireArg>),
    /// A dictionary entry, with its parts in order: key, then value.
    Entry(Seq<WireArg>),
    /// A variant argument, with what it wraps.
    Variant(Seq<WireArg>),
    /// An argument of any other type.
    Other,
}

/// `dbus::Message`, carried through as an opaque value.
#[verifier::external_type_specification]
#[verifier::external_body]
pub struct ExMessage(dbus::Message);

/// A position among the arguments of a message, or among the contents of one
/// of its container arguments. It holds a `dbus::arg::Iter`, which the
/// verifier cannot take as a declared type because of the traits it
/// implements.
#[verifier::external_body]
pub struct ArgCursor<'a> {
    inner: dbus::arg::Iter<'a>,
}

/// The arguments of a message, first to last.
pub uninterp spec fn message_args(msg: dbus::Message) -> Seq<WireArg>;

/// The arguments from a cursor's position to the end.
pub uninterp spec fn pending_args(cursor: ArgCursor) -> Seq<WireArg>;

/// `Message::iter_init`: an iterator that stands at the first argument of
/// the message.
#[verifier::external_body]
fn cursor_of<'a>(msg: &'a dbus::Message) -> (cursor: ArgCursor<'a>)
    ensures
        pending_args(cursor) == message_args(*msg),
{
    ArgCursor { inner: msg.iter_init() }
}

/// `Iter::arg_type`: it gives `ArgType::Invalid` exactly when the iterator is
/// past the last argument, and does not move the iterator.
#[verifier::external_body]
fn at_end(cursor: &mut ArgCursor) -> (done: bool)
    ensures
        done == (pending_args(*old(cursor)).len() == 0),
        pending_args(*final(cursor)) == pending_args(*old(cursor)),
{
    cursor.inner.arg_type() == dbus::arg::ArgType::Invalid
}

/// `Iter::next`: it moves the iterator past the current argument.
#[verifier::external_body]
fn advance(cursor: &mut ArgCursor)
    requires
        pending_args(*old(cursor)).len() > 0,
    ensures
        pending_args(*final(cursor)) == pending_args(*old(cursor)).skip(1),
{
    cursor.inner.next();
}

/// `Iter::read::<String>`: where the current argument is a string, it
/// returns the text and moves past it; anywhere else it fails and leaves the
/// iterator where it is.
#[verifier::external_body]
fn read_text(cursor: &mut ArgCursor) -> (text: Option<String>)
    ensures
        match text {
            Some(s) => {
                &&& pending_args(*old(cursor)).len() > 0
                &&& pending_args(*old(cursor))[0] == WireArg::Text(s@)
                &&& pending_args(*final(cursor)) == pending_args(*old(cursor)).skip(1)
            },
            None => {
                &&& !(pending_args(*old(cursor)).len() > 0 && pending_args(*old(cursor))[0] is Text)
                &&& pending_args(*final(cursor)) == pending_args(*old(cursor))
            },
        },
{
    cursor.inner.read::<String>().ok()
}

/// `Iter::read::<u32>`: where the current argument is a 32-bit unsigned
/// integer, it returns the number and moves past it; anywhere else it fails
/// and leaves the iterator where it is.
#[verifier::external_body]
fn read_u32(cursor: &mut ArgCursor) -> (number: Option<u32>)
    ensures
        match number {
            Some(n) => {
                &&& pending_args(*old(cursor)).len() > 0
                &&& pending_args(*old(cursor))[0] == WireArg::U32(n)
                &&& pending_args(*final(cursor)) == pending_args(*old(cursor)).skip(1)
            },
            None => {
                &&& !(pending_args(*old(cursor)).len() > 0 && pending_args(*old(cursor))[0] is U32)
                &&& pending_args(*final(cursor)) == pending_args(*old(cursor))
            },
        },
{
    cursor.inner.read::<u32>().ok()
}

/// `Iter::read::<u64>`: as for the 32-bit unsigned integer, on a 64-bit one.
#[verifier::external_body]
fn read_u64(cursor: &mut ArgCursor) -> (number: Option<u64>)
    ensures
        match number {
            Some(n) => {
                &&& pending_args(*old(cursor)).len() > 0
                &&& pending_args(*old(cursor))[0] == WireArg::U64(n)
                &&& pending_args(*final(cursor)) == pending_args(*old(cursor)).skip(1)
            },
            None => {
                &&& !(pending_args(*old(cursor)).len() > 0 && pending_args(*old(cursor))[0] is U64)
                &&& pending_args(*final(cursor)) == pending_args(*old(cursor))
            },
        },
{
    cursor.inner.read::<u64>().ok()
}

/// `Iter::read::<i32>`: as for the 32-bit unsigned integer, on a 32-bit
/// signed one.
#[verifier::external_body]
fn read_i32(cursor: &mut ArgCursor) -> (number: Option<i32>)
    ensures
        match number {
            Some(n) => {
                &&& pending_args(*old(cursor)).len() > 0
                &&& pending_args(*old(cursor))[0] == WireArg::I32(n)
                &&& pending_args(*final(cursor)) == pending_args(*old(cursor)).skip(1)
            },
            None => {
                &&& !(pending_args(*old(cursor)).len() > 0 && pending_args(*old(cursor))[0] is I32)
                &&& pending_args(*final(cursor)) == pending_args(*old(cursor))
            },
        },
{
    cursor.inner.read::<i32>().ok()
}

/// `Iter::read::<i64>`: as for the 32-bit unsigned integer, on a 64-bit
/// signed one.
#[verifier::external_body]
fn read_i64(cursor: &mut ArgCursor) -> (number: Option<i64>)
    ensures
        match number {
            Some(n) => {
                &&& pending_args(*old(cursor)).len() > 0
                &&& pending_args(*old(cursor))[0] == WireArg::I64(n)
                &&& pending_args(*final(cursor)) == pending_args(*old(cursor)).skip(1)
            },
            None => {
                &&& !(pending_args(*old(cursor)).len() > 0 && pending_args(*old(cursor))[0] is I64)
                &&& pending_args(*final(cursor)) == pending_args(*old(cursor))
            },
        },
{
    cursor.inner.read::<i64>().ok()
}

/// The kinds of container argument that the library looks into.
#[derive(Clone, Copy, Debug, PartialEq, Eq, Structural)]
pub enum Container {
    Array,
    Entry,
    Variant,
}

/// What a container of the given kind holds; nothing where the argument is
/// no container of that kind.
pub open spec fn contents_of(arg: WireArg, container: Container) -> Option<Seq<WireArg>> {
    match (container, arg) {
        (Container::Array, WireArg::Array(contents)) => Some(contents),
        (Container::Entry, WireArg::Entry(contents)) => Some(contents),
        (Container::Variant, WireArg::Variant(contents)) => Some(contents),
        _ => None,
    }
}

/// `Iter::recurse`: where the current argument is a container of the type
/// asked for, it returns an iterator over what the container holds;
/// anywhere else it returns nothing. The iterator itself does not move.
#[verifier::external_body]
fn enter<'a>(cursor: &mut ArgCursor<'a>, container: Container) -> (inner: Option<ArgCursor<'a>>)
    ensures
        pending_args(*final(cursor)) == pending_args(*old(cursor)),
        match inner {
            Some(c) => {
                &&& pending_args(*old(cursor)).len() > 0
                &&& contents_of(pending_args(*old(cursor))[0], container) == Some(pending_args(c))
            },
            None => pending_args(*old(cursor)).len() == 0 || contents_of(
                pending_args(*old(cursor))[0],
                container,
            ) is None,
        },
{
    let arg_type = match container {
        Container::Array => dbus::arg::ArgType::Array,
        Container::Entry => dbus::arg::ArgType::DictEntry,
        Container::Variant => dbus::arg::ArgType::Variant,
    };
    match cursor.inner.recurse(arg_type) {
        Some(inner) => Some(ArgCursor { inner }),
        None => None,
    }
}

/// The property value that a variant holds: its first content if that is a
/// text or one of the integers read here, and `Other` for anything else.
pub open spec fn value_of(inner: Seq<WireArg>) -> PropertyValueView {
    if inner.len() == 0 {
        PropertyValueView::Other
    } else {
        match inner[0] {
            WireArg::Text(s) => PropertyValueView::Text(s),
            WireArg::U32(n) => PropertyValueView::Unsigned(n as u64),
            WireArg::U64(n) => PropertyValueView::Unsigned(n),
            WireArg::I32(n) => PropertyValueView::Signed(n as i64),
            WireArg::I64(n) => PropertyValueView::Signed(n),
            _ => PropertyValueView::Other,
        }
    }
}

/// The list element that a dictionary entry makes: a property where the key
/// is a text and the value a variant, and `Other` for any other entry.
pub open spec fn entry_of(parts: Seq<WireArg>) -> ItemView {
    if parts.len() >= 2 {
        match (parts[0], parts[1]) {
            (WireArg::Text(name), WireArg::Variant(inner)) => ItemView::Entry(
                PropertyView { name, value: value_of(inner) },
            ),
            _ => ItemView::Other,
        }
    } else {
        ItemView::Other
    }
}

/// The list element that an array element makes.
pub open spec fn item_of(arg: WireArg) -> ItemView {
    match arg {
        WireArg::Text(s) => ItemView::Text(s),
        WireArg::Entry(parts) => entry_of(parts),
        _ => ItemView::Other,
    }
}

/// The list elements that the elements of an array make, in order.
pub open spec fn items_of(args: Seq<WireArg>) -> Seq<ItemView> {
    args.map_values(|a: WireArg| item_of(a))
}

/// The payload field that a message argument makes.
pub open spec fn field_of(arg: WireArg) -> FieldView {
    match arg {
        WireArg::Text(s) => FieldView::Text(s),
        WireArg::Array(elements) => FieldView::List(items_of(elements)),
        _ => FieldView::Other,
    }
}

/// The payload that the arguments of a message make, in order.
pub open spec fn fields_of(args: Seq<WireArg>) -> Seq<FieldView> {
    args.map_values(|a: WireArg| field_of(a))
}

/// Reads what a variant wraps as a property value.
fn read_value(inner: &mut ArgCursor) -> (value: PropertyValue)
    ensures
        value@ == value_of(pending_args(*old(inner))),
{
    if let Some(s) = read_text(inner) {
        return PropertyValue::Text(s);
    }
    if let Some(n) = read_u32(inner) {
        return PropertyValue::Unsigned(n as u64);
    }
    if let Some(n) = read_u64(inner) {
        return PropertyValue::Unsigned(n);
    }
    if let Some(n) = read_i32(inner) {
        return PropertyValue::Signed(n as i64);
    }
    if let Some(n) = read_i64(inner) {
        return PropertyValue::Signed(n);
    }
    PropertyValue::Other
}

/// Reads the parts of a dictionary entry as a list element.
fn read_entry(parts: &mut ArgCursor) -> (item: Item)
    ensures
        item@ == entry_of(pending_args(*old(parts))),
{
    match read_text(parts) {
        Some(name) => match enter(parts, Container::Variant) {
            Some(mut inner) => {
                let value = read_value(&mut inner);
                Item::Entry(Property { name, value })
            },
            None => Item::Other,
        },
        None => Item::Other,
    }
}

/// Reads the current element of an array and moves past it.
fn read_item(cursor: &mut ArgCursor) -> (item: Item)
    requires
        pending_args(*old(cursor)).len() > 0,
    ensures
        item@ == item_of(pending_args(*old(cursor))[0]),
        pending_args(*final(cursor)) == pending_args(*old(cursor)).skip(1),
{
    if let Some(s) = read_text(cursor) {
        return Item::Text(s);
    }
    let item = match enter(cursor, Container::Entry) {
        Some(mut parts) => read_entry(&mut parts),
        None => Item::Other,
    };
    advance(cursor);
    item
}

/// Reads the elements of an array, from the cursor to the end.
fn read_items(cursor: &mut ArgCursor) -> (items: Vec<Item>)
    ensures
        items_view(items@) == items_of(pending_args(*old(cursor))),
        pending_args(*final(cursor)).len() == 0,
{
    let ghost all = pending_args(*cursor);
    let mut items: Vec<Item> = Vec::new();
    while !at_end(cursor)
        invariant
            items@.len() <= all.len(),
            pending_args(*cursor) == all.skip(items@.len() as int),
            items_view(items@) == items_of(all.take(items@.len() as int)),
        decreases all.len() - items@.len(),
    {
        let ghost done = items@;
        let item = read_item(cursor);
        items.push(item);
        assert(all.skip(done.len() as int).skip(1) == all.skip(done.len() as int + 1));
        assert forall|k: int| 0 <= k < items@.len() implies #[trigger] items_view(items@)[k]
            == items_of(all.take(items@.len() as int))[k] by {
            if k < done.len() {
                assert(items_view(done)[k] == items_of(all.take(done.len() as int))[k]);
            }
        }
        assert(items_view(items@) =~= items_of(all.take(items@.len() as int)));
    }
    assert(all.take(items@.len() as int) == all);
    items
}

/// Reads the current argument of a message and moves past it.
fn read_field(cursor: &mut ArgCursor) -> (field: Field)
    requires
        pending_args(*old(cursor)).len() > 0,
    ensures
        field@ == field_of(pending_args(*old(cursor))[0]),
        pending_args(*final(cursor)) == pending_args(*old(cursor)).skip(1),
{
    if let Some(s) = read_text(cursor) {
        return Field::Text(s);
    }
    let field = match enter(cursor, Container::Array) {
        Some(mut elements) => Field::List(read_items(&mut elements)),
        None => Field::Other,
    };
    advance(cursor);
    field
}

/// Reads the payload of a message: each argument as the field it makes.
pub fn read_payload(msg: &dbus::Message) -> (fields: Vec<Field>)
    ensures
        fields_view(fields@) == fields_of(message_args(*msg)),
{
    let mut cursor = cursor_of(msg);
    let ghost all = pending_args(cursor);
    let mut fields: Vec<Field> = Vec::new();
    while !at_end(&mut cursor)
        invariant
            fields@.len() <= all.len(),
            pending_args(cursor) == all.skip(fields@.len() as int),
            fields_view(fields@) == fields_of(all.take(fields@.len() as int)),
        decreases all.len() - fields@.len(),
    {
        let ghost done = fields@;
        let field = read_field(&mut cursor);
        fields.push(field);
        assert(all.skip(done.len() as int).skip(1) == all.skip(done.len() as int + 1));
        assert forall|k: int| 0 <= k < fields@.len() implies #[trigger] fields_view(fields@)[k]
            == fields_of(all.take(fields@.len() as int))[k] by {
            if k < done.len() {
                assert(fields_view(done)[k] == fields_of(all.take(done.len() as int))[k]);
            }
        }
        assert(fields_view(fields@) =~= fields_of(all.take(fields@.len() as int)));
    }
    assert(all.take(fields@.len() as int) == all);
    fields
}

impl Notification {
    /// The notification that a signal message carries: its payload, under
    /// the origin and name that the caller read from the message's header.
    pub fn from_message(path: &str, interface: &str, member: &str, msg: &dbus::Message) -> (n:
        Notification)
        ensures
            n@ == (NotificationView {
                path: path@,
                interface: interface@,
                member: member@,
                fields: fields_of(message_args(*msg)),
            }),
    {
        Notification {
            path: path.to_owned(),
            interface: interface.to_owned(),
            member: member.to_owned(),
            fields: read_payload(msg),
        }
    }
}

} // verus!
