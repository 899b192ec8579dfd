//! From the payload of a notification to a typed value.
//!
//! A notification is recognised by its interface and member, through one
//! table of known names. The payload of a recognised notification must have
//! exactly the fields that its kind carries; any other payload is malformed.
//! A notification that the table does not hold is unknown, which is no error.
use vstd::prelude::*;
use crate::event::{
    Event, EventView, SignalKind, UnitNewSignal, UnitNewSignalView, UnitPropertiesChangedSignal,
    UnitPropertiesChangedSignalView, UnitRemovedSignal, UnitRemovedSignalView,
    UnitStateChangedSignal, UnitStateChangedSignalView, PropertyValue, PropertyValueView,
    MONITOR_INTERFACE, PROPERTIES_CHANGED, PROPERTIES_INTERFACE,
};
use crate::payload::{
    Field, FieldView, Item, ItemView, Notification, NotificationView, Property, PropertyView,
    fields_view, items_view, properties_view,
};
use crate::text::text_eq;

verus! {

/// Why the payload of a recognised notification could not be read.
#[derive(Clone, Copy, Debug, PartialEq, Eq, Structural)]
pub enum DecodeError {
    /// The payload has another number of fields than its kind carries.
    WrongArity { expected: usize, found: usize },
    /// The field at this position, counted from zero, has another type than
    /// its kind carries there. Of several such fields it is the first.
    WrongType { position: usize },
}

/// The text of a text field, the empty text of any other.
pub open spec fn text_of(field: FieldView) -> Seq<char> {
    match field {
        FieldView::Text(s) => s,
        _ => Seq::empty(),
    }
}

/// The position of the first field at or after `start` that is no text.
pub open spec fn first_non_text(fields: Seq<FieldView>, start: int) -> Option<int>
    decreases fields.len() - start,
{
    if start < 0 || start >= fields.len() {
        None
    } else if !(fields[start] is Text) {
        Some(start)
    } else {
        first_non_text(fields, start + 1)
    }
}

/// The texts of a payload of exactly `count` text fields, or what is wrong
/// with the payload.
pub open spec fn texts_of(fields: Seq<FieldView>, count: nat) -> Result<Seq<Seq<char>>, DecodeError> {
    if fields.len() != count {
        Err(DecodeError::WrongArity { expected: count as usize, found: fields.len() as usize })
    } else {
        match first_non_text(fields, 0) {
            Some(position) => Err(DecodeError::WrongType { position: position as usize }),
            None => Ok(fields.map_values(|f: FieldView| text_of(f))),
        }
    }
}

/// The views of a vector of strings.
pub open spec fn texts_view(texts: Seq<String>) -> Seq<Seq<char>> {
    texts.map_values(|s: String| s@)
}

/// From `start` on, the first field that is no text is found exactly where
/// the fields before it are texts.
proof fn lemma_first_non_text(fields: Seq<FieldView>, start: int)
    requires
        0 <= start,
    ensures
        match first_non_text(fields, start) {
            Some(position) => {
                &&& start <= position < fields.len()
                &&& !(fields[position] is Text)
                &&& forall|i: int| start <= i < position ==> #[trigger] fields[i] is Text
            },
            None => forall|i: int| start <= i < fields.len() ==> #[trigger] fields[i] is Text,
        },
    decreases fields.len() - start,
{
    if start < fields.len() && fields[start] is Text {
        lemma_first_non_text(fields, start + 1);
    }
}

/// What `texts_of` answers, said without recursion. It gives the texts
/// exactly when the payload has `count` fields and each is a text. It
/// reports the arity exactly when the payload has another number of fields.
/// It reports a type exactly when the number is right and some field is no
/// text, and the position is that of the first such field.
pub proof fn lemma_texts_of(fields: Seq<FieldView>, count: nat)
    requires
        count <= usize::MAX,
    ensures
        match texts_of(fields, count) {
            Ok(texts) => {
                &&& fields.len() == count
                &&& texts.len() == count
                &&& forall|i: int| 0 <= i < count ==> #[trigger] fields[i] == FieldView::Text(texts[i])
            },
            Err(DecodeError::WrongArity { expected, found }) => {
                &&& fields.len() != count
                &&& expected == count
                &&& found == fields.len() as usize
            },
            Err(DecodeError::WrongType { position }) => {
                &&& fields.len() == count
                &&& position < count
                &&& !(fields[position as int] is Text)
                &&& forall|i: int| 0 <= i < position ==> #[trigger] fields[i] is Text
            },
        },
{
    lemma_first_non_text(fields, 0);
}

/// Reads a payload of exactly `count` text fields.
pub fn read_texts(fields: &Vec<Field>, count: usize) -> (texts: Result<Vec<String>, DecodeError>)
    ensures
        match texts {
            Ok(t) => {
                &&& t@.len() == count
                &&& texts_of(fields_view(fields@), count as nat) == Ok::<_, DecodeError>(
                    texts_view(t@),
                )
            },
            Err(e) => texts_of(fields_view(fields@), count as nat) == Err::<Seq<Seq<char>>, _>(e),
        },
{
    let ghost all = fields_view(fields@);
    if fields.len() != count {
        return Err(DecodeError::WrongArity { expected: count, found: fields.len() });
    }
    let mut texts: Vec<String> = Vec::new();
    let mut i: usize = 0;
    while i < fields.len()
        invariant
            all == fields_view(fields@),
            fields.len() == count,
            i <= fields.len(),
            texts@.len() == i,
            first_non_text(all, 0) == first_non_text(all, i as int),
            forall|k: int| 0 <= k < i ==> #[trigger] texts@[k]@ == text_of(all[k]),
        decreases fields.len() - i,
    {
        assert(all[i as int] == fields@[i as int]@);
        match &fields[i] {
            Field::Text(s) => {
                texts.push(s.clone());
            },
            _ => {
                assert(first_non_text(all, i as int) == Some(i as int));
                return Err(DecodeError::WrongType { position: i });
            },
        }
        i += 1;
    }
    assert(texts_view(texts@) =~= all.map_values(|f: FieldView| text_of(f)));
    Ok(texts)
}

impl UnitNewSignalView {
    /// The signal that a payload holds: node, unit, reason.
    pub open spec fn decode(fields: Seq<FieldView>) -> Result<UnitNewSignalView, DecodeError> {
        match texts_of(fields, SignalKind::UnitNew.spec_arity()) {
            Ok(t) => Ok(UnitNewSignalView { node: t[0], unit: t[1], reason: t[2] }),
            Err(e) => Err(e),
        }
    }

    /// The payload that holds the signal.
    pub open spec fn fields(self) -> Seq<FieldView> {
        seq![FieldView::Text(self.node), FieldView::Text(self.unit), FieldView::Text(self.reason)]
    }
}

impl UnitRemovedSignalView {
    /// The signal that a payload holds: node, unit, reason.
    pub open spec fn decode(fields: Seq<FieldView>) -> Result<UnitRemovedSignalView, DecodeError> {
        match texts_of(fields, SignalKind::UnitRemoved.spec_arity()) {
            Ok(t) => Ok(UnitRemovedSignalView { node: t[0], unit: t[1], reason: t[2] }),
            Err(e) => Err(e),
        }
    }

    /// The payload that holds the signal.
    pub open spec fn fields(self) -> Seq<FieldView> {
        seq![FieldView::Text(self.node), FieldView::Text(self.unit), FieldView::Text(self.reason)]
    }
}

impl UnitPropertiesChangedSignalView {
    /// The signal that a payload holds: node, unit, interface.
    pub open spec fn decode(fields: Seq<FieldView>) -> Result<
        UnitPropertiesChangedSignalView,
        DecodeError,
    > {
        match texts_of(fields, SignalKind::UnitPropertiesChanged.spec_arity()) {
            Ok(t) => Ok(UnitPropertiesChangedSignalView { node: t[0], unit: t[1], interface: t[2] }),
            Err(e) => Err(e),
        }
    }

    /// The payload that holds the signal.
    pub open spec fn fields(self) -> Seq<FieldView> {
        seq![
            FieldView::Text(self.node),
            FieldView::Text(self.unit),
            FieldView::Text(self.interface),
        ]
    }
}

impl UnitStateChangedSignalView {
    /// The signal that a payload holds: node, unit, active state, sub state,
    /// reason.
    pub open spec fn decode(fields: Seq<FieldView>) -> Result<UnitStateChangedSignalView, DecodeError> {
        match texts_of(fields, SignalKind::UnitStateChanged.spec_arity()) {
            Ok(t) => Ok(
                UnitStateChangedSignalView {
                    node: t[0],
                    unit: t[1],
                    active_state: t[2],
                    sub_state: t[3],
                    reason: t[4],
                },
            ),
            Err(e) => Err(e),
        }
    }

    /// The payload that holds the signal.
    pub open spec fn fields(self) -> Seq<FieldView> {
        seq![
            FieldView::Text(self.node),
            FieldView::Text(self.unit),
            FieldView::Text(self.active_state),
            FieldView::Text(self.sub_state),
            FieldView::Text(self.reason),
        ]
    }
}

impl UnitNewSignal {
    /// Reads the signal from a payload of exactly three texts: node, unit,
    /// reason.
    pub fn read(fields: &Vec<Field>) -> (signal: Result<UnitNewSignal, DecodeError>)
        ensures
            match signal {
                Ok(s) => UnitNewSignalView::decode(fields_view(fields@)) == Ok::<_, DecodeError>(s@),
                Err(e) => UnitNewSignalView::decode(fields_view(fields@)) == Err::<
                    UnitNewSignalView,
                    _,
                >(e),
            },
    {
        let texts = read_texts(fields, SignalKind::UnitNew.arity())?;
        Ok(
            UnitNewSignal {
                node: texts[0].clone(),
                unit: texts[1].clone(),
                reason: texts[2].clone(),
            },
        )
    }

    /// Appends the fields of the signal to a payload.
    pub fn append(&self, fields: &mut Vec<Field>)
        ensures
            fields_view(final(fields)@) == fields_view(old(fields)@) + self@.fields(),
    {
        fields.push(Field::Text(self.node.clone()));
        fields.push(Field::Text(self.unit.clone()));
        fields.push(Field::Text(self.reason.clone()));
        assert(fields_view(fields@) =~= fields_view(old(fields)@) + self@.fields());
    }
}

impl UnitRemovedSignal {
    /// Reads the signal from a payload of exactly three texts: node, unit,
    /// reason.
    pub fn read(fields: &Vec<Field>) -> (signal: Result<UnitRemovedSignal, DecodeError>)
        ensures
            match signal {
                Ok(s) => UnitRemovedSignalView::decode(fields_view(fields@)) == Ok::<_, DecodeError>(
                    s@,
                ),
                Err(e) => UnitRemovedSignalView::decode(fields_view(fields@)) == Err::<
                    UnitRemovedSignalView,
                    _,
                >(e),
            },
    {
        let texts = read_texts(fields, SignalKind::UnitRemoved.arity())?;
        Ok(
            UnitRemovedSignal {
                node: texts[0].clone(),
                unit: texts[1].clone(),
                reason: texts[2].clone(),
            },
        )
    }

    /// Appends the fields of the signal to a payload.
    pub fn append(&self, fields: &mut Vec<Field>)
        ensures
            fields_view(final(fields)@) == fields_view(old(fields)@) + self@.fields(),
    {
        fields.push(Field::Text(self.node.clone()));
        fields.push(Field::Text(self.unit.clone()));
        fields.push(Field::Text(self.reason.clone()));
        assert(fields_view(fields@) =~= fields_view(old(fields)@) + self@.fields());
    }
}

impl UnitPropertiesChangedSignal {
    /// Reads the signal from a payload of exactly three texts: node, unit,
    /// interface.
    pub fn read(fields: &Vec<Field>) -> (signal: Result<UnitPropertiesChangedSignal, DecodeError>)
        ensures
            match signal {
                Ok(s) => UnitPropertiesChangedSignalView::decode(fields_view(fields@)) == Ok::<
                    _,
                    DecodeError,
                >(s@),
                Err(e) => UnitPropertiesChangedSignalView::decode(fields_view(fields@)) == Err::<
                    UnitPropertiesChangedSignalView,
                    _,
                >(e),
            },
    {
        let texts = read_texts(fields, SignalKind::UnitPropertiesChanged.arity())?;
        Ok(
            UnitPropertiesChangedSignal {
                node: texts[0].clone(),
                unit: texts[1].clone(),
                interface: texts[2].clone(),
            },
        )
    }

    /// Appends the fields of the signal to a payload.
    pub fn append(&self, fields: &mut Vec<Field>)
        ensures
            fields_view(final(fields)@) == fields_view(old(fields)@) + self@.fields(),
    {
        fields.push(Field::Text(self.node.clone()));
        fields.push(Field::Text(self.unit.clone()));
        fields.push(Field::Text(self.interface.clone()));
        assert(fields_view(fields@) =~= fields_view(old(fields)@) + self@.fields());
    }
}

impl UnitStateChangedSignal {
    /// Reads the signal from a payload of exactly five texts: node, unit,
    /// active state, sub state, reason.
    pub fn read(fields: &Vec<Field>) -> (signal: Result<UnitStateChangedSignal, DecodeError>)
        ensures
            match signal {
                Ok(s) => UnitStateChangedSignalView::decode(fields_view(fields@)) == Ok::<
                    _,
                    DecodeError,
                >(s@),
                Err(e) => UnitStateChangedSignalView::decode(fields_view(fields@)) == Err::<
                    UnitStateChangedSignalView,
                    _,
                >(e),
            },
    {
        let texts = read_texts(fields, SignalKind::UnitStateChanged.arity())?;
        Ok(
            UnitStateChangedSignal {
                node: texts[0].clone(),
                unit: texts[1].clone(),
                active_state: texts[2].clone(),
                sub_state: texts[3].clone(),
                reason: texts[4].clone(),
            },
        )
    }

    /// Appends the fields of the signal to a payload.
    pub fn append(&self, fields: &mut Vec<Field>)
        ensures
            fields_view(final(fields)@) == fields_view(old(fields)@) + self@.fields(),
    {
        fields.push(Field::Text(self.node.clone()));
        fields.push(Field::Text(self.unit.clone()));
        fields.push(Field::Text(self.active_state.clone()));
        fields.push(Field::Text(self.sub_state.clone()));
        fields.push(Field::Text(self.reason.clone()));
        assert(fields_view(fields@) =~= fields_view(old(fields)@) + self@.fields());
    }
}

/// A payload of texts holds no field that is no text.
pub proof fn lemma_texts_only(fields: Seq<FieldView>, start: int)
    requires
        0 <= start,
        forall|i: int| 0 <= i < fields.len() ==> #[trigger] fields[i] is Text,
    ensures
        first_non_text(fields, start) is None,
    decreases fields.len() - start,
{
    if start < fields.len() {
        lemma_texts_only(fields, start + 1);
    }
}

/// Reading what `append` wrote gives the signal back.
pub proof fn lemma_unit_new_round_trip(signal: UnitNewSignalView)
    ensures
        UnitNewSignalView::decode(signal.fields()) == Ok::<_, DecodeError>(signal),
{
    lemma_texts_only(signal.fields(), 0);
}

/// Reading what `append` wrote gives the signal back.
pub proof fn lemma_unit_removed_round_trip(signal: UnitRemovedSignalView)
    ensures
        UnitRemovedSignalView::decode(signal.fields()) == Ok::<_, DecodeError>(signal),
{
    lemma_texts_only(signal.fields(), 0);
}

/// Reading what `append` wrote gives the signal back.
pub proof fn lemma_unit_properties_changed_round_trip(signal: UnitPropertiesChangedSignalView)
    ensures
        UnitPropertiesChangedSignalView::decode(signal.fields()) == Ok::<_, DecodeError>(signal),
{
    lemma_texts_only(signal.fields(), 0);
}

/// Reading what `append` wrote gives the signal back.
pub proof fn lemma_unit_state_changed_round_trip(signal: UnitStateChangedSignalView)
    ensures
        UnitStateChangedSignalView::decode(signal.fields()) == Ok::<_, DecodeError>(signal),
{
    lemma_texts_only(signal.fields(), 0);
}

/// The property that a dictionary entry holds.
pub open spec fn property_of(item: ItemView) -> PropertyView {
    match item {
        ItemView::Entry(p) => p,
        _ => PropertyView { name: Seq::empty(), value: PropertyValueView::Other },
    }
}

/// Whether a field is a dictionary of properties: a list of entries only.
/// The empty list is one.
pub open spec fn is_dictionary(field: FieldView) -> bool {
    match field {
        FieldView::List(items) => forall|i: int| 0 <= i < items.len() ==> #[trigger] items[i] is Entry,
        _ => false,
    }
}

/// Whether a field is a list of texts only. The empty list is one.
pub open spec fn is_text_list(field: FieldView) -> bool {
    match field {
        FieldView::List(items) => forall|i: int| 0 <= i < items.len() ==> #[trigger] items[i] is Text,
        _ => false,
    }
}

/// The properties of a dictionary field, in the order of its entries.
pub open spec fn entries_of(field: FieldView) -> Seq<PropertyView> {
    match field {
        FieldView::List(items) => items.map_values(|i: ItemView| property_of(i)),
        _ => Seq::empty(),
    }
}

/// The value under a name in a sequence of properties. Of several entries
/// with the name the last one counts.
pub open spec fn lookup(properties: Seq<PropertyView>, name: Seq<char>) -> Option<PropertyValueView>
    decreases properties.len(),
{
    if properties.len() == 0 {
        None
    } else if properties.last().name == name {
        Some(properties.last().value)
    } else {
        lookup(properties.drop_last(), name)
    }
}

/// What a properties-changed notification announces: the interface whose
/// properties changed, and the new values by name.
#[derive(Debug, PartialEq, Eq)]
pub struct PropertiesChange {
    pub interface: String,
    pub changed: Vec<Property>,
}

pub struct PropertiesChangeView {
    pub interface: Seq<char>,
    pub changed: Seq<PropertyView>,
}

impl View for PropertiesChange {
    type V = PropertiesChangeView;

    open spec fn view(&self) -> PropertiesChangeView {
        PropertiesChangeView { interface: self.interface@, changed: properties_view(self.changed@) }
    }
}

impl PropertiesChangeView {
    /// What a payload announces: the interface as a text, the changed
    /// properties as a dictionary, the invalidated names as a list of texts.
    pub open spec fn decode(fields: Seq<FieldView>) -> Result<PropertiesChangeView, DecodeError> {
        if fields.len() != 3 {
            Err(DecodeError::WrongArity { expected: 3, found: fields.len() as usize })
        } else if !(fields[0] is Text) {
            Err(DecodeError::WrongType { position: 0 })
        } else if !is_dictionary(fields[1]) {
            Err(DecodeError::WrongType { position: 1 })
        } else if !is_text_list(fields[2]) {
            Err(DecodeError::WrongType { position: 2 })
        } else {
            Ok(PropertiesChangeView { interface: text_of(fields[0]), changed: entries_of(fields[1]) })
        }
    }

    /// The new value of a property, if the notification names it.
    pub open spec fn get(self, name: Seq<char>) -> Option<PropertyValueView> {
        lookup(self.changed, name)
    }
}

/// Reads the entries of a dictionary field; nothing where the field is no
/// dictionary.
fn read_entries(field: &Field) -> (entries: Option<Vec<Property>>)
    ensures
        match entries {
            Some(e) => is_dictionary(field@) && properties_view(e@) == entries_of(field@),
            None => !is_dictionary(field@),
        },
{
    match field {
        Field::List(items) => {
            let ghost all = items_view(items@);
            let mut entries: Vec<Property> = Vec::new();
            let mut i: usize = 0;
            while i < items.len()
                invariant
                    all == items_view(items@),
                    field@ == FieldView::List(all),
                    i <= items.len(),
                    entries@.len() == i,
                    forall|k: int| 0 <= k < i ==> #[trigger] all[k] is Entry,
                    forall|k: int| 0 <= k < i ==> #[trigger] entries@[k]@ == property_of(all[k]),
                decreases items.len() - i,
            {
                assert(all[i as int] == items@[i as int]@);
                match &items[i] {
                    Item::Entry(p) => {
                        entries.push(p.clone());
                    },
                    _ => {
                        return None;
                    },
                }
                i += 1;
            }
            assert(properties_view(entries@) =~= entries_of(field@));
            Some(entries)
        },
        _ => None,
    }
}

/// Whether a field is a list of texts only.
fn check_text_list(field: &Field) -> (ok: bool)
    ensures
        ok == is_text_list(field@),
{
    match field {
        Field::List(items) => {
            let ghost all = items_view(items@);
            let mut i: usize = 0;
            while i < items.len()
                invariant
                    all == items_view(items@),
                    field@ == FieldView::List(all),
                    i <= items.len(),
                    forall|k: int| 0 <= k < i ==> #[trigger] all[k] is Text,
                decreases items.len() - i,
            {
                assert(all[i as int] == items@[i as int]@);
                match &items[i] {
                    Item::Text(_) => {},
                    _ => {
                        return false;
                    },
                }
                i += 1;
            }
            true
        },
        _ => false,
    }
}

impl PropertiesChange {
    /// Reads the announcement from a payload of exactly three fields.
    pub fn read(fields: &Vec<Field>) -> (change: Result<PropertiesChange, DecodeError>)
        ensures
            match change {
                Ok(c) => PropertiesChangeView::decode(fields_view(fields@)) == Ok::<_, DecodeError>(
                    c@,
                ),
                Err(e) => PropertiesChangeView::decode(fields_view(fields@)) == Err::<
                    PropertiesChangeView,
                    _,
                >(e),
            },
    {
        let ghost all = fields_view(fields@);
        if fields.len() != 3 {
            return Err(DecodeError::WrongArity { expected: 3, found: fields.len() });
        }
        assert(all[0] == fields@[0]@ && all[1] == fields@[1]@ && all[2] == fields@[2]@);
        let interface = match &fields[0] {
            Field::Text(s) => s.clone(),
            _ => {
                return Err(DecodeError::WrongType { position: 0 });
            },
        };
        let changed = match read_entries(&fields[1]) {
            Some(entries) => entries,
            None => {
                return Err(DecodeError::WrongType { position: 1 });
            },
        };
        if !check_text_list(&fields[2]) {
            return Err(DecodeError::WrongType { position: 2 });
        }
        Ok(PropertiesChange { interface, changed })
    }

    /// The new value of a property, if the notification names it. Of several
    /// entries with the name the last one counts.
    pub fn get(&self, name: &str) -> (value: Option<&PropertyValue>)
        ensures
            match value {
                Some(v) => self@.get(name@) == Some(v@),
                None => self@.get(name@) is None,
            },
    {
        let ghost all = properties_view(self.changed@);
        let mut i: usize = self.changed.len();
        assert(all.take(i as int) == all);
        while i > 0
            invariant
                all == properties_view(self.changed@),
                i <= self.changed.len(),
                lookup(all, name@) == lookup(all.take(i as int), name@),
            decreases i,
        {
            i -= 1;
            assert(all.take(i + 1).last() == self.changed@[i as int]@);
            assert(all.take(i + 1).drop_last() == all.take(i as int));
            if text_eq(&self.changed[i].name, name) {
                return Some(&self.changed[i].value);
            }
        }
        None
    }
}

/// What a notification turned out to be.
#[derive(Debug, PartialEq, Eq)]
pub enum Decoded {
    /// One of the four unit signals of a monitor session.
    Unit(Event),
    /// Changed properties of the object that sent the notification.
    Properties(PropertiesChange),
    /// A notification under a name that the table does not hold.
    Unknown,
    /// A notification under a known name whose payload could not be read.
    Malformed(DecodeError),
}

pub enum DecodedView {
    Unit(EventView),
    Properties(PropertiesChangeView),
    Unknown,
    Malformed(DecodeError),
}

impl View for Decoded {
    type V = DecodedView;

    open spec fn view(&self) -> DecodedView {
        match self {
            Decoded::Unit(e) => DecodedView::Unit(e@),
            Decoded::Properties(c) => DecodedView::Properties(c@),
            Decoded::Unknown => DecodedView::Unknown,
            Decoded::Malformed(e) => DecodedView::Malformed(*e),
        }
    }
}

/// The unit signal of the given kind that a payload holds.
pub open spec fn unit_signal_of(kind: SignalKind, fields: Seq<FieldView>) -> DecodedView {
    match kind {
        SignalKind::UnitNew => match UnitNewSignalView::decode(fields) {
            Ok(s) => DecodedView::Unit(EventView::UnitNew(s)),
            Err(e) => DecodedView::Malformed(e),
        },
        SignalKind::UnitRemoved => match UnitRemovedSignalView::decode(fields) {
            Ok(s) => DecodedView::Unit(EventView::UnitRemoved(s)),
            Err(e) => DecodedView::Malformed(e),
        },
        SignalKind::UnitPropertiesChanged => match UnitPropertiesChangedSignalView::decode(fields) {
            Ok(s) => DecodedView::Unit(EventView::UnitPropertiesChanged(s)),
            Err(e) => DecodedView::Malformed(e),
        },
        SignalKind::UnitStateChanged => match UnitStateChangedSignalView::decode(fields) {
            Ok(s) => DecodedView::Unit(EventView::UnitStateChanged(s)),
            Err(e) => DecodedView::Malformed(e),
        },
    }
}

/// What a notification is: a unit signal where it comes under the monitor
/// interface and one of the four member names, changed properties where it
/// is the standard properties-changed signal, and unknown under every other
/// name. Under a known name a payload of another shape is malformed.
pub open spec fn decode_spec(n: NotificationView) -> DecodedView {
    if n.interface == MONITOR_INTERFACE@ {
        match SignalKind::spec_from_name(n.member) {
            Some(kind) => unit_signal_of(kind, n.fields),
            None => DecodedView::Unknown,
        }
    } else if n.interface == PROPERTIES_INTERFACE@ && n.member == PROPERTIES_CHANGED@ {
        match PropertiesChangeView::decode(n.fields) {
            Ok(c) => DecodedView::Properties(c),
            Err(e) => DecodedView::Malformed(e),
        }
    } else {
        DecodedView::Unknown
    }
}

/// Reads the unit signal of the given kind from a payload.
pub fn decode_unit_signal(kind: SignalKind, fields: &Vec<Field>) -> (decoded: Decoded)
    ensures
        decoded@ == unit_signal_of(kind, fields_view(fields@)),
{
    match kind {
        SignalKind::UnitNew => match UnitNewSignal::read(fields) {
            Ok(s) => Decoded::Unit(Event::UnitNew(s)),
            Err(e) => Decoded::Malformed(e),
        },
        SignalKind::UnitRemoved => match UnitRemovedSignal::read(fields) {
            Ok(s) => Decoded::Unit(Event::UnitRemoved(s)),
            Err(e) => Decoded::Malformed(e),
        },
        SignalKind::UnitPropertiesChanged => match UnitPropertiesChangedSignal::read(fields) {
            Ok(s) => Decoded::Unit(Event::UnitPropertiesChanged(s)),
            Err(e) => Decoded::Malformed(e),
        },
        SignalKind::UnitStateChanged => match UnitStateChangedSignal::read(fields) {
            Ok(s) => Decoded::Unit(Event::UnitStateChanged(s)),
            Err(e) => Decoded::Malformed(e),
        },
    }
}

/// Decodes a notification by its interface, its member and its payload.
pub fn decode(n: &Notification) -> (decoded: Decoded)
    ensures
        decoded@ == decode_spec(n@),
{
    if text_eq(&n.interface, MONITOR_INTERFACE) {
        match SignalKind::from_name(&n.member) {
            Some(kind) => decode_unit_signal(kind, &n.fields),
            None => Decoded::Unknown,
        }
    } else if text_eq(&n.interface, PROPERTIES_INTERFACE) && text_eq(&n.member, PROPERTIES_CHANGED) {
        match PropertiesChange::read(&n.fields) {
            Ok(c) => Decoded::Properties(c),
            Err(e) => Decoded::Malformed(e),
        }
    } else {
        Decoded::Unknown
    }
}

} // verus!
