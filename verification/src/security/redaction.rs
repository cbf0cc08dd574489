//! What may be written down or sent: structured records whose fields carry
//! their own sensitivity, and whose personal and secret values are never
//! rendered at all.

use vstd::prelude::*;

use crate::text::{decimal, push_char, push_decimal, push_str};

verus! {

/// What a withheld personal value renders as.
pub const WITHHELD: &'static str = "«personal»";

/// What a withheld secret value renders as.
pub const REDACTED: &'static str = "«redacted»";

/// How careful a value must be handled, from least to most.
#[derive(Debug, Clone, Copy, PartialEq, Eq, PartialOrd, Ord, Hash, Structural)]
#[non_exhaustive]
pub enum Sensitivity {
    /// Anyone may see it.
    Public,
    /// About the user; shared only with their agreement.
    Personal,
    /// A credential; never shared, whatever was agreed.
    Secret,
}

/// The order of sensitivities, least careful first.
pub open spec fn sensitivity_rank(sensitivity: Sensitivity) -> int {
    match sensitivity {
        Sensitivity::Public => 0,
        Sensitivity::Personal => 1,
        Sensitivity::Secret => 2,
    }
}

/// The stable key of each sensitivity.
pub open spec fn sensitivity_key(sensitivity: Sensitivity) -> Seq<char> {
    match sensitivity {
        Sensitivity::Public => "sensitivity.public"@,
        Sensitivity::Personal => "sensitivity.personal"@,
        Sensitivity::Secret => "sensitivity.secret"@,
    }
}

impl Sensitivity {
    /// Every sensitivity, least careful first.
    pub fn all() -> (all: Vec<Sensitivity>)
        ensures
            all@ == seq![Sensitivity::Public, Sensitivity::Personal, Sensitivity::Secret],
    {
        let all = vec![Sensitivity::Public, Sensitivity::Personal, Sensitivity::Secret];
        assert(all@ =~= seq![Sensitivity::Public, Sensitivity::Personal, Sensitivity::Secret]);
        all
    }

    /// Whether the user's agreement can make this shareable: never for a
    /// secret, which is not theirs to agree to share.
    pub fn may_be_included_with_consent(self) -> (included: bool)
        ensures
            included == !(self is Secret),
    {
        matches!(self, Sensitivity::Public | Sensitivity::Personal)
    }

    /// Whether anyone may see it.
    pub fn is_public(self) -> (public: bool)
        ensures
            public == (self is Public),
    {
        matches!(self, Sensitivity::Public)
    }

    /// A stable identifier, for storage and localisation.
    pub fn key(self) -> (key: &'static str)
        ensures
            key@ == sensitivity_key(self),
    {
        match self {
            Sensitivity::Public => "sensitivity.public",
            Sensitivity::Personal => "sensitivity.personal",
            Sensitivity::Secret => "sensitivity.secret",
        }
    }

    fn rank(self) -> (rank: u8)
        ensures
            rank == sensitivity_rank(self),
    {
        match self {
            Sensitivity::Public => 0,
            Sensitivity::Personal => 1,
            Sensitivity::Secret => 2,
        }
    }
}

/// What a field holds: a public value, or the fact that one was withheld.
#[derive(Debug, Clone, Copy, PartialEq, Eq)]
pub enum FieldValue {
    /// A stable key, such as a reason code.
    Key(&'static str),
    /// A number.
    Number(i64),
    /// An opaque identifier.
    Identifier(u64),
    /// A yes or no.
    Flag(bool),
    /// A personal value, not recorded.
    WithheldPersonal,
    /// A secret value, not recorded.
    WithheldSecret,
}

/// One named value in a record.
#[derive(Debug, Clone, Copy, PartialEq, Eq)]
pub struct Field {
    name: &'static str,
    value: FieldValue,
}

/// The sensitivity a field's value implies.
pub open spec fn value_sensitivity(value: FieldValue) -> Sensitivity {
    match value {
        FieldValue::WithheldPersonal => Sensitivity::Personal,
        FieldValue::WithheldSecret => Sensitivity::Secret,
        _ => Sensitivity::Public,
    }
}

/// How a value renders: public values as themselves, withheld ones as a
/// marker.
pub open spec fn value_text(value: FieldValue) -> Seq<char> {
    match value {
        FieldValue::Key(key) => key@,
        FieldValue::Number(number) => decimal(number as int),
        FieldValue::Identifier(identifier) => decimal(identifier as int),
        FieldValue::Flag(flag) => if flag {
            "true"@
        } else {
            "false"@
        },
        FieldValue::WithheldPersonal => WITHHELD@,
        FieldValue::WithheldSecret => REDACTED@,
    }
}

impl Field {
    /// The field's name.
    pub closed spec fn spec_name(&self) -> &'static str {
        self.name
    }

    /// The field's value.
    pub closed spec fn spec_value(&self) -> FieldValue {
        self.value
    }

    /// How the field renders: `name=value`.
    pub open spec fn spec_text(&self) -> Seq<char> {
        self.spec_name()@ + "="@ + value_text(self.spec_value())
    }

    /// A public stable key.
    pub fn key(name: &'static str, value: &'static str) -> (field: Field)
        ensures
            field.spec_name() == name,
            field.spec_value() == FieldValue::Key(value),
    {
        Field { name, value: FieldValue::Key(value) }
    }

    /// A public number.
    pub fn number(name: &'static str, value: i64) -> (field: Field)
        ensures
            field.spec_name() == name,
            field.spec_value() == FieldValue::Number(value),
    {
        Field { name, value: FieldValue::Number(value) }
    }

    /// A public opaque identifier.
    pub fn identifier(name: &'static str, value: u64) -> (field: Field)
        ensures
            field.spec_name() == name,
            field.spec_value() == FieldValue::Identifier(value),
    {
        Field { name, value: FieldValue::Identifier(value) }
    }

    /// A public flag.
    pub fn flag(name: &'static str, value: bool) -> (field: Field)
        ensures
            field.spec_name() == name,
            field.spec_value() == FieldValue::Flag(value),
    {
        Field { name, value: FieldValue::Flag(value) }
    }

    /// A personal value, withheld: only its name is kept.
    pub fn personal(name: &'static str) -> (field: Field)
        ensures
            field.spec_name() == name,
            field.spec_value() == FieldValue::WithheldPersonal,
    {
        Field { name, value: FieldValue::WithheldPersonal }
    }

    /// A secret value, withheld: only its name is kept.
    pub fn secret(name: &'static str) -> (field: Field)
        ensures
            field.spec_name() == name,
            field.spec_value() == FieldValue::WithheldSecret,
    {
        Field { name, value: FieldValue::WithheldSecret }
    }

    /// The field's name.
    pub fn name(&self) -> (name: &'static str)
        ensures
            name == self.spec_name(),
    {
        self.name
    }

    /// The sensitivity the field's constructor implies.
    pub fn sensitivity(&self) -> (sensitivity: Sensitivity)
        ensures
            sensitivity == value_sensitivity(self.spec_value()),
    {
        match self.value {
            FieldValue::WithheldPersonal => Sensitivity::Personal,
            FieldValue::WithheldSecret => Sensitivity::Secret,
            _ => Sensitivity::Public,
        }
    }

    /// Appends `name=value` to a text.
    fn push_to(&self, text: &mut String)
        ensures
            final(text)@ == old(text)@ + self.spec_text(),
    {
        push_str(text, self.name);
        push_char(text, '=');
        match self.value {
            FieldValue::Key(key) => push_str(text, key),
            FieldValue::Number(number) => push_decimal(text, number as i128),
            FieldValue::Identifier(identifier) => push_decimal(text, identifier as i128),
            FieldValue::Flag(flag) => push_str(text, if flag { "true" } else { "false" }),
            FieldValue::WithheldPersonal => push_str(text, WITHHELD),
            FieldValue::WithheldSecret => push_str(text, REDACTED),
        }
        proof {
            reveal_strlit("=");
        }
        assert(text@ =~= old(text)@ + self.spec_text());
    }

    /// The field as it renders: `name=value`, a withheld value as its marker.
    pub fn to_text(&self) -> (text: String)
        ensures
            text@ == self.spec_text(),
    {
        let mut text = String::new();
        self.push_to(&mut text);
        assert(text@ =~= self.spec_text());
        text
    }
}

/// The most careful sensitivity among some fields; public when there are none.
pub open spec fn fields_sensitivity(fields: Seq<Field>) -> Sensitivity
    decreases fields.len(),
{
    if fields.len() == 0 {
        Sensitivity::Public
    } else {
        let rest = fields_sensitivity(fields.drop_last());
        let last = value_sensitivity(fields.last().spec_value());
        if sensitivity_rank(last) > sensitivity_rank(rest) {
            last
        } else {
            rest
        }
    }
}

/// Fields rendered one after another, each preceded by a space.
pub open spec fn fields_text(fields: Seq<Field>) -> Seq<char>
    decreases fields.len(),
{
    if fields.len() == 0 {
        Seq::empty()
    } else {
        fields_text(fields.drop_last()) + " "@ + fields.last().spec_text()
    }
}

/// A structured diagnostic record: a stable event key and up to
/// `Record::MAX_FIELDS` fields. It stops growing rather than growing without limit.
#[derive(Debug, Clone, PartialEq, Eq)]
pub struct Record {
    event: &'static str,
    fields: Vec<Field>,
}

impl Record {
    /// The most fields a record holds.
    pub const MAX_FIELDS: usize = 32;

    /// The event key.
    pub closed spec fn spec_event(&self) -> &'static str {
        self.event
    }

    /// The fields, in the order they were added.
    pub closed spec fn spec_fields(&self) -> Seq<Field> {
        self.fields@
    }

    /// How the record renders: the event key, then each field after a space.
    pub open spec fn spec_text(&self) -> Seq<char> {
        self.spec_event()@ + fields_text(self.spec_fields())
    }

    /// A record of an event, with no fields yet.
    pub fn new(event: &'static str) -> (record: Record)
        ensures
            record.spec_event() == event,
            record.spec_fields() == Seq::<Field>::empty(),
    {
        Record { event, fields: Vec::new() }
    }

    /// Adds a field, unless the record is already full.
    pub fn with(self, field: Field) -> (record: Record)
        ensures
            record.spec_event() == self.spec_event(),
            self.spec_fields().len() < Record::MAX_FIELDS ==> record.spec_fields() == self.spec_fields().push(field),
            self.spec_fields().len() >= Record::MAX_FIELDS ==> record.spec_fields() == self.spec_fields(),
    {
        let mut record = self;
        if record.fields.len() < Record::MAX_FIELDS {
            record.fields.push(field);
        }
        record
    }

    /// The event key.
    pub fn event(&self) -> (event: &'static str)
        ensures
            event == self.spec_event(),
    {
        self.event
    }

    /// The fields, in the order they were added.
    pub fn fields(&self) -> (fields: &[Field])
        ensures
            fields@ == self.spec_fields(),
    {
        self.fields.as_slice()
    }

    /// Whether the record holds as many fields as it may.
    pub fn is_full(&self) -> (full: bool)
        ensures
            full == (self.spec_fields().len() >= Record::MAX_FIELDS),
    {
        self.fields.len() >= Record::MAX_FIELDS
    }

    /// The most careful sensitivity among the fields: a record is as
    /// sensitive as its most sensitive field, and public when it has none.
    pub fn sensitivity(&self) -> (sensitivity: Sensitivity)
        ensures
            sensitivity == fields_sensitivity(self.spec_fields()),
    {
        let mut most = Sensitivity::Public;
        let mut index: usize = 0;
        while index < self.fields.len()
            invariant
                index <= self.fields@.len(),
                most == fields_sensitivity(self.fields@.take(index as int)),
            decreases self.fields@.len() - index,
        {
            let next = self.fields[index].sensitivity();
            proof {
                assert(self.fields@.take(index as int + 1).drop_last() =~= self.fields@.take(index as int));
            }
            if next.rank() > most.rank() {
                most = next;
            }
            index += 1;
        }
        assert(self.fields@.take(self.fields@.len() as int) =~= self.fields@);
        most
    }

    /// The record as it renders: the event key, then ` name=value` for each
    /// field, withheld values as their markers.
    pub fn to_text(&self) -> (text: String)
        ensures
            text@ == self.spec_text(),
    {
        let mut text = String::new();
        push_str(&mut text, self.event);
        let mut index: usize = 0;
        while index < self.fields.len()
            invariant
                index <= self.fields@.len(),
                text@ == self.event@ + fields_text(self.fields@.take(index as int)),
            decreases self.fields@.len() - index,
        {
            push_char(&mut text, ' ');
            self.fields[index].push_to(&mut text);
            proof {
                reveal_strlit(" ");
                let taken = self.fields@.take(index as int + 1);
                assert(taken.drop_last() =~= self.fields@.take(index as int));
                assert(taken.last() == self.fields@[index as int]);
                assert(text@ =~= self.event@ + fields_text(taken));
            }
            index += 1;
        }
        assert(self.fields@.take(self.fields@.len() as int) =~= self.fields@);
        text
    }
}

/// Adding a field never makes a record less sensitive, and a record that
/// holds a secret field is secret.
pub proof fn lemma_sensitivity_only_grows(fields: Seq<Field>, field: Field)
    ensures
        sensitivity_rank(fields_sensitivity(fields)) <= sensitivity_rank(fields_sensitivity(fields.push(field))),
        sensitivity_rank(value_sensitivity(field.spec_value())) <= sensitivity_rank(
            fields_sensitivity(fields.push(field)),
        ),
{
    assert(fields.push(field).drop_last() =~= fields);
}

} // verus!
