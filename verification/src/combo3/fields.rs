//! The values of span and event fields.

use vstd::prelude::*;
use vstd::string::*;

use crate::charge::{charge_is_finite, is_finite, Charge, ChargeModel};
use crate::text::{decimal, decimal_text};
use crate::text_map::TextMap;

verus! {

/// The value of a field.
#[derive(Debug)]
pub enum FieldValue {
    /// No value.
    Null,
    /// A flag.
    Bool(bool),
    /// A number that is not negative.
    U64(u64),
    /// A whole number.
    I64(i64),
    /// A finite double.
    Float {
        /// Its IEEE 754 bit pattern.
        bits: u64,
        /// The number as JSON has it.
        text: String,
    },
    /// Text.
    Text(String),
}

/// What a [`FieldValue`] holds.
#[verifier::ext_equal]
pub enum FieldModel {
    Null,
    Bool(bool),
    U64(u64),
    I64(i64),
    Float { bits: u64, text: Seq<char> },
    Text(Seq<char>),
}

impl View for FieldValue {
    type V = FieldModel;

    open spec fn view(&self) -> FieldModel {
        match self {
            FieldValue::Null => FieldModel::Null,
            FieldValue::Bool(b) => FieldModel::Bool(*b),
            FieldValue::U64(n) => FieldModel::U64(*n),
            FieldValue::I64(n) => FieldModel::I64(*n),
            FieldValue::Float { bits, text } => FieldModel::Float { bits: *bits, text: text@ },
            FieldValue::Text(s) => FieldModel::Text(s@),
        }
    }
}

impl Clone for FieldValue {
    fn clone(&self) -> (v: Self)
        ensures
            v@ == self@,
    {
        match self {
            FieldValue::Null => FieldValue::Null,
            FieldValue::Bool(b) => FieldValue::Bool(*b),
            FieldValue::U64(n) => FieldValue::U64(*n),
            FieldValue::I64(n) => FieldValue::I64(*n),
            FieldValue::Float { bits, text } => FieldValue::Float {
                bits: *bits,
                text: text.clone(),
            },
            FieldValue::Text(s) => FieldValue::Text(s.clone()),
        }
    }
}

/// A number that a field holds.
#[derive(Clone, Copy, Debug, PartialEq, Eq, Structural)]
pub enum FieldNumber {
    /// A number that is not negative.
    U64(u64),
    /// A whole number.
    I64(i64),
    /// The bit pattern of a double.
    Float(u64),
}

/// Fields by their names.
pub type Fields = TextMap<FieldValue>;

/// What fields hold.
pub type FieldsModel = Map<Seq<char>, FieldModel>;

/// What fields hold.
pub open spec fn fields_view(fields: Map<Seq<char>, FieldValue>) -> FieldsModel {
    fields.map_values(|v: FieldValue| v@)
}

impl FieldModel {
    /// The value as text: text as it is, and anything else as JSON has it.
    pub open spec fn as_text(self) -> Seq<char> {
        match self {
            FieldModel::Null => "null"@,
            FieldModel::Bool(b) => if b {
                "true"@
            } else {
                "false"@
            },
            FieldModel::U64(n) => decimal(n as nat),
            FieldModel::I64(n) => if n < 0 {
                "-"@ + decimal((-n) as nat)
            } else {
                decimal(n as nat)
            },
            FieldModel::Float { bits, text } => text,
            FieldModel::Text(s) => s,
        }
    }

    /// The value as a number of 64 bits without sign.
    pub open spec fn as_u64(self) -> Option<u64> {
        match self {
            FieldModel::U64(n) => Some(n),
            FieldModel::I64(n) => if n < 0 {
                None
            } else {
                Some(n as u64)
            },
            _ => None,
        }
    }

    /// The value as a number.
    pub open spec fn as_number(self) -> Option<FieldNumber> {
        match self {
            FieldModel::U64(n) => Some(FieldNumber::U64(n)),
            FieldModel::I64(n) => Some(FieldNumber::I64(n)),
            FieldModel::Float { bits, text } => Some(FieldNumber::Float(bits)),
            _ => None,
        }
    }
}

impl FieldValue {
    /// The value as text: text as it is, and anything else as JSON has it.
    pub fn as_text(&self) -> (s: String)
        ensures
            s@ == self@.as_text(),
    {
        match self {
            FieldValue::Null => "null".to_owned(),
            FieldValue::Bool(b) => if *b {
                "true".to_owned()
            } else {
                "false".to_owned()
            },
            FieldValue::U64(n) => decimal_text(*n),
            FieldValue::I64(n) => if *n < 0 {
                let mut s = "-".to_owned();
                let size: u64 = (-(*n as i128)) as u64;
                s.append(decimal_text(size).as_str());
                s
            } else {
                decimal_text(*n as u64)
            },
            FieldValue::Float { bits, text } => text.clone(),
            FieldValue::Text(s) => s.clone(),
        }
    }

    /// The value as a number of 64 bits without sign.
    pub fn as_u64(&self) -> (n: Option<u64>)
        ensures
            n == self@.as_u64(),
    {
        match self {
            FieldValue::U64(n) => Some(*n),
            FieldValue::I64(n) => if *n < 0 {
                None
            } else {
                Some(*n as u64)
            },
            _ => None,
        }
    }

    /// The value as a number.
    pub fn as_number(&self) -> (n: Option<FieldNumber>)
        ensures
            n == self@.as_number(),
    {
        match self {
            FieldValue::U64(n) => Some(FieldNumber::U64(*n)),
            FieldValue::I64(n) => Some(FieldNumber::I64(*n)),
            FieldValue::Float { bits, text } => Some(FieldNumber::Float(*bits)),
            _ => None,
        }
    }
}

/// A double as a field value: JSON has no number for what is not finite.
pub open spec fn double_value(bits: u64, text: Seq<char>) -> FieldModel {
    if is_finite(bits) {
        FieldModel::Float { bits, text }
    } else {
        FieldModel::Null
    }
}

/// A double as a field value: JSON has no number for what is not finite.
pub fn double_field(bits: u64, text: String) -> (v: FieldValue)
    ensures
        v@ == double_value(bits, text@),
{
    if charge_is_finite(bits) {
        FieldValue::Float { bits, text }
    } else {
        FieldValue::Null
    }
}

/// A charge as a field value: zero where there is none.
pub open spec fn charge_value(c: Option<ChargeModel>) -> FieldModel {
    match c {
        Some(v) => double_value(v.bits, v.json),
        None => FieldModel::Float { bits: 0, text: "0.0"@ },
    }
}

/// A charge as a field value: zero where there is none.
pub fn charge_field(c: Option<&Charge>) -> (v: FieldValue)
    ensures
        v@ == charge_value(crate::scenarios::opt_charge_ref(c)),
{
    match c {
        Some(v) => double_field(v.bits, v.json.clone()),
        None => FieldValue::Float { bits: 0, text: "0.0".to_owned() },
    }
}

/// The field `key` as text.
pub open spec fn text_in(fields: FieldsModel, key: Seq<char>) -> Option<Seq<char>> {
    if fields.contains_key(key) {
        Some(fields[key].as_text())
    } else {
        None
    }
}

/// The field `key` as a number of 64 bits; zero where it is none.
pub open spec fn u64_in(fields: FieldsModel, key: Seq<char>) -> u64 {
    if fields.contains_key(key) {
        match fields[key].as_u64() {
            Some(n) => n,
            None => 0,
        }
    } else {
        0
    }
}

/// The field `key` as a number.
pub open spec fn number_in(fields: FieldsModel, key: Seq<char>) -> Option<FieldNumber> {
    if fields.contains_key(key) {
        fields[key].as_number()
    } else {
        None
    }
}

/// The field `key` as text.
pub fn field_str(fields: &Fields, key: &str) -> (s: Option<String>)
    ensures
        crate::scenarios::opt_text(s) == text_in(fields_view(fields@), key@),
{
    match fields.get(key) {
        Some(v) => Some(v.as_text()),
        None => None,
    }
}

/// The field `key` as a number of 64 bits; zero where it is none.
pub fn field_u64(fields: &Fields, key: &str) -> (n: u64)
    ensures
        n == u64_in(fields_view(fields@), key@),
{
    match fields.get(key) {
        Some(v) => match v.as_u64() {
            Some(n) => n,
            None => 0,
        },
        None => 0,
    }
}

/// The field `key` as a number.
pub fn field_number(fields: &Fields, key: &str) -> (n: Option<FieldNumber>)
    ensures
        n == number_in(fields_view(fields@), key@),
{
    match fields.get(key) {
        Some(v) => v.as_number(),
        None => None,
    }
}

/// Copies fields.
pub fn copy_fields(fields: &Fields) -> (copy: Fields)
    ensures
        fields_view(copy@) == fields_view(fields@),
{
    let copy = fields.clone();
    proof {
        assert(fields_view(copy@) =~= fields_view(fields@));
    }
    copy
}

/// Puts a value under a name.
pub fn put(fields: &mut Fields, key: &str, value: FieldValue)
    ensures
        fields_view(final(fields)@) == fields_view(old(fields)@).insert(key@, value@),
{
    let ghost before = fields@;
    fields.insert(key.to_owned(), value);
    proof {
        assert(fields_view(fields@) =~= fields_view(before).insert(key@, value@));
    }
}

} // verus!
