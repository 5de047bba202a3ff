//! Decoding a value into a declared shape.
//!
//! A record is read from an association list: a proper list whose items are
//! pairs of a symbol and a value. The entries may come in any order. Each
//! key must name a field of the record, no key may come twice, and every
//! field must be there. The decoded record holds its fields in the order of
//! their declaration.
//!
//! An entry whose key names no field would have to be skipped, which is not
//! supported: it fails as a skipped value does. A key that comes twice and a
//! field that is missing fail with a message that names the field.

use vstd::prelude::*;
use crate::error::{Error, ErrorView};
use crate::heap::{car_of, cdr_of, rank, Context, Store};
use crate::render::rendering;
use crate::probes::str_eq;
use crate::sexp::SExp;
use crate::tree::{lemma_tree_unfold, tree, Tree};

verus! {

/// The shape that a value is decoded into.
pub enum Schema {
    Bool,
    I8,
    I16,
    I32,
    I64,
    U8,
    U16,
    U32,
    U64,
    /// A single-precision number. The decoded value holds the bits of the
    /// double that was found, for the caller to narrow.
    F32,
    F64,
    Char,
    String,
    /// The name of a symbol.
    Identifier,
    /// A record with named fields.
    Struct(Vec<Field>),
    /// Whatever the value holds: not supported.
    Any,
    /// A value to skip: not supported.
    IgnoredAny,
    /// A sequence: not supported.
    Sequence,
    /// An optional value: not supported.
    Optional,
    /// One of several variants: not supported.
    Enum,
    /// A buffer of bytes: not supported.
    Bytes,
}

/// A field of a record shape.
pub struct Field {
    pub name: std::string::String,
    pub schema: Schema,
}

/// A decoded value.
#[derive(Debug, PartialEq)]
pub enum Decoded {
    Bool(bool),
    I8(i8),
    I16(i16),
    I32(i32),
    I64(i64),
    U8(u8),
    U16(u16),
    U32(u32),
    U64(u64),
    /// The IEEE-754 bits of the double that was found.
    F32(u64),
    /// The IEEE-754 bits of the double that was found.
    F64(u64),
    Char(char),
    String(std::string::String),
    Identifier(std::string::String),
    Struct(Vec<DecodedField>),
}

/// A field of a decoded record.
#[derive(Debug, PartialEq)]
pub struct DecodedField {
    pub name: std::string::String,
    pub value: Decoded,
}

/// A decoded value as contracts see it.
pub ghost enum Value {
    Bool(bool),
    I8(i8),
    I16(i16),
    I32(i32),
    I64(i64),
    U8(u8),
    U16(u16),
    U32(u32),
    U64(u64),
    F32(u64),
    F64(u64),
    Char(char),
    String(Seq<char>),
    Identifier(Seq<char>),
    Struct(Seq<(Seq<char>, Value)>),
}

impl View for Decoded {
    type V = Value;

    open spec fn view(&self) -> Value
        decreases self,
    {
        match self {
            Decoded::Bool(v) => Value::Bool(*v),
            Decoded::I8(v) => Value::I8(*v),
            Decoded::I16(v) => Value::I16(*v),
            Decoded::I32(v) => Value::I32(*v),
            Decoded::I64(v) => Value::I64(*v),
            Decoded::U8(v) => Value::U8(*v),
            Decoded::U16(v) => Value::U16(*v),
            Decoded::U32(v) => Value::U32(*v),
            Decoded::U64(v) => Value::U64(*v),
            Decoded::F32(v) => Value::F32(*v),
            Decoded::F64(v) => Value::F64(*v),
            Decoded::Char(v) => Value::Char(*v),
            Decoded::String(v) => Value::String(v@),
            Decoded::Identifier(v) => Value::Identifier(v@),
            Decoded::Struct(fields) => Value::Struct(
                Seq::new(
                    fields@.len(),
                    |i: int|
                        if 0 <= i < fields@.len() {
                            (fields@[i].name@, fields@[i].value.view())
                        } else {
                            (Seq::empty(), Value::Bool(false))
                        },
                ),
            ),
        }
    }
}

/// A result with its error seen as contracts see it.
pub open spec fn seen<T>(r: Result<T, Error>) -> Result<T, ErrorView> {
    match r {
        Ok(v) => Ok(v),
        Err(e) => Err(e@),
    }
}

/// A decoded result as contracts see it.
pub open spec fn seen_value(r: Result<Decoded, Error>) -> Result<Value, ErrorView> {
    match r {
        Ok(v) => Ok(v@),
        Err(e) => Err(e@),
    }
}

/// A boolean is decoded from a boolean alone.
pub open spec fn decoding_bool(t: Tree) -> Result<bool, ErrorView> {
    match t {
        Tree::Boolean(b) => Ok(b),
        _ => Err(ErrorView::ExpectedBoolean(rendering(t))),
    }
}

/// An integer between `lo` and `hi` is decoded from an integer alone, and
/// only from one that lies between them.
pub open spec fn decoding_integer(t: Tree, lo: int, hi: int) -> Result<int, ErrorView> {
    match t {
        Tree::Integer(n) => if lo <= n <= hi {
            Ok(n)
        } else {
            Err(ErrorView::IntegerTooLargeForBytes)
        },
        _ => Err(ErrorView::ExpectedInteger(rendering(t))),
    }
}

/// A floating-point number is decoded from a rational alone, as its bits.
pub open spec fn decoding_rational(t: Tree) -> Result<u64, ErrorView> {
    match t {
        Tree::Rational(bits) => Ok(bits),
        _ => Err(ErrorView::ExpectedRational(rendering(t))),
    }
}

/// A character is decoded from a character alone.
pub open spec fn decoding_char(t: Tree) -> Result<char, ErrorView> {
    match t {
        Tree::Character(c) => Ok(c as char),
        _ => Err(ErrorView::ExpectedChar(rendering(t))),
    }
}

/// A text is decoded from a string alone.
pub open spec fn decoding_string(t: Tree) -> Result<Seq<char>, ErrorView> {
    match t {
        Tree::String(text) => Ok(text),
        _ => Err(ErrorView::ExpectedString(rendering(t))),
    }
}

/// An identifier is decoded from a symbol alone, as its name.
pub open spec fn decoding_symbol(t: Tree) -> Result<Seq<char>, ErrorView> {
    match t {
        Tree::Symbol(name) => Ok(name),
        _ => Err(ErrorView::ExpectedSymbol(rendering(t))),
    }
}

/// The first of `fields` with the name `name`.
pub open spec fn position(fields: Seq<Field>, name: Seq<char>) -> Option<int>
    decreases fields.len(),
{
    if fields.len() == 0 {
        None
    } else {
        match position(fields.drop_last(), name) {
            Some(i) => Some(i),
            None => if fields.last().name@ == name {
                Some(fields.len() - 1)
            } else {
                None
            },
        }
    }
}

/// The first place of `slots` that is empty.
pub open spec fn first_missing(slots: Seq<Option<Value>>) -> Option<int>
    decreases slots.len(),
{
    if slots.len() == 0 {
        None
    } else {
        match first_missing(slots.drop_last()) {
            Some(i) => Some(i),
            None => if slots.last() is None {
                Some(slots.len() - 1)
            } else {
                None
            },
        }
    }
}

/// The message for a key that comes twice.
pub open spec fn duplicate_field(name: Seq<char>) -> Seq<char> {
    "duplicate field `"@ + name + "`"@
}

/// The message for a field that no entry gives.
pub open spec fn missing_field(name: Seq<char>) -> Seq<char> {
    "missing field `"@ + name + "`"@
}

/// As many empty places as a record has fields.
pub open spec fn nothing(n: nat) -> Seq<Option<Value>> {
    Seq::new(n, |i: int| None)
}

/// What decoding the tree `t` into the shape `schema` gives.
pub open spec fn decoding(t: Tree, schema: Schema) -> Result<Value, ErrorView>
    decreases t, 2int,
{
    match schema {
        Schema::Bool => match decoding_bool(t) {
            Ok(v) => Ok(Value::Bool(v)),
            Err(e) => Err(e),
        },
        Schema::I8 => match decoding_integer(t, i8::MIN as int, i8::MAX as int) {
            Ok(v) => Ok(Value::I8(v as i8)),
            Err(e) => Err(e),
        },
        Schema::I16 => match decoding_integer(t, i16::MIN as int, i16::MAX as int) {
            Ok(v) => Ok(Value::I16(v as i16)),
            Err(e) => Err(e),
        },
        Schema::I32 => match decoding_integer(t, i32::MIN as int, i32::MAX as int) {
            Ok(v) => Ok(Value::I32(v as i32)),
            Err(e) => Err(e),
        },
        Schema::I64 => match decoding_integer(t, i64::MIN as int, i64::MAX as int) {
            Ok(v) => Ok(Value::I64(v as i64)),
            Err(e) => Err(e),
        },
        Schema::U8 => match decoding_integer(t, 0, u8::MAX as int) {
            Ok(v) => Ok(Value::U8(v as u8)),
            Err(e) => Err(e),
        },
        Schema::U16 => match decoding_integer(t, 0, u16::MAX as int) {
            Ok(v) => Ok(Value::U16(v as u16)),
            Err(e) => Err(e),
        },
        Schema::U32 => match decoding_integer(t, 0, u32::MAX as int) {
            Ok(v) => Ok(Value::U32(v as u32)),
            Err(e) => Err(e),
        },
        Schema::U64 => match decoding_integer(t, 0, u64::MAX as int) {
            Ok(v) => Ok(Value::U64(v as u64)),
            Err(e) => Err(e),
        },
        Schema::F32 => match decoding_rational(t) {
            Ok(v) => Ok(Value::F32(v)),
            Err(e) => Err(e),
        },
        Schema::F64 => match decoding_rational(t) {
            Ok(v) => Ok(Value::F64(v)),
            Err(e) => Err(e),
        },
        Schema::Char => match decoding_char(t) {
            Ok(v) => Ok(Value::Char(v)),
            Err(e) => Err(e),
        },
        Schema::String => match decoding_string(t) {
            Ok(v) => Ok(Value::String(v)),
            Err(e) => Err(e),
        },
        Schema::Identifier => match decoding_symbol(t) {
            Ok(v) => Ok(Value::Identifier(v)),
            Err(e) => Err(e),
        },
        Schema::Struct(fields) => decoding_struct(t, fields@),
        Schema::Any => Err(ErrorView::DeserializeAnyNotSupported),
        Schema::IgnoredAny => Err(ErrorView::DeserializeIgnoredAnyNotSupported),
        Schema::Sequence => Err(ErrorView::DeserializeSeqNotSupported),
        Schema::Optional => Err(ErrorView::DeserializeOptionNotSupported),
        Schema::Enum => Err(ErrorView::DeserializeEnumNotSupported),
        Schema::Bytes => Err(ErrorView::DeserializeBytesNotSupported),
    }
}

/// What decoding the association list `t` into a record of `fields` gives.
pub open spec fn decoding_struct(t: Tree, fields: Seq<Field>) -> Result<Value, ErrorView>
    decreases t, 1int,
{
    match entries(t, fields, nothing(fields.len())) {
        Ok(slots) => record(fields, slots),
        Err(e) => Err(e),
    }
}

/// What reading the entries of the association list `t` gives, with `slots`
/// holding what the entries before it gave: for each field its value, once
/// its entry has been read.
///
/// The list must end in null; each item must be a pair; each key must be a
/// symbol that names a field, and one that has no value yet; each value must
/// decode into the shape of its field.
pub open spec fn entries(t: Tree, fields: Seq<Field>, slots: Seq<Option<Value>>) -> Result<
    Seq<Option<Value>>,
    ErrorView,
>
    decreases t, 0int,
{
    match t {
        Tree::Null => Ok(slots),
        Tree::Pair(head, rest) => match *head {
            Tree::Pair(key, value) => match decoding_symbol(*key) {
                Err(e) => Err(e),
                Ok(name) => match position(fields, name) {
                    None => Err(ErrorView::DeserializeIgnoredAnyNotSupported),
                    Some(i) => if slots[i] is Some {
                        Err(ErrorView::Message(duplicate_field(name)))
                    } else {
                        match decoding(*value, fields[i].schema) {
                            Err(e) => Err(e),
                            Ok(v) => entries(*rest, fields, slots.update(i, Some(v))),
                        }
                    },
                },
            },
            _ => Err(ErrorView::ExpectedPair(rendering(*head))),
        },
        _ => Err(ErrorView::ExpectedPairOrEndOfAssocList(rendering(t))),
    }
}

/// The record of `fields` with the values of `slots`, where none is
/// missing.
pub open spec fn record(fields: Seq<Field>, slots: Seq<Option<Value>>) -> Result<
    Value,
    ErrorView,
> {
    match first_missing(slots) {
        Some(i) => Err(ErrorView::Message(missing_field(fields[i].name@))),
        None => Ok(
            Value::Struct(Seq::new(fields.len(), |i: int| (fields[i].name@, slots[i]->Some_0))),
        ),
    }
}

/// What a place of a record holds, as contracts see it.
pub open spec fn slot_view(slot: Option<Decoded>) -> Option<Value> {
    match slot {
        Some(v) => Some(v@),
        None => None,
    }
}

/// The places of a record, as contracts see them.
pub open spec fn slots_view(slots: Seq<Option<Decoded>>) -> Seq<Option<Value>> {
    Seq::new(slots.len(), |i: int| slot_view(slots[i]))
}

proof fn lemma_position(fields: Seq<Field>, name: Seq<char>, i: int)
    requires
        0 <= i <= fields.len(),
        forall|j: int| 0 <= j < i ==> (#[trigger] fields[j]).name@ != name,
        i < fields.len() ==> fields[i].name@ == name,
    ensures
        position(fields, name) == if i < fields.len() {
            Some(i)
        } else {
            None
        },
    decreases fields.len(),
{
    if fields.len() > 0 {
        let front = fields.drop_last();
        if i < front.len() {
            lemma_position(front, name, i);
        } else {
            lemma_position(front, name, front.len() as int);
        }
    }
}

proof fn lemma_first_missing(slots: Seq<Option<Value>>, i: int)
    requires
        0 <= i <= slots.len(),
        forall|j: int| 0 <= j < i ==> (#[trigger] slots[j]) is Some,
        i < slots.len() ==> slots[i] is None,
    ensures
        first_missing(slots) == if i < slots.len() {
            Some(i)
        } else {
            None
        },
    decreases slots.len(),
{
    if slots.len() > 0 {
        let front = slots.drop_last();
        if i < front.len() {
            lemma_first_missing(front, i);
        } else {
            lemma_first_missing(front, front.len() as int);
        }
    }
}

/// The place of the first of `fields` with the name `name`.
pub fn find_field(fields: &Vec<Field>, name: &str) -> (found: Option<usize>)
    ensures
        match found {
            Some(i) => position(fields@, name@) == Some(i as int),
            None => position(fields@, name@) is None,
        },
        found is Some ==> found->Some_0 < fields@.len(),
{
    let n: usize = fields.len();
    let mut i: usize = 0;
    while i < n
        invariant
            n == fields@.len(),
            i <= n,
            forall|j: int| 0 <= j < i ==> (#[trigger] fields@[j]).name@ != name@,
        decreases n - i,
    {
        if str_eq(fields[i].name.as_str(), name) {
            proof {
                lemma_position(fields@, name@, i as int);
            }
            return Some(i);
        }
        i = i + 1;
    }
    proof {
        lemma_position(fields@, name@, n as int);
    }
    None
}

/// A decoder for one value. Each `deserialize_` method decodes the input as
/// one shape, and fails with the error of that shape where the input is of
/// another kind.
pub struct Deserializer {
    pub input: SExp,
}

/// A cursor into an association list: what is left of it to read.
pub struct AssocList {
    pub de: Deserializer,
}

impl Deserializer {
    pub fn new(input: SExp) -> (de: Deserializer)
        ensures
            de.input == input,
    {
        Deserializer { input }
    }

    /// The invariant: the input is a value of the store.
    pub open spec fn wf(&self, s: Store) -> bool {
        self.input.wf(s)
    }

    /// The tree of the input.
    pub open spec fn tree(&self, s: Store) -> Tree {
        self.input.tree(s)
    }

    pub fn deserialize_any(&self) -> (r: Result<Decoded, Error>)
        ensures
            seen_value(r) == Err::<Value, ErrorView>(ErrorView::DeserializeAnyNotSupported),
    {
        Err(Error::DeserializeAnyNotSupported)
    }

    pub fn deserialize_ignored_any(&self) -> (r: Result<Decoded, Error>)
        ensures
            seen_value(r) == Err::<Value, ErrorView>(ErrorView::DeserializeIgnoredAnyNotSupported),
    {
        Err(Error::DeserializeIgnoredAnyNotSupported)
    }

    pub fn deserialize_seq(&self) -> (r: Result<Decoded, Error>)
        ensures
            seen_value(r) == Err::<Value, ErrorView>(ErrorView::DeserializeSeqNotSupported),
    {
        Err(Error::DeserializeSeqNotSupported)
    }

    pub fn deserialize_option(&self) -> (r: Result<Decoded, Error>)
        ensures
            seen_value(r) == Err::<Value, ErrorView>(ErrorView::DeserializeOptionNotSupported),
    {
        Err(Error::DeserializeOptionNotSupported)
    }

    pub fn deserialize_enum(&self) -> (r: Result<Decoded, Error>)
        ensures
            seen_value(r) == Err::<Value, ErrorView>(ErrorView::DeserializeEnumNotSupported),
    {
        Err(Error::DeserializeEnumNotSupported)
    }

    pub fn deserialize_bytes(&self) -> (r: Result<Decoded, Error>)
        ensures
            seen_value(r) == Err::<Value, ErrorView>(ErrorView::DeserializeBytesNotSupported),
    {
        Err(Error::DeserializeBytesNotSupported)
    }

    pub fn deserialize_bool(&self, ctx: &Context) -> (r: Result<bool, Error>)
        requires
            self.wf(ctx@),
        ensures
            seen(r) == decoding_bool(self.tree(ctx@)),
    {
        proof {
            use_type_invariant(ctx);
        }
        match self.input {
            SExp::Bool(b) => Ok(b.value()),
            o => Err(Error::ExpectedBoolean(o.fmt(ctx))),
        }
    }

    /// Decodes an integer at its full width.
    pub fn deserialize_integer(&self, ctx: &Context) -> (r: Result<i64, Error>)
        requires
            self.wf(ctx@),
        ensures
            match r {
                Ok(v) => self.tree(ctx@) == Tree::Integer(v as int),
                Err(e) => !(self.tree(ctx@) is Integer) && e@ == ErrorView::ExpectedInteger(
                    rendering(self.tree(ctx@)),
                ),
            },
    {
        proof {
            use_type_invariant(ctx);
        }
        match self.input {
            SExp::Integer(i) => Ok(i.value()),
            o => Err(Error::ExpectedInteger(o.fmt(ctx))),
        }
    }

    pub fn deserialize_i8(&self, ctx: &Context) -> (r: Result<i8, Error>)
        requires
            self.wf(ctx@),
        ensures
            match r {
                Ok(v) => decoding_integer(self.tree(ctx@), i8::MIN as int, i8::MAX as int) == Ok::<
                    int,
                    ErrorView,
                >(v as int),
                Err(e) => decoding_integer(self.tree(ctx@), i8::MIN as int, i8::MAX as int)
                    == Err::<int, ErrorView>(e@),
            },
    {
        match self.deserialize_integer(ctx) {
            Err(e) => Err(e),
            Ok(wide) => match i8::try_from(wide) {
                Ok(v) => Ok(v),
                Err(e) => Err(Error::IntegerTooLargeForBytes(e)),
            },
        }
    }

    pub fn deserialize_i16(&self, ctx: &Context) -> (r: Result<i16, Error>)
        requires
            self.wf(ctx@),
        ensures
            match r {
                Ok(v) => decoding_integer(self.tree(ctx@), i16::MIN as int, i16::MAX as int)
                    == Ok::<int, ErrorView>(v as int),
                Err(e) => decoding_integer(self.tree(ctx@), i16::MIN as int, i16::MAX as int)
                    == Err::<int, ErrorView>(e@),
            },
    {
        match self.deserialize_integer(ctx) {
            Err(e) => Err(e),
            Ok(wide) => match i16::try_from(wide) {
                Ok(v) => Ok(v),
                Err(e) => Err(Error::IntegerTooLargeForBytes(e)),
            },
        }
    }

    pub fn deserialize_i32(&self, ctx: &Context) -> (r: Result<i32, Error>)
        requires
            self.wf(ctx@),
        ensures
            match r {
                Ok(v) => decoding_integer(self.tree(ctx@), i32::MIN as int, i32::MAX as int)
                    == Ok::<int, ErrorView>(v as int),
                Err(e) => decoding_integer(self.tree(ctx@), i32::MIN as int, i32::MAX as int)
                    == Err::<int, ErrorView>(e@),
            },
    {
        match self.deserialize_integer(ctx) {
            Err(e) => Err(e),
            Ok(wide) => match i32::try_from(wide) {
                Ok(v) => Ok(v),
                Err(e) => Err(Error::IntegerTooLargeForBytes(e)),
            },
        }
    }

    pub fn deserialize_i64(&self, ctx: &Context) -> (r: Result<i64, Error>)
        requires
            self.wf(ctx@),
        ensures
            match r {
                Ok(v) => decoding_integer(self.tree(ctx@), i64::MIN as int, i64::MAX as int)
                    == Ok::<int, ErrorView>(v as int),
                Err(e) => decoding_integer(self.tree(ctx@), i64::MIN as int, i64::MAX as int)
                    == Err::<int, ErrorView>(e@),
            },
    {
        self.deserialize_integer(ctx)
    }

    pub fn deserialize_u8(&self, ctx: &Context) -> (r: Result<u8, Error>)
        requires
            self.wf(ctx@),
        ensures
            match r {
                Ok(v) => decoding_integer(self.tree(ctx@), 0, u8::MAX as int) == Ok::<
                    int,
                    ErrorView,
                >(v as int),
                Err(e) => decoding_integer(self.tree(ctx@), 0, u8::MAX as int) == Err::<
                    int,
                    ErrorView,
                >(e@),
            },
    {
        match self.deserialize_integer(ctx) {
            Err(e) => Err(e),
            Ok(wide) => match u8::try_from(wide) {
                Ok(v) => Ok(v),
                Err(e) => Err(Error::IntegerTooLargeForBytes(e)),
            },
        }
    }

    pub fn deserialize_u16(&self, ctx: &Context) -> (r: Result<u16, Error>)
        requires
            self.wf(ctx@),
        ensures
            match r {
                Ok(v) => decoding_integer(self.tree(ctx@), 0, u16::MAX as int) == Ok::<
                    int,
                    ErrorView,
                >(v as int),
                Err(e) => decoding_integer(self.tree(ctx@), 0, u16::MAX as int) == Err::<
                    int,
                    ErrorView,
                >(e@),
            },
    {
        match self.deserialize_integer(ctx) {
            Err(e) => Err(e),
            Ok(wide) => match u16::try_from(wide) {
                Ok(v) => Ok(v),
                Err(e) => Err(Error::IntegerTooLargeForBytes(e)),
            },
        }
    }

    pub fn deserialize_u32(&self, ctx: &Context) -> (r: Result<u32, Error>)
        requires
            self.wf(ctx@),
        ensures
            match r {
                Ok(v) => decoding_integer(self.tree(ctx@), 0, u32::MAX as int) == Ok::<
                    int,
                    ErrorView,
                >(v as int),
                Err(e) => decoding_integer(self.tree(ctx@), 0, u32::MAX as int) == Err::<
                    int,
                    ErrorView,
                >(e@),
            },
    {
        match self.deserialize_integer(ctx) {
            Err(e) => Err(e),
            Ok(wide) => match u32::try_from(wide) {
                Ok(v) => Ok(v),
                Err(e) => Err(Error::IntegerTooLargeForBytes(e)),
            },
        }
    }

    pub fn deserialize_u64(&self, ctx: &Context) -> (r: Result<u64, Error>)
        requires
            self.wf(ctx@),
        ensures
            match r {
                Ok(v) => decoding_integer(self.tree(ctx@), 0, u64::MAX as int) == Ok::<
                    int,
                    ErrorView,
                >(v as int),
                Err(e) => decoding_integer(self.tree(ctx@), 0, u64::MAX as int) == Err::<
                    int,
                    ErrorView,
                >(e@),
            },
    {
        match self.deserialize_integer(ctx) {
            Err(e) => Err(e),
            Ok(wide) => match u64::try_from(wide) {
                Ok(v) => Ok(v),
                Err(e) => Err(Error::IntegerTooLargeForBytes(e)),
            },
        }
    }

    /// Decodes a rational, as the bits of its double.
    pub fn deserialize_rational(&self, ctx: &Context) -> (r: Result<u64, Error>)
        requires
            self.wf(ctx@),
        ensures
            seen(r) == decoding_rational(self.tree(ctx@)),
    {
        proof {
            use_type_invariant(ctx);
        }
        match self.input {
            SExp::Rational(i) => Ok(i.value(ctx)),
            o => Err(Error::ExpectedRational(o.fmt(ctx))),
        }
    }

    /// Decodes a single-precision number: the bits of the double that was
    /// found, which the caller narrows.
    pub fn deserialize_f32(&self, ctx: &Context) -> (r: Result<u64, Error>)
        requires
            self.wf(ctx@),
        ensures
            seen(r) == decoding_rational(self.tree(ctx@)),
    {
        self.deserialize_rational(ctx)
    }

    pub fn deserialize_f64(&self, ctx: &Context) -> (r: Result<u64, Error>)
        requires
            self.wf(ctx@),
        ensures
            seen(r) == decoding_rational(self.tree(ctx@)),
    {
        self.deserialize_rational(ctx)
    }

    pub fn deserialize_char(&self, ctx: &Context) -> (r: Result<char, Error>)
        requires
            self.wf(ctx@),
        ensures
            seen(r) == decoding_char(self.tree(ctx@)),
    {
        proof {
            use_type_invariant(ctx);
        }
        match self.input {
            SExp::Char(c) => Ok(c.value() as char),
            o => Err(Error::ExpectedChar(o.fmt(ctx))),
        }
    }

    /// Decodes a string, as an owned text.
    pub fn deserialize_sstring(&self, ctx: &Context) -> (r: Result<std::string::String, Error>)
        requires
            self.wf(ctx@),
        ensures
            match r {
                Ok(v) => decoding_string(self.tree(ctx@)) == Ok::<Seq<char>, ErrorView>(v@),
                Err(e) => decoding_string(self.tree(ctx@)) == Err::<Seq<char>, ErrorView>(e@),
            },
    {
        proof {
            use_type_invariant(ctx);
        }
        match self.input {
            SExp::String(s) => Ok(s.to_string(ctx)),
            o => Err(Error::ExpectedString(o.fmt(ctx))),
        }
    }

    pub fn deserialize_str(&self, ctx: &Context) -> (r: Result<std::string::String, Error>)
        requires
            self.wf(ctx@),
        ensures
            match r {
                Ok(v) => decoding_string(self.tree(ctx@)) == Ok::<Seq<char>, ErrorView>(v@),
                Err(e) => decoding_string(self.tree(ctx@)) == Err::<Seq<char>, ErrorView>(e@),
            },
    {
        self.deserialize_sstring(ctx)
    }

    pub fn deserialize_string(&self, ctx: &Context) -> (r: Result<std::string::String, Error>)
        requires
            self.wf(ctx@),
        ensures
            match r {
                Ok(v) => decoding_string(self.tree(ctx@)) == Ok::<Seq<char>, ErrorView>(v@),
                Err(e) => decoding_string(self.tree(ctx@)) == Err::<Seq<char>, ErrorView>(e@),
            },
    {
        self.deserialize_sstring(ctx)
    }

    /// Decodes a symbol, as its name.
    pub fn deserialize_symbol(&self, ctx: &Context) -> (r: Result<std::string::String, Error>)
        requires
            self.wf(ctx@),
        ensures
            match r {
                Ok(v) => decoding_symbol(self.tree(ctx@)) == Ok::<Seq<char>, ErrorView>(v@),
                Err(e) => decoding_symbol(self.tree(ctx@)) == Err::<Seq<char>, ErrorView>(e@),
            },
    {
        proof {
            use_type_invariant(ctx);
        }
        match self.input {
            SExp::Symbol(s) => Ok(s.to_string(ctx)),
            o => Err(Error::ExpectedSymbol(o.fmt(ctx))),
        }
    }

    pub fn deserialize_identifier(&self, ctx: &Context) -> (r: Result<
        std::string::String,
        Error,
    >)
        requires
            self.wf(ctx@),
        ensures
            match r {
                Ok(v) => decoding_symbol(self.tree(ctx@)) == Ok::<Seq<char>, ErrorView>(v@),
                Err(e) => decoding_symbol(self.tree(ctx@)) == Err::<Seq<char>, ErrorView>(e@),
            },
    {
        self.deserialize_symbol(ctx)
    }
}

impl AssocList {
    pub fn new(input: SExp) -> (list: AssocList)
        ensures
            list.de.input == input,
    {
        AssocList { de: Deserializer { input } }
    }

    /// The key of the next entry, or nothing at the end of the list. What
    /// is left of the list must be null or a pair, and its first item a
    /// pair.
    pub fn next_key(&self, ctx: &Context) -> (r: Result<Option<SExp>, Error>)
        requires
            self.de.wf(ctx@),
        ensures
            match self.de.tree(ctx@) {
                Tree::Null => r == Ok::<Option<SExp>, Error>(None),
                Tree::Pair(head, _) => match *head {
                    Tree::Pair(key, _) => {
                        &&& r matches Ok(Some(k))
                        &&& k.wf(ctx@)
                        &&& k.word() == car_of(ctx@, car_of(ctx@, self.de.input.word()))
                        &&& k.tree(ctx@) == *key
                        &&& rank(k.word()) < rank(self.de.input.word())
                    },
                    _ => r is Err && r->Err_0@ == ErrorView::ExpectedPair(rendering(*head)),
                },
                t => r is Err && r->Err_0@ == ErrorView::ExpectedPairOrEndOfAssocList(
                    rendering(t),
                ),
            },
    {
        proof {
            use_type_invariant(ctx);
        }
        match self.de.input {
            SExp::Pair(pair) => {
                let head = pair.car(ctx);
                match head {
                    SExp::Pair(kv_pair) => {
                        proof {
                            lemma_tree_unfold(ctx@, kv_pair.word());
                        }
                        Ok(Some(kv_pair.car(ctx)))
                    },
                    o => Err(Error::ExpectedPair(o.fmt(ctx))),
                }
            },
            SExp::Null(_) => Ok(None),
            o => Err(Error::ExpectedPairOrEndOfAssocList(o.fmt(ctx))),
        }
    }

    /// The value of the next entry; the cursor moves on to the entries
    /// after it. What is left of the list must be a pair, and its first item
    /// a pair; where it is not, the cursor stays.
    pub fn next_value(&mut self, ctx: &Context) -> (r: Result<SExp, Error>)
        requires
            old(self).de.wf(ctx@),
        ensures
            final(self).de.wf(ctx@),
            match old(self).de.tree(ctx@) {
                Tree::Pair(head, rest) => match *head {
                    Tree::Pair(_, value) => {
                        &&& r matches Ok(v)
                        &&& v.wf(ctx@)
                        &&& v.word() == cdr_of(ctx@, car_of(ctx@, old(self).de.input.word()))
                        &&& v.tree(ctx@) == *value
                        &&& rank(v.word()) < rank(old(self).de.input.word())
                        &&& final(self).de.input.word() == cdr_of(
                            ctx@,
                            old(self).de.input.word(),
                        )
                        &&& final(self).de.tree(ctx@) == *rest
                        &&& rank(final(self).de.input.word()) < rank(old(self).de.input.word())
                    },
                    _ => r is Err && r->Err_0@ == ErrorView::ExpectedPair(rendering(*head))
                        && *final(self) == *old(self),
                },
                t => r is Err && r->Err_0@ == ErrorView::ExpectedPairOrEndOfAssocList(
                    rendering(t),
                ) && *final(self) == *old(self),
            },
    {
        proof {
            use_type_invariant(ctx);
        }
        match self.de.input {
            SExp::Pair(pair) => {
                let head = pair.car(ctx);
                match head {
                    SExp::Pair(kv_pair) => {
                        proof {
                            lemma_tree_unfold(ctx@, kv_pair.word());
                        }
                        let value = kv_pair.cdr(ctx);
                        self.de.input = pair.cdr(ctx);
                        Ok(value)
                    },
                    o => Err(Error::ExpectedPair(o.fmt(ctx))),
                }
            },
            o => Err(Error::ExpectedPairOrEndOfAssocList(o.fmt(ctx))),
        }
    }
}

/// The text that says which field came twice.
fn duplicate_message(name: &str) -> (msg: std::string::String)
    ensures
        msg@ == duplicate_field(name@),
{
    let mut msg = "duplicate field `".to_owned();
    msg.append(name);
    msg.append("`");
    msg
}

/// The text that says which field is missing.
fn missing_message(name: &str) -> (msg: std::string::String)
    ensures
        msg@ == missing_field(name@),
{
    let mut msg = "missing field `".to_owned();
    msg.append(name);
    msg.append("`");
    msg
}

/// As many empty places as `n`.
fn empty_slots(n: usize) -> (slots: Vec<Option<Decoded>>)
    ensures
        slots@.len() == n,
        slots_view(slots@) == nothing(n as nat),
{
    let mut slots: Vec<Option<Decoded>> = Vec::new();
    let mut i: usize = 0;
    while i < n
        invariant
            i <= n,
            slots@.len() == i,
            forall|j: int| 0 <= j < i ==> (#[trigger] slots@[j]) is None,
        decreases n - i,
    {
        slots.push(None);
        i = i + 1;
    }
    slots
}

/// Makes the record of `fields` from the filled places `slots`, or says
/// which field is missing.
fn finish_record(fields: &Vec<Field>, slots: Vec<Option<Decoded>>) -> (r: Result<
    Vec<DecodedField>,
    Error,
>)
    requires
        slots@.len() == fields@.len(),
    ensures
        match r {
            Ok(out) => record(fields@, slots_view(slots@)) == Ok::<Value, ErrorView>(
                Decoded::Struct(out)@,
            ),
            Err(e) => record(fields@, slots_view(slots@)) == Err::<Value, ErrorView>(e@),
        },
{
    let n: usize = fields.len();
    let ghost filled = slots_view(slots@);
    let mut i: usize = 0;
    while i < n
        invariant
            n == fields@.len(),
            n == slots@.len(),
            i <= n,
            filled == slots_view(slots@),
            forall|j: int| 0 <= j < i ==> (#[trigger] filled[j]) is Some,
        decreases n - i,
    {
        if slots[i].is_none() {
            proof {
                lemma_first_missing(filled, i as int);
            }
            return Err(Error::Message(missing_message(fields[i].name.as_str())));
        }
        i = i + 1;
    }
    proof {
        lemma_first_missing(filled, n as int);
    }
    let mut rest = slots;
    let mut out: Vec<DecodedField> = Vec::new();
    let mut k: usize = n;
    while k > 0
        invariant
            n == fields@.len(),
            k <= n,
            rest@.len() == k,
            out@.len() == n - k,
            forall|j: int| 0 <= j < k ==> slot_view(#[trigger] rest@[j]) == filled[j],
            forall|j: int| 0 <= j < n ==> (#[trigger] filled[j]) is Some,
            filled.len() == n,
            forall|j: int|
                0 <= j < n - k ==> (#[trigger] out@[j]).name@ == fields@[k + j].name@
                    && out@[j].value@ == filled[k + j]->Some_0,
        decreases k,
    {
        k = k - 1;
        if let Some(Some(value)) = rest.pop() {
            let field = DecodedField { name: fields[k].name.clone(), value };
            out.insert(0, field);
        }
    }
    proof {
        let made = Decoded::Struct(out)@;
        let wanted = Seq::new(fields@.len(), |i: int| (fields@[i].name@, filled[i]->Some_0));
        assert(made->Struct_0 =~= wanted);
    }
    Ok(out)
}

impl Deserializer {
    /// Decodes a record of `fields` from an association list.
    pub fn deserialize_struct(&self, ctx: &Context, fields: &Vec<Field>) -> (r: Result<
        Vec<DecodedField>,
        Error,
    >)
        requires
            self.wf(ctx@),
        ensures
            match r {
                Ok(out) => decoding_struct(self.tree(ctx@), fields@) == Ok::<Value, ErrorView>(
                    Decoded::Struct(out)@,
                ),
                Err(e) => decoding_struct(self.tree(ctx@), fields@) == Err::<Value, ErrorView>(
                    e@,
                ),
            },
        decreases rank(self.input.word()), 0int,
    {
        proof {
            use_type_invariant(ctx);
        }
        let n: usize = fields.len();
        let mut slots = empty_slots(n);
        let mut list = AssocList::new(self.input);
        let ghost whole = entries(self.tree(ctx@), fields@, nothing(n as nat));
        loop
            invariant_except_break
                whole == entries(list.de.tree(ctx@), fields@, slots_view(slots@)),
            invariant
                ctx.wf(),
                list.de.wf(ctx@),
                n == fields@.len(),
                slots@.len() == n,
                rank(list.de.input.word()) <= rank(self.input.word()),
                whole == entries(self.tree(ctx@), fields@, nothing(n as nat)),
            ensures
                whole == Ok::<Seq<Option<Value>>, ErrorView>(slots_view(slots@)),
            decreases rank(list.de.input.word()),
        {
            let ghost filled = slots_view(slots@);
            let key = match list.next_key(ctx) {
                Err(e) => {
                    return Err(e);
                },
                Ok(None) => {
                    break ;
                },
                Ok(Some(key)) => key,
            };
            let name = match Deserializer::new(key).deserialize_identifier(ctx) {
                Err(e) => {
                    return Err(e);
                },
                Ok(name) => name,
            };
            let i = match find_field(fields, name.as_str()) {
                None => {
                    return Err(Error::DeserializeIgnoredAnyNotSupported);
                },
                Some(i) => i,
            };
            if slots[i].is_some() {
                return Err(Error::Message(duplicate_message(name.as_str())));
            }
            let value = match list.next_value(ctx) {
                Err(e) => {
                    return Err(e);
                },
                Ok(value) => value,
            };
            let decoded = match Deserializer::new(value).deserialize(ctx, &fields[i].schema) {
                Err(e) => {
                    return Err(e);
                },
                Ok(decoded) => decoded,
            };
            let ghost v = decoded@;
            slots.set(i, Some(decoded));
            assert(slots_view(slots@) =~= filled.update(i as int, Some(v)));
        }
        finish_record(fields, slots)
    }

    /// Decodes the input into the shape `schema`.
    pub fn deserialize(&self, ctx: &Context, schema: &Schema) -> (r: Result<Decoded, Error>)
        requires
            self.wf(ctx@),
        ensures
            seen_value(r) == decoding(self.tree(ctx@), *schema),
        decreases rank(self.input.word()), 1int,
    {
        match schema {
            Schema::Bool => match self.deserialize_bool(ctx) {
                Ok(v) => Ok(Decoded::Bool(v)),
                Err(e) => Err(e),
            },
            Schema::I8 => match self.deserialize_i8(ctx) {
                Ok(v) => Ok(Decoded::I8(v)),
                Err(e) => Err(e),
            },
            Schema::I16 => match self.deserialize_i16(ctx) {
                Ok(v) => Ok(Decoded::I16(v)),
                Err(e) => Err(e),
            },
            Schema::I32 => match self.deserialize_i32(ctx) {
                Ok(v) => Ok(Decoded::I32(v)),
                Err(e) => Err(e),
            },
            Schema::I64 => match self.deserialize_i64(ctx) {
                Ok(v) => Ok(Decoded::I64(v)),
                Err(e) => Err(e),
            },
            Schema::U8 => match self.deserialize_u8(ctx) {
                Ok(v) => Ok(Decoded::U8(v)),
                Err(e) => Err(e),
            },
            Schema::U16 => match self.deserialize_u16(ctx) {
                Ok(v) => Ok(Decoded::U16(v)),
                Err(e) => Err(e),
            },
            Schema::U32 => match self.deserialize_u32(ctx) {
                Ok(v) => Ok(Decoded::U32(v)),
                Err(e) => Err(e),
            },
            Schema::U64 => match self.deserialize_u64(ctx) {
                Ok(v) => Ok(Decoded::U64(v)),
                Err(e) => Err(e),
            },
            Schema::F32 => match self.deserialize_f32(ctx) {
                Ok(v) => Ok(Decoded::F32(v)),
                Err(e) => Err(e),
            },
            Schema::F64 => match self.deserialize_f64(ctx) {
                Ok(v) => Ok(Decoded::F64(v)),
                Err(e) => Err(e),
            },
            Schema::Char => match self.deserialize_char(ctx) {
                Ok(v) => Ok(Decoded::Char(v)),
                Err(e) => Err(e),
            },
            Schema::String => match self.deserialize_string(ctx) {
                Ok(v) => Ok(Decoded::String(v)),
                Err(e) => Err(e),
            },
            Schema::Identifier => match self.deserialize_identifier(ctx) {
                Ok(v) => Ok(Decoded::Identifier(v)),
                Err(e) => Err(e),
            },
            Schema::Struct(fields) => match self.deserialize_struct(ctx, fields) {
                Ok(v) => Ok(Decoded::Struct(v)),
                Err(e) => Err(e),
            },
            Schema::Any => self.deserialize_any(),
            Schema::IgnoredAny => self.deserialize_ignored_any(),
            Schema::Sequence => self.deserialize_seq(),
            Schema::Optional => self.deserialize_option(),
            Schema::Enum => self.deserialize_enum(),
            Schema::Bytes => self.deserialize_bytes(),
        }
    }
}

/// Decodes the value `s` into the shape `schema`. Either the whole value is
/// decoded, or the first failure is the result.
pub fn from_sexp(ctx: &Context, s: SExp, schema: &Schema) -> (r: Result<Decoded, Error>)
    requires
        s.wf(ctx@),
    ensures
        seen_value(r) == decoding(s.tree(ctx@), *schema),
{
    let deserializer = Deserializer::new(s);
    deserializer.deserialize(ctx, schema)
}

/// Whether the tree is an association list: a proper list whose items are
/// pairs with a symbol as their first part.
pub open spec fn is_assoc_list(t: Tree) -> bool
    decreases t,
{
    match t {
        Tree::Null => true,
        Tree::Pair(head, rest) => (match *head {
            Tree::Pair(key, _) => *key is Symbol,
            _ => false,
        }) && is_assoc_list(*rest),
        _ => false,
    }
}

proof fn lemma_entries_need_assoc_list(t: Tree, fields: Seq<Field>, slots: Seq<Option<Value>>)
    requires
        !is_assoc_list(t),
    ensures
        entries(t, fields, slots) is Err,
    decreases t,
{
    match t {
        Tree::Pair(head, rest) => match *head {
            Tree::Pair(key, value) => match decoding_symbol(*key) {
                Ok(name) => match position(fields, name) {
                    Some(i) => if !(slots[i] is Some) {
                        match decoding(*value, fields[i].schema) {
                            Ok(v) => {
                                lemma_entries_need_assoc_list(
                                    *rest,
                                    fields,
                                    slots.update(i, Some(v)),
                                );
                            },
                            Err(_) => {},
                        }
                    },
                    None => {},
                },
                Err(_) => {},
            },
            _ => {},
        },
        _ => {},
    }
}

/// A value that is no association list never decodes into a record: the
/// result is an error, whatever the fields are. Where the value is neither a
/// pair nor null, the error says so and carries the printed form of the
/// value.
pub proof fn lemma_record_needs_assoc_list(t: Tree, fields: Seq<Field>)
    requires
        !is_assoc_list(t),
    ensures
        decoding_struct(t, fields) is Err,
        !(t is Pair) ==> decoding_struct(t, fields) == Err::<Value, ErrorView>(
            ErrorView::ExpectedPairOrEndOfAssocList(rendering(t)),
        ),
{
    lemma_entries_need_assoc_list(t, fields, nothing(fields.len()));
}

/// Where the fault lies at the front of the value (it is neither a pair nor
/// null, or its first item is no pair, or the first key no symbol), the
/// error is one of the structural errors, whatever the fields are.
pub proof fn lemma_fault_at_front_is_structural(t: Tree, fields: Seq<Field>)
    requires
        match t {
            Tree::Null => false,
            Tree::Pair(head, _) => match *head {
                Tree::Pair(key, _) => !(*key is Symbol),
                _ => true,
            },
            _ => true,
        },
    ensures
        decoding_struct(t, fields) is Err,
        decoding_struct(t, fields)->Err_0.is_structural(),
{
}

/// Whether every entry of the longest run of well-formed entries at the
/// front of `t` can be read: its key names a field that has no value yet, and
/// its value decodes into the shape of that field.
pub open spec fn front_reads(t: Tree, fields: Seq<Field>, slots: Seq<Option<Value>>) -> bool
    decreases t,
{
    match t {
        Tree::Pair(head, rest) => match *head {
            Tree::Pair(key, value) => match *key {
                Tree::Symbol(name) => match position(fields, name) {
                    Some(i) => slots[i] is None && (match decoding(*value, fields[i].schema) {
                        Ok(v) => front_reads(*rest, fields, slots.update(i, Some(v))),
                        Err(_) => false,
                    }),
                    None => false,
                },
                _ => true,
            },
            _ => true,
        },
        _ => true,
    }
}

proof fn lemma_fault_after_front(t: Tree, fields: Seq<Field>, slots: Seq<Option<Value>>)
    requires
        !is_assoc_list(t),
        front_reads(t, fields, slots),
    ensures
        entries(t, fields, slots) is Err,
        entries(t, fields, slots)->Err_0.is_structural(),
    decreases t,
{
    match t {
        Tree::Pair(head, rest) => match *head {
            Tree::Pair(key, value) => match *key {
                Tree::Symbol(name) => {
                    let i = position(fields, name)->Some_0;
                    let v = decoding(*value, fields[i].schema)->Ok_0;
                    lemma_fault_after_front(*rest, fields, slots.update(i, Some(v)));
                },
                _ => {},
            },
            _ => {},
        },
        _ => {},
    }
}

/// A value that is no association list gives a structural error, once
/// every entry before the fault can be read.
pub proof fn lemma_fault_is_structural(t: Tree, fields: Seq<Field>)
    requires
        !is_assoc_list(t),
        front_reads(t, fields, nothing(fields.len())),
    ensures
        decoding_struct(t, fields) is Err,
        decoding_struct(t, fields)->Err_0.is_structural(),
{
    lemma_fault_after_front(t, fields, nothing(fields.len()));
}

/// The place that `position` finds is a place of `fields`, and the field
/// there has the name.
pub proof fn lemma_position_found(fields: Seq<Field>, name: Seq<char>)
    requires
        position(fields, name) is Some,
    ensures
        0 <= position(fields, name)->Some_0 < fields.len(),
        fields[position(fields, name)->Some_0].name@ == name,
    decreases fields.len(),
{
    if fields.len() > 0 && position(fields.drop_last(), name) is Some {
        lemma_position_found(fields.drop_last(), name);
    }
}

/// The tree of the list with `head` before `tail`.
pub open spec fn cons(head: Tree, tail: Tree) -> Tree {
    Tree::Pair(Box::new(head), Box::new(tail))
}

/// The order of the entries does not matter: where reading a list
/// succeeds, reading it with two neighbouring entries in each other's place
/// gives the same.
pub proof fn lemma_entries_swap(
    first: Tree,
    second: Tree,
    rest: Tree,
    fields: Seq<Field>,
    slots: Seq<Option<Value>>,
)
    requires
        slots.len() == fields.len(),
        entries(cons(first, cons(second, rest)), fields, slots) is Ok,
    ensures
        entries(cons(second, cons(first, rest)), fields, slots) == entries(
            cons(first, cons(second, rest)),
            fields,
            slots,
        ),
{
    let one = cons(first, cons(second, rest));
    let other = cons(second, cons(first, rest));
    let n1 = first->Pair_0->Symbol_0;
    let n2 = second->Pair_0->Symbol_0;
    assert(first is Pair && *first->Pair_0 is Symbol);
    let i = position(fields, n1)->Some_0;
    lemma_position_found(fields, n1);
    let a = decoding(*first->Pair_1, fields[i].schema)->Ok_0;
    let after_first = slots.update(i, Some(a));
    assert(entries(one, fields, slots) == entries(cons(second, rest), fields, after_first));
    assert(second is Pair && *second->Pair_0 is Symbol);
    let j = position(fields, n2)->Some_0;
    lemma_position_found(fields, n2);
    let b = decoding(*second->Pair_1, fields[j].schema)->Ok_0;
    assert(after_first[j] is None);
    assert(i != j);
    let after_both = after_first.update(j, Some(b));
    assert(entries(cons(second, rest), fields, after_first) == entries(rest, fields, after_both));
    let after_second = slots.update(j, Some(b));
    assert(entries(other, fields, slots) == entries(cons(first, rest), fields, after_second));
    assert(after_second[i] is None);
    assert(after_second.update(i, Some(a)) =~= after_both);
    assert(entries(cons(first, rest), fields, after_second) == entries(rest, fields, after_both));
}

/// What holds of two tails holds behind a common entry: where the two
/// tails read the same whenever the first can be read, so do the two lists
/// with one more entry in front.
pub proof fn lemma_entries_behind(
    head: Tree,
    one: Tree,
    other: Tree,
    fields: Seq<Field>,
    slots: Seq<Option<Value>>,
)
    requires
        slots.len() == fields.len(),
        forall|s: Seq<Option<Value>>|
            s.len() == fields.len() && (#[trigger] entries(one, fields, s)) is Ok ==> entries(
                other,
                fields,
                s,
            ) == entries(one, fields, s),
        entries(cons(head, one), fields, slots) is Ok,
    ensures
        entries(cons(head, other), fields, slots) == entries(cons(head, one), fields, slots),
{
    let name = head->Pair_0->Symbol_0;
    assert(head is Pair && *head->Pair_0 is Symbol);
    let i = position(fields, name)->Some_0;
    lemma_position_found(fields, name);
    let v = decoding(*head->Pair_1, fields[i].schema)->Ok_0;
    let next = slots.update(i, Some(v));
    assert(entries(cons(head, one), fields, slots) == entries(one, fields, next));
    assert(entries(cons(head, other), fields, slots) == entries(other, fields, next));
}

/// A record does not depend on the order of its first two entries: where
/// decoding succeeds, decoding with the two in each other's place gives the
/// same record.
pub proof fn lemma_record_swap(first: Tree, second: Tree, rest: Tree, fields: Seq<Field>)
    requires
        decoding_struct(cons(first, cons(second, rest)), fields) is Ok,
    ensures
        decoding_struct(cons(second, cons(first, rest)), fields) == decoding_struct(
            cons(first, cons(second, rest)),
            fields,
        ),
{
    lemma_entries_swap(first, second, rest, fields, nothing(fields.len()));
}

} // verus!
