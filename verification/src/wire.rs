//! Messages on the wire.

use crate::lexical::same_str;
use crate::message::{strs, wire_names_of, EnumDef, FieldDef, StructDef, VariantDef};
use vstd::prelude::*;

verus! {

/// A value as it travels: a tree of the kinds that the wire format knows.
#[derive(Debug, PartialEq, Eq)]
pub enum Value {
    Null,
    Bool(bool),
    Number(String),
    Text(String),
    List(Vec<Value>),
    Object(Vec<(String, Value)>),
}

/// A wire value as a mathematical tree.
pub enum Json {
    Null,
    Bool(bool),
    Number(Seq<char>),
    Text(Seq<char>),
    List(Seq<Json>),
    Object(Seq<(Seq<char>, Json)>),
}

impl View for Value {
    type V = Json;

    open spec fn view(&self) -> Json
        decreases self,
    {
        match self {
            Value::Null => Json::Null,
            Value::Bool(b) => Json::Bool(*b),
            Value::Number(n) => Json::Number(n@),
            Value::Text(t) => Json::Text(t@),
            Value::List(items) => Json::List(
                Seq::new(
                    items@.len(),
                    |i: int|
                        if 0 <= i < items@.len() {
                            items@[i]@
                        } else {
                            Json::Null
                        },
                ),
            ),
            Value::Object(entries) => Json::Object(
                Seq::new(
                    entries@.len(),
                    |i: int|
                        if 0 <= i < entries@.len() {
                            (entries@[i].0@, entries@[i].1@)
                        } else {
                            (Seq::empty(), Json::Null)
                        },
                ),
            ),
        }
    }
}

/// Why a payload is not a message of some type.
#[derive(Clone, Copy, Debug, PartialEq, Eq, Structural)]
pub enum DecodeReason {
    /// The payload is not an object.
    NotAnObject,
    /// The payload does not hold exactly one entry, the variant.
    NotOneVariant,
    /// The type has no variant of that wire name.
    UnknownVariant,
    /// What stands under the variant's name, or for a record, is not an
    /// object.
    BodyNotAnObject,
    /// The body holds an entry that is no field of the message.
    UnknownField,
    /// The body lacks a field of the message.
    MissingField,
    /// The body holds a field twice.
    DuplicateField,
}

/// The position of the first of `keys` that is `key`.
pub open spec fn first_key(keys: Seq<Seq<char>>, key: Seq<char>) -> Option<int>
    decreases keys.len(),
{
    if keys.len() == 0 {
        None
    } else if keys[0] == key {
        Some(0)
    } else {
        match first_key(keys.drop_first(), key) {
            Some(at) => Some(at + 1),
            None => None,
        }
    }
}

/// `first_key` finds the first position that holds the key, and finds
/// none only where no position holds it.
pub proof fn lemma_first_key(keys: Seq<Seq<char>>, key: Seq<char>)
    ensures
        match first_key(keys, key) {
            Some(at) => {
                &&& 0 <= at < keys.len()
                &&& keys[at] == key
                &&& forall|k: int| 0 <= k < at ==> keys[k] != key
            },
            None => forall|k: int| 0 <= k < keys.len() ==> keys[k] != key,
        },
    decreases keys.len(),
{
    if keys.len() > 0 && keys[0] != key {
        let rest = keys.drop_first();
        lemma_first_key(rest, key);
        match first_key(rest, key) {
            Some(at) => {
                assert forall|k: int| 0 <= k < at + 1 implies keys[k] != key by {
                    if k > 0 {
                        assert(rest[k - 1] != key);
                    }
                }
            },
            None => {
                assert forall|k: int| 0 <= k < keys.len() implies keys[k] != key by {
                    if k > 0 {
                        assert(rest[k - 1] != key);
                    }
                }
            },
        }
    }
}

/// A position that holds the key, with none before it that does, is the
/// one that `first_key` finds.
pub proof fn lemma_first_key_is(keys: Seq<Seq<char>>, key: Seq<char>, at: int)
    requires
        0 <= at < keys.len(),
        keys[at] == key,
        forall|k: int| 0 <= k < at ==> keys[k] != key,
    ensures
        first_key(keys, key) == Some(at),
{
    lemma_first_key(keys, key);
}

/// No two of the keys are the same.
pub open spec fn distinct(keys: Seq<Seq<char>>) -> bool {
    forall|i: int, j: int| 0 <= i < j < keys.len() ==> #[trigger] keys[i] != #[trigger] keys[j]
}

/// A message type as the wire sees it: for each variant its wire name and
/// the names of its fields. A record is the list of the names of its fields.
pub struct VariantShape {
    pub wire_name: Seq<char>,
    pub fields: Seq<Seq<char>>,
}

/// A message as a value: which variant it is, and the values of its fields
/// in the order of their declaration.
pub struct MsgJson {
    pub variant: int,
    pub fields: Seq<Json>,
}

/// The keys of the entries of an object.
pub open spec fn keys_of(entries: Seq<(Seq<char>, Json)>) -> Seq<Seq<char>> {
    entries.map_values(|entry: (Seq<char>, Json)| entry.0)
}

/// Every key is one of the names.
pub open spec fn all_known(keys: Seq<Seq<char>>, names: Seq<Seq<char>>) -> bool {
    forall|k: int| 0 <= k < keys.len() ==> first_key(names, #[trigger] keys[k]) is Some
}

/// Every name is one of the keys.
pub open spec fn all_present(names: Seq<Seq<char>>, keys: Seq<Seq<char>>) -> bool {
    forall|j: int| 0 <= j < names.len() ==> first_key(keys, #[trigger] names[j]) is Some
}

/// The values of the fields `names` that the body of a message holds.
/// Decoding is strict: the body is an object that holds every field, each
/// once, and nothing else. The order of its entries is free.
pub open spec fn body_decoding(names: Seq<Seq<char>>, body: Json) -> Result<
    Seq<Json>,
    DecodeReason,
> {
    match body {
        Json::Object(entries) => {
            let keys = keys_of(entries);
            if !all_known(keys, names) {
                Err(DecodeReason::UnknownField)
            } else if !all_present(names, keys) {
                Err(DecodeReason::MissingField)
            } else if keys.len() != names.len() {
                Err(DecodeReason::DuplicateField)
            } else {
                Ok(Seq::new(names.len(), |j: int| entries[first_key(keys, names[j])->0].1))
            }
        },
        _ => Err(DecodeReason::BodyNotAnObject),
    }
}

/// The body that holds the values `fields` of the fields `names`.
pub open spec fn body_encoding(names: Seq<Seq<char>>, fields: Seq<Json>) -> Json {
    Json::Object(Seq::new(names.len(), |j: int| (names[j], fields[j])))
}

/// The wire names of the variants.
pub open spec fn wire_names(shape: Seq<VariantShape>) -> Seq<Seq<char>> {
    shape.map_values(|variant: VariantShape| variant.wire_name)
}

/// The message of the type `shape` that a payload holds: an object with
/// one entry, whose key is the wire name of a variant and whose value is
/// the body of that variant.
pub open spec fn decoding(shape: Seq<VariantShape>, payload: Json) -> Result<MsgJson, DecodeReason> {
    match payload {
        Json::Object(entries) => if entries.len() != 1 {
            Err(DecodeReason::NotOneVariant)
        } else {
            match first_key(wire_names(shape), entries[0].0) {
                None => Err(DecodeReason::UnknownVariant),
                Some(variant) => match body_decoding(shape[variant].fields, entries[0].1) {
                    Ok(fields) => Ok(MsgJson { variant, fields }),
                    Err(reason) => Err(reason),
                },
            }
        },
        _ => Err(DecodeReason::NotAnObject),
    }
}

/// The payload that holds a message of the type `shape`.
pub open spec fn encoding(shape: Seq<VariantShape>, msg: MsgJson) -> Json {
    Json::Object(
        seq![
            (
                shape[msg.variant].wire_name,
                body_encoding(shape[msg.variant].fields, msg.fields),
            ),
        ],
    )
}

/// A message type in which every variant has a wire name of its own and
/// no variant has two fields of one name.
pub open spec fn shape_wf(shape: Seq<VariantShape>) -> bool {
    &&& distinct(wire_names(shape))
    &&& forall|i: int| 0 <= i < shape.len() ==> distinct(#[trigger] shape[i].fields)
}

/// A message that the type `shape` has: one of its variants, with a value
/// for each field.
pub open spec fn fits(shape: Seq<VariantShape>, msg: MsgJson) -> bool {
    &&& 0 <= msg.variant < shape.len()
    &&& msg.fields.len() == shape[msg.variant].fields.len()
}

/// Decoding the body that was encoded for the fields gives the fields back.
pub proof fn lemma_body_round_trip(names: Seq<Seq<char>>, fields: Seq<Json>)
    requires
        distinct(names),
        fields.len() == names.len(),
    ensures
        body_decoding(names, body_encoding(names, fields)) == Ok::<Seq<Json>, DecodeReason>(
            fields,
        ),
{
    let entries = Seq::new(names.len(), |j: int| (names[j], fields[j]));
    let keys = keys_of(entries);
    assert(keys =~= names);
    assert forall|j: int| 0 <= j < names.len() implies first_key(names, #[trigger] names[j])
        == Some(j) by {
        lemma_first_key_is(names, names[j], j);
    }
    let decoded = Seq::new(names.len(), |j: int| entries[first_key(keys, names[j])->0].1);
    assert(decoded =~= fields);
}

/// Decoding the encoding of a message gives the message back.
pub proof fn lemma_round_trip(shape: Seq<VariantShape>, msg: MsgJson)
    requires
        shape_wf(shape),
        fits(shape, msg),
    ensures
        decoding(shape, encoding(shape, msg)) == Ok::<MsgJson, DecodeReason>(msg),
{
    let names = wire_names(shape);
    assert(names[msg.variant] == shape[msg.variant].wire_name);
    assert forall|k: int| 0 <= k < msg.variant implies #[trigger] names[k]
        != names[msg.variant] by {}
    lemma_first_key_is(names, names[msg.variant], msg.variant);
    lemma_body_round_trip(shape[msg.variant].fields, msg.fields);
}

/// The names of the fields of a generated type.
pub open spec fn def_names(fields: Seq<FieldDef>) -> Seq<Seq<char>> {
    fields.map_values(|field: FieldDef| field.name@)
}

/// The keys of the entries of an object.
pub open spec fn entry_keys(entries: Seq<(String, Value)>) -> Seq<Seq<char>> {
    entries.map_values(|entry: (String, Value)| entry.0@)
}

/// The values that a list refers to.
pub open spec fn values_of(fields: Seq<&Value>) -> Seq<Json> {
    fields.map_values(|value: &Value| value@)
}

/// The values of a list.
pub open spec fn owned_values(fields: Seq<Value>) -> Seq<Json> {
    fields.map_values(|value: Value| value@)
}

/// A generated variant as the wire sees it.
pub open spec fn variant_shape(def: VariantDef) -> VariantShape {
    VariantShape { wire_name: def.wire_name@, fields: def_names(def.fields@) }
}

/// Generated variants as the wire sees them.
pub open spec fn enum_shape(variants: Seq<VariantDef>) -> Seq<VariantShape> {
    variants.map_values(|variant: VariantDef| variant_shape(variant))
}

/// The position of the first field of the name `key`.
fn find_field(fields: &Vec<FieldDef>, key: &str) -> (found: Option<usize>)
    ensures
        match found {
            Some(at) => first_key(def_names(fields@), key@) == Some(at as int),
            None => first_key(def_names(fields@), key@) is None,
        },
{
    let ghost names = def_names(fields@);
    let mut i: usize = 0;
    while i < fields.len()
        invariant
            i <= fields@.len(),
            names == def_names(fields@),
            forall|k: int| 0 <= k < i ==> names[k] != key@,
        decreases fields@.len() - i,
    {
        if same_str(fields[i].name.as_str(), key) {
            proof {
                lemma_first_key_is(names, key@, i as int);
            }
            return Some(i);
        }
        i += 1;
    }
    proof {
        lemma_first_key(names, key@);
    }
    None
}

/// The position of the first entry under the key `key`.
fn find_entry(entries: &Vec<(String, Value)>, key: &str) -> (found: Option<usize>)
    ensures
        match found {
            Some(at) => first_key(entry_keys(entries@), key@) == Some(at as int),
            None => first_key(entry_keys(entries@), key@) is None,
        },
{
    let ghost keys = entry_keys(entries@);
    let mut i: usize = 0;
    while i < entries.len()
        invariant
            i <= entries@.len(),
            keys == entry_keys(entries@),
            forall|k: int| 0 <= k < i ==> keys[k] != key@,
        decreases entries@.len() - i,
    {
        if same_str(entries[i].0.as_str(), key) {
            proof {
                lemma_first_key_is(keys, key@, i as int);
            }
            return Some(i);
        }
        i += 1;
    }
    proof {
        lemma_first_key(keys, key@);
    }
    None
}

/// The position of the first variant of the wire name `key`.
fn find_variant(variants: &Vec<VariantDef>, key: &str) -> (found: Option<usize>)
    ensures
        match found {
            Some(at) => first_key(wire_names_of(variants@), key@) == Some(at as int),
            None => first_key(wire_names_of(variants@), key@) is None,
        },
{
    let ghost names = wire_names_of(variants@);
    let mut i: usize = 0;
    while i < variants.len()
        invariant
            i <= variants@.len(),
            names == wire_names_of(variants@),
            forall|k: int| 0 <= k < i ==> names[k] != key@,
        decreases variants@.len() - i,
    {
        if same_str(variants[i].wire_name.as_str(), key) {
            proof {
                lemma_first_key_is(names, key@, i as int);
            }
            return Some(i);
        }
        i += 1;
    }
    proof {
        lemma_first_key(names, key@);
    }
    None
}

/// The entries of an object as values.
pub open spec fn entries_view(entries: Seq<(String, Value)>) -> Seq<(Seq<char>, Json)> {
    Seq::new(entries.len(), |i: int| (entries[i].0@, entries[i].1@))
}

/// The view of an object is made of the views of its entries.
proof fn lemma_object_view(value: &Value)
    requires
        value is Object,
    ensures
        value@ == Json::Object(entries_view(value->Object_0@)),
        keys_of(entries_view(value->Object_0@)) == entry_keys(value->Object_0@),
{
    let entries = value->Object_0@;
    reveal_with_fuel(<Value as View>::view, 2);
    assert(value@ is Object);
    let viewed = value@->Object_0;
    assert(viewed.len() == entries.len());
    assert forall|i: int| 0 <= i < viewed.len() implies viewed[i] == entries_view(entries)[i] by {
        assert(viewed[i].0 == entries[i].0@);
        assert(viewed[i].1 == entries[i].1@);
    }
    assert(value@->Object_0 =~= entries_view(entries));
    assert(keys_of(entries_view(entries)) =~= entry_keys(entries));
}

/// Reads the values of the fields from the body of a message.
fn decode_body<'v>(fields: &Vec<FieldDef>, body: &'v Value) -> (r: Result<
    Vec<&'v Value>,
    DecodeReason,
>)
    ensures
        match r {
            Ok(found) => body_decoding(def_names(fields@), body@) == Ok::<Seq<Json>, DecodeReason>(
                values_of(found@),
            ),
            Err(reason) => body_decoding(def_names(fields@), body@) == Err::<Seq<Json>, DecodeReason>(
                reason,
            ),
        },
{
    match body {
        Value::Object(entries) => {
            let ghost names = def_names(fields@);
            let ghost keys = entry_keys(entries@);
            proof {
                lemma_object_view(body);
            }
            let mut k: usize = 0;
            while k < entries.len()
                invariant
                    k <= entries@.len(),
                    names == def_names(fields@),
                    keys == entry_keys(entries@),
                    body@ == Json::Object(entries_view(entries@)),
                    keys_of(entries_view(entries@)) == keys,
                    forall|c: int| 0 <= c < k ==> first_key(names, #[trigger] keys[c]) is Some,
                decreases entries@.len() - k,
            {
                if find_field(fields, entries[k].0.as_str()).is_none() {
                    assert(first_key(names, keys[k as int]) is None);
                    return Err(DecodeReason::UnknownField);
                }
                k += 1;
            }
            assert(all_known(keys, names));
            let mut found: Vec<&'v Value> = Vec::new();
            let mut j: usize = 0;
            while j < fields.len()
                invariant
                    j <= fields@.len(),
                    names == def_names(fields@),
                    keys == entry_keys(entries@),
                    body@ == Json::Object(entries_view(entries@)),
                    keys_of(entries_view(entries@)) == keys,
                    all_known(keys, names),
                    found@.len() == j,
                    forall|c: int|
                        0 <= c < j ==> {
                            &&& first_key(keys, #[trigger] names[c]) is Some
                            &&& 0 <= first_key(keys, names[c])->0 < entries@.len()
                            &&& found@[c] == &entries@[first_key(keys, names[c])->0].1
                        },
                decreases fields@.len() - j,
            {
                match find_entry(entries, fields[j].name.as_str()) {
                    None => {
                        assert(first_key(keys, names[j as int]) is None);
                        return Err(DecodeReason::MissingField);
                    },
                    Some(at) => {
                        proof {
                            lemma_first_key(keys, names[j as int]);
                        }
                        found.push(&entries[at].1);
                    },
                }
                j += 1;
            }
            assert(all_present(names, keys));
            if entries.len() != fields.len() {
                return Err(DecodeReason::DuplicateField);
            }
            proof {
                let math = entries_view(entries@);
                let decoded = Seq::new(
                    names.len(),
                    |c: int| math[first_key(keys_of(math), names[c])->0].1,
                );
                assert(values_of(found@) =~= decoded);
            }
            Ok(found)
        },
        _ => Err(DecodeReason::BodyNotAnObject),
    }
}

/// Writes the body that holds the values of the fields.
fn encode_body(fields: &Vec<FieldDef>, values: Vec<Value>) -> (body: Value)
    requires
        values@.len() == fields@.len(),
    ensures
        body@ == body_encoding(def_names(fields@), owned_values(values@)),
{
    let ghost names = def_names(fields@);
    let ghost given = owned_values(values@);
    let mut values = values;
    let mut entries: Vec<(String, Value)> = Vec::new();
    let mut j: usize = 0;
    while j < fields.len()
        invariant
            j <= fields@.len(),
            names == def_names(fields@),
            given.len() == fields@.len(),
            owned_values(values@) == given.skip(j as int),
            entries@.len() == j,
            forall|c: int|
                0 <= c < j ==> (#[trigger] entries@[c]).0@ == names[c] && entries@[c].1@
                    == given[c],
        decreases fields@.len() - j,
    {
        let ghost rest = values@;
        assert(owned_values(rest).len() == rest.len());
        assert(owned_values(rest)[0] == rest[0]@);
        let value = values.remove(0);
        assert(owned_values(values@) =~= given.skip(j + 1)) by {
            assert forall|c: int| 0 <= c < values@.len() implies owned_values(values@)[c]
                == given.skip(j + 1)[c] by {
                assert(owned_values(rest)[c + 1] == rest[c + 1]@);
            }
        }
        entries.push((fields[j].name.clone(), value));
        j += 1;
    }
    let body = Value::Object(entries);
    proof {
        lemma_object_view(&body);
        assert(entries_view(entries@) =~= Seq::new(names.len(), |c: int| (names[c], given[c])));
    }
    body
}

/// A message that was decoded: which variant it is, and the values of its
/// fields, which stay where the payload holds them.
#[derive(Debug)]
pub struct MessageRef<'v> {
    pub variant: usize,
    pub fields: Vec<&'v Value>,
}

impl<'v> View for MessageRef<'v> {
    type V = MsgJson;

    open spec fn view(&self) -> MsgJson {
        MsgJson { variant: self.variant as int, fields: values_of(self.fields@) }
    }
}

/// A message to send: which variant it is, and the values of its fields.
#[derive(Debug)]
pub struct Message {
    pub variant: usize,
    pub fields: Vec<Value>,
}

impl View for Message {
    type V = MsgJson;

    open spec fn view(&self) -> MsgJson {
        MsgJson { variant: self.variant as int, fields: owned_values(self.fields@) }
    }
}

/// Tells whether no two of the names are the same.
fn all_distinct(names: &Vec<&str>) -> (r: bool)
    ensures
        r == distinct(strs(names@)),
{
    let ghost keys = strs(names@);
    let mut j: usize = 0;
    while j < names.len()
        invariant
            j <= names@.len(),
            keys == strs(names@),
            forall|a: int, b: int| 0 <= a < b < j ==> #[trigger] keys[a] != #[trigger] keys[b],
        decreases names@.len() - j,
    {
        let mut i: usize = 0;
        while i < j
            invariant
                i <= j < names@.len(),
                keys == strs(names@),
                forall|a: int| 0 <= a < i ==> #[trigger] keys[a] != keys[j as int],
            decreases j - i,
        {
            if same_str(names[i], names[j]) {
                assert(keys[i as int] == keys[j as int]);
                return false;
            }
            i += 1;
        }
        j += 1;
    }
    true
}

/// The names of the fields of a generated type.
fn names_of_defs<'a>(fields: &'a Vec<FieldDef<'a>>) -> (names: Vec<&'a str>)
    ensures
        strs(names@) == def_names(fields@),
{
    let mut names: Vec<&'a str> = Vec::new();
    let mut i: usize = 0;
    while i < fields.len()
        invariant
            i <= fields@.len(),
            names@.len() == i,
            forall|k: int| 0 <= k < i ==> (#[trigger] names@[k])@ == fields@[k].name@,
        decreases fields@.len() - i,
    {
        names.push(fields[i].name.as_str());
        i += 1;
    }
    assert(strs(names@) =~= def_names(fields@));
    names
}

impl<'s> EnumDef<'s> {
    /// Tells whether every variant has a wire name of its own and no
    /// variant has two fields of one name: whether each message of the type
    /// can be told from its encoding.
    pub fn is_well_formed(&self) -> (r: bool)
        ensures
            r == shape_wf(self.shape()),
    {
        let names = self.messages();
        proof {
            assert(wire_names(self.shape()) =~= wire_names_of(self.variants@));
        }
        if !all_distinct(&names) {
            return false;
        }
        let mut i: usize = 0;
        while i < self.variants.len()
            invariant
                i <= self.variants@.len(),
                distinct(wire_names(self.shape())),
                forall|k: int| 0 <= k < i ==> distinct(#[trigger] self.shape()[k].fields),
            decreases self.variants@.len() - i,
        {
            let fields = names_of_defs(&self.variants[i].fields);
            if !all_distinct(&fields) {
                assert(!distinct(self.shape()[i as int].fields));
                return false;
            }
            i += 1;
        }
        true
    }

    /// The message type as the wire sees it.
    pub open spec fn shape(&self) -> Seq<VariantShape> {
        enum_shape(self.variants@)
    }

    /// Reads a message of this type from a payload.
    pub fn decode<'v>(&self, payload: &'v Value) -> (r: Result<MessageRef<'v>, DecodeReason>)
        ensures
            match r {
                Ok(message) => decoding(self.shape(), payload@) == Ok::<MsgJson, DecodeReason>(
                    message@,
                ),
                Err(reason) => decoding(self.shape(), payload@) == Err::<MsgJson, DecodeReason>(
                    reason,
                ),
            },
    {
        match payload {
            Value::Object(entries) => {
                proof {
                    lemma_object_view(payload);
                    assert(wire_names(self.shape()) =~= wire_names_of(self.variants@));
                }
                if entries.len() != 1 {
                    return Err(DecodeReason::NotOneVariant);
                }
                match find_variant(&self.variants, entries[0].0.as_str()) {
                    None => Err(DecodeReason::UnknownVariant),
                    Some(variant) => {
                        proof {
                            lemma_first_key(wire_names_of(self.variants@), entries@[0].0@);
                        }
                        match decode_body(&self.variants[variant].fields, &entries[0].1) {
                            Ok(fields) => Ok(MessageRef { variant, fields }),
                            Err(reason) => Err(reason),
                        }
                    },
                }
            },
            _ => Err(DecodeReason::NotAnObject),
        }
    }

    /// Writes the payload that holds a message of this type. There is none
    /// for a message that the type does not have.
    pub fn encode(&self, message: Message) -> (payload: Option<Value>)
        ensures
            payload is Some <==> fits(self.shape(), message@),
            payload matches Some(written) ==> written@ == encoding(self.shape(), message@),
    {
        if message.variant >= self.variants.len() {
            return None;
        }
        let def = &self.variants[message.variant];
        if message.fields.len() != def.fields.len() {
            return None;
        }
        let ghost sent = message@;
        let body = encode_body(&def.fields, message.fields);
        let mut entries: Vec<(String, Value)> = Vec::new();
        entries.push((def.wire_name.clone(), body));
        let written = Value::Object(entries);
        proof {
            lemma_object_view(&written);
            let shape = self.shape();
            assert(entries_view(entries@) =~= seq![
                (
                    shape[sent.variant].wire_name,
                    body_encoding(shape[sent.variant].fields, sent.fields),
                ),
            ]);
        }
        Some(written)
    }
}

impl<'s> StructDef<'s> {
    /// The names of the fields of the record.
    pub open spec fn shape(&self) -> Seq<Seq<char>> {
        def_names(self.fields@)
    }

    /// Tells whether the record has no two fields of one name: whether it
    /// can be told from its encoding.
    pub fn is_well_formed(&self) -> (r: bool)
        ensures
            r == distinct(self.shape()),
    {
        let fields = names_of_defs(&self.fields);
        all_distinct(&fields)
    }

    /// Reads the values of the fields of the record from a payload.
    pub fn decode<'v>(&self, payload: &'v Value) -> (r: Result<Vec<&'v Value>, DecodeReason>)
        ensures
            match r {
                Ok(fields) => body_decoding(self.shape(), payload@) == Ok::<
                    Seq<Json>,
                    DecodeReason,
                >(values_of(fields@)),
                Err(reason) => body_decoding(self.shape(), payload@) == Err::<
                    Seq<Json>,
                    DecodeReason,
                >(reason),
            },
    {
        decode_body(&self.fields, payload)
    }

    /// Writes the payload that holds the record with the given values of
    /// its fields. There is none where the values are not one for each field.
    pub fn encode(&self, fields: Vec<Value>) -> (payload: Option<Value>)
        ensures
            payload is Some <==> fields@.len() == self.fields@.len(),
            payload matches Some(written) ==> written@ == body_encoding(
                self.shape(),
                owned_values(fields@),
            ),
    {
        if fields.len() != self.fields.len() {
            return None;
        }
        Some(encode_body(&self.fields, fields))
    }
}

} // verus!
