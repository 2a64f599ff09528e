//! JSON and BSON values, and the conversion between them at the HTTP edge.
//!
//! Documents are stored as BSON because comparison needs typed values and a
//! defined cross-type order. JSON cannot express several of those types, so
//! the boundary uses the Extended JSON v2 conventions: `{"$oid": "..."}`,
//! `{"$date": ...}`, `{"$numberLong": "..."}`, `{"$numberDecimal": "..."}`.
//!
//! Plain JSON still works for everything expressible in it, so a caller who
//! does not care about the distinction never has to see this.

use vstd::prelude::*;
use vstd::string::*;

use crate::codec::{
    base64_bytes, base64_text, decimal128_text, decimal128_written, decode_base64, double_of,
    double_written, encode_base64, hex_digit, hex_text, json_text, nearest_double,
    object_id_bytes, object_id_hex, object_id_reads_back, parse_decimal128, parse_double, parse_object_id,
    parse_rfc3339, rfc3339_millis, show_decimal128, to_text,
};
use crate::error::{bad_request, ApiError, ApiErrorView};
use crate::text::{parse_i32, parse_i64, signed_number};

verus! {

/// A JSON request body whose refusals are the API's error envelope.
pub struct JsonBody<T>(pub T);

/// A JSON number. A whole number that is not negative is a `PosInt`.
#[derive(Clone, Copy, Debug, PartialEq, Eq, Structural)]
pub enum JsonNumber {
    PosInt(u64),
    NegInt(i64),
    /// The bits of an IEEE 754 double.
    Float(u64),
}

/// A JSON value. An object holds its members in the order they were put in.
#[derive(Debug, PartialEq, Eq)]
pub enum Json {
    Null,
    Bool(bool),
    Number(JsonNumber),
    String(String),
    Array(Vec<Json>),
    Object(Vec<(String, Json)>),
}

/// What a [`Json`] holds.
pub enum JsonView {
    Null,
    Bool(bool),
    Number(JsonNumber),
    String(Seq<char>),
    Array(Seq<JsonView>),
    Object(Seq<(Seq<char>, JsonView)>),
}

impl View for Json {
    type V = JsonView;

    open spec fn view(&self) -> JsonView
        decreases self,
    {
        match self {
            Json::Null => JsonView::Null,
            Json::Bool(b) => JsonView::Bool(*b),
            Json::Number(n) => JsonView::Number(*n),
            Json::String(s) => JsonView::String(s@),
            Json::Array(items) => JsonView::Array(
                Seq::new(
                    items@.len(),
                    |i: int|
                        if 0 <= i < items@.len() {
                            items@[i].view()
                        } else {
                            JsonView::Null
                        },
                ),
            ),
            Json::Object(members) => JsonView::Object(
                Seq::new(
                    members@.len(),
                    |i: int|
                        if 0 <= i < members@.len() {
                            (members@[i].0@, members@[i].1.view())
                        } else {
                            (Seq::empty(), JsonView::Null)
                        },
                ),
            ),
        }
    }
}

/// The views of a list of values.
pub open spec fn json_items(items: Seq<Json>) -> Seq<JsonView> {
    Seq::new(items.len(), |i: int| items[i]@)
}

/// The views of a list of members.
pub open spec fn json_members(members: Seq<(String, Json)>) -> Seq<(Seq<char>, JsonView)> {
    Seq::new(members.len(), |i: int| (members[i].0@, members[i].1@))
}

/// An array's view is its items' views, an object's its members'.
pub broadcast proof fn json_view(v: Json)
    ensures
        (v matches Json::Array(items) ==> #[trigger] v@ == JsonView::Array(json_items(items@))),
        (v matches Json::Object(members) ==> v@ == JsonView::Object(json_members(members@))),
{
    reveal_with_fuel(<Json as View>::view, 2);
    match v {
        Json::Array(items) => {
            assert(v@->Array_0 =~= json_items(items@));
        },
        Json::Object(members) => {
            assert(v@->Object_0 =~= json_members(members@));
        },
        _ => {},
    }
}

/// A list of members, in the order they were put in.
pub type Document = Vec<(String, Bson)>;

/// A BSON value.
#[derive(Debug, PartialEq, Eq)]
pub enum Bson {
    /// The bits of an IEEE 754 double.
    Double(u64),
    String(String),
    Array(Vec<Bson>),
    Document(Document),
    Boolean(bool),
    Null,
    RegularExpression { pattern: String, options: String },
    JavaScriptCode(String),
    JavaScriptCodeWithScope { code: String, scope: Document },
    Int32(i32),
    Int64(i64),
    Timestamp { time: u32, increment: u32 },
    Binary { subtype: u8, bytes: Vec<u8> },
    ObjectId([u8; 12]),
    /// Milliseconds since the epoch.
    DateTime(i64),
    Symbol(String),
    Decimal128([u8; 16]),
    Undefined,
    MaxKey,
    MinKey,
    DbPointer,
}

/// What a [`Bson`] holds.
pub enum BsonView {
    Double(u64),
    String(Seq<char>),
    Array(Seq<BsonView>),
    Document(Seq<(Seq<char>, BsonView)>),
    Boolean(bool),
    Null,
    RegularExpression { pattern: Seq<char>, options: Seq<char> },
    JavaScriptCode(Seq<char>),
    JavaScriptCodeWithScope { code: Seq<char>, scope: Seq<(Seq<char>, BsonView)> },
    Int32(i32),
    Int64(i64),
    Timestamp { time: u32, increment: u32 },
    Binary { subtype: u8, bytes: Seq<u8> },
    ObjectId(Seq<u8>),
    DateTime(i64),
    Symbol(Seq<char>),
    Decimal128(Seq<u8>),
    Undefined,
    MaxKey,
    MinKey,
    DbPointer,
}

impl View for Bson {
    type V = BsonView;

    open spec fn view(&self) -> BsonView
        decreases self,
    {
        match self {
            Bson::Double(bits) => BsonView::Double(*bits),
            Bson::String(s) => BsonView::String(s@),
            Bson::Array(items) => BsonView::Array(
                Seq::new(
                    items@.len(),
                    |i: int|
                        if 0 <= i < items@.len() {
                            items@[i].view()
                        } else {
                            BsonView::Null
                        },
                ),
            ),
            Bson::Document(members) => BsonView::Document(
                Seq::new(
                    members@.len(),
                    |i: int|
                        if 0 <= i < members@.len() {
                            (members@[i].0@, members@[i].1.view())
                        } else {
                            (Seq::empty(), BsonView::Null)
                        },
                ),
            ),
            Bson::Boolean(b) => BsonView::Boolean(*b),
            Bson::Null => BsonView::Null,
            Bson::RegularExpression { pattern, options } => BsonView::RegularExpression {
                pattern: pattern@,
                options: options@,
            },
            Bson::JavaScriptCode(code) => BsonView::JavaScriptCode(code@),
            Bson::JavaScriptCodeWithScope { code, scope } => BsonView::JavaScriptCodeWithScope {
                code: code@,
                scope: Seq::new(
                    scope@.len(),
                    |i: int|
                        if 0 <= i < scope@.len() {
                            (scope@[i].0@, scope@[i].1.view())
                        } else {
                            (Seq::empty(), BsonView::Null)
                        },
                ),
            },
            Bson::Int32(n) => BsonView::Int32(*n),
            Bson::Int64(n) => BsonView::Int64(*n),
            Bson::Timestamp { time, increment } => BsonView::Timestamp {
                time: *time,
                increment: *increment,
            },
            Bson::Binary { subtype, bytes } => BsonView::Binary {
                subtype: *subtype,
                bytes: bytes@,
            },
            Bson::ObjectId(bytes) => BsonView::ObjectId(bytes@),
            Bson::DateTime(ms) => BsonView::DateTime(*ms),
            Bson::Symbol(s) => BsonView::Symbol(s@),
            Bson::Decimal128(bytes) => BsonView::Decimal128(bytes@),
            Bson::Undefined => BsonView::Undefined,
            Bson::MaxKey => BsonView::MaxKey,
            Bson::MinKey => BsonView::MinKey,
            Bson::DbPointer => BsonView::DbPointer,
        }
    }
}

/// The views of a list of values.
pub open spec fn bson_items(items: Seq<Bson>) -> Seq<BsonView> {
    Seq::new(items.len(), |i: int| items[i]@)
}

/// The views of a document's members.
pub open spec fn bson_members(members: Seq<(String, Bson)>) -> Seq<(Seq<char>, BsonView)> {
    Seq::new(members.len(), |i: int| (members[i].0@, members[i].1@))
}

/// An array's view is its items' views, a document's its members'.
pub broadcast proof fn bson_view(v: Bson)
    ensures
        (v matches Bson::Array(items) ==> #[trigger] v@ == BsonView::Array(bson_items(items@))),
        (v matches Bson::Document(members) ==> v@ == BsonView::Document(bson_members(members@))),
        (v matches Bson::JavaScriptCodeWithScope { code, scope } ==> v@ == (
        BsonView::JavaScriptCodeWithScope { code: code@, scope: bson_members(scope@) })),
{
    reveal_with_fuel(<Bson as View>::view, 2);
    match v {
        Bson::Array(items) => {
            assert(v@->Array_0 =~= bson_items(items@));
        },
        Bson::Document(members) => {
            assert(v@->Document_0 =~= bson_members(members@));
        },
        Bson::JavaScriptCodeWithScope { code, scope } => {
            assert(v@->scope =~= bson_members(scope@));
        },
        _ => {},
    }
}

/// Where the first member named `key` stands; the length where there is none.
pub open spec fn key_index<V>(members: Seq<(Seq<char>, V)>, key: Seq<char>) -> int
    decreases members.len(),
{
    if members.len() == 0 {
        0
    } else if members[0].0 == key {
        0
    } else {
        1 + key_index(members.skip(1), key)
    }
}

/// The value of the first member named `key`.
pub open spec fn lookup<V>(members: Seq<(Seq<char>, V)>, key: Seq<char>) -> Option<V> {
    let i = key_index(members, key);
    if i < members.len() {
        Some(members[i].1)
    } else {
        None
    }
}

/// `members` with `key` holding `value`: in the place it had, or at the end.
pub open spec fn put<V>(members: Seq<(Seq<char>, V)>, key: Seq<char>, value: V) -> Seq<
    (Seq<char>, V),
> {
    let i = key_index(members, key);
    if i < members.len() {
        members.update(i, (key, value))
    } else {
        members.push((key, value))
    }
}

/// No two members have one name.
pub open spec fn distinct_keys<V>(members: Seq<(Seq<char>, V)>) -> bool {
    forall|i: int, j: int|
        0 <= i < j < members.len() ==> #[trigger] members[i].0 != #[trigger] members[j].0
}

pub proof fn lemma_key_index<V>(members: Seq<(Seq<char>, V)>, key: Seq<char>)
    ensures
        0 <= key_index(members, key) <= members.len(),
        key_index(members, key) < members.len() ==> members[key_index(members, key)].0 == key,
        forall|i: int| 0 <= i < key_index(members, key) ==> #[trigger] members[i].0 != key,
    decreases members.len(),
{
    if members.len() > 0 && members[0].0 != key {
        lemma_key_index(members.skip(1), key);
        let rest = members.skip(1);
        assert forall|i: int| 0 <= i < key_index(members, key) implies #[trigger] members[i].0
            != key by {
            if i > 0 {
                assert(rest[i - 1].0 != key);
            }
        }
    }
}

/// The index is the only place that has the key, with none before it.
pub proof fn lemma_key_index_unique<V>(members: Seq<(Seq<char>, V)>, key: Seq<char>, at: int)
    requires
        0 <= at <= members.len(),
        forall|i: int| 0 <= i < at ==> #[trigger] members[i].0 != key,
        at < members.len() ==> members[at].0 == key,
    ensures
        key_index(members, key) == at,
{
    lemma_key_index(members, key);
    let k = key_index(members, key);
    if k < at {
        assert(members[k].0 != key);
    } else if at < k {
        assert(members[at].0 != key);
    }
}

/// A list of members with its names viewed and its values as they are.
pub open spec fn named<V>(members: Seq<(String, V)>) -> Seq<(Seq<char>, V)> {
    Seq::new(members.len(), |i: int| (members[i].0@, members[i].1))
}

/// Where the first member named `key` stands; the length where there is none.
pub fn find_key<V>(members: &Vec<(String, V)>, key: &str) -> (at: usize)
    ensures
        at == key_index(named(members@), key@),
        at <= members@.len(),
{
    let mut i: usize = 0;
    while i < members.len()
        invariant
            i <= members.len(),
            forall|k: int| 0 <= k < i ==> #[trigger] named(members@)[k].0 != key@,
        decreases members.len() - i,
    {
        if *members[i].0.as_str() == *key {
            proof {
                lemma_key_index_unique(named(members@), key@, i as int);
            }
            return i;
        }
        i = i + 1;
    }
    proof {
        lemma_key_index_unique(named(members@), key@, i as int);
    }
    i
}

/// Put `value` under `key`: in the place it had, or at the end.
pub fn insert<V>(members: &mut Vec<(String, V)>, key: String, value: V)
    ensures
        named(final(members)@) == put(named(old(members)@), key@, value),
{
    let at: usize = find_key(members, key.as_str());
    let ghost before = named(members@);
    let ghost view = key@;
    proof {
        lemma_key_index(before, view);
    }
    if at < members.len() {
        members[at].1 = value;
        assert(named(members@) =~= put(before, view, value));
    } else {
        members.push((key, value));
        assert(named(members@) =~= put(before, view, value));
    }
}

/// Whether the double of these bits is neither infinite nor a NaN.
pub open spec fn finite(bits: u64) -> bool {
    (bits >> 52u64) & 0x7ff != 0x7ff
}

/// What every JSON value keeps: an object's names are distinct, a double is
/// finite, and a whole number is held by its sign.
pub open spec fn valid(v: JsonView) -> bool
    decreases v,
{
    match v {
        JsonView::Number(JsonNumber::NegInt(n)) => n < 0,
        JsonView::Number(JsonNumber::Float(bits)) => finite(bits),
        JsonView::Array(items) => forall|i: int|
            0 <= i < items.len() ==> valid(#[trigger] items[i]),
        JsonView::Object(members) => distinct_keys(members) && forall|i: int|
            0 <= i < members.len() ==> valid((#[trigger] members[i]).1),
        _ => true,
    }
}

/// The BSON of a JSON number: integers stay integers, as small as they fit,
/// and everything else is a double.
pub open spec fn number_bson(n: JsonNumber) -> BsonView {
    match n {
        JsonNumber::PosInt(u) => if u <= i32::MAX {
            BsonView::Int32(u as i32)
        } else if u <= i64::MAX {
            BsonView::Int64(u as i64)
        } else {
            BsonView::Double(nearest_double(u))
        },
        JsonNumber::NegInt(i) => if i32::MIN <= i <= i32::MAX {
            BsonView::Int32(i as i32)
        } else {
            BsonView::Int64(i)
        },
        JsonNumber::Float(bits) => BsonView::Double(bits),
    }
}

/// A JSON number as a signed 64-bit integer, where it is one.
pub open spec fn whole_number(n: JsonNumber) -> Option<i64> {
    match n {
        JsonNumber::PosInt(u) => if u <= i64::MAX {
            Some(u as i64)
        } else {
            None
        },
        JsonNumber::NegInt(i) => Some(i),
        JsonNumber::Float(_) => None,
    }
}

/// A refusal of a wrapper that does not hold what its name promises.
pub open spec fn bad_wrapper(name: Seq<char>, value: JsonView) -> ApiErrorView {
    bad_request("invalid "@ + name + ": "@ + json_text(value))
}

/// The wrapper's value, or the refusal of what it holds.
pub open spec fn unwrapped(
    name: Seq<char>,
    value: JsonView,
    read: Option<BsonView>,
) -> Result<Option<BsonView>, ApiErrorView> {
    match read {
        Some(b) => Ok(Some(b)),
        None => Err(bad_wrapper(name, value)),
    }
}

/// The signed number a JSON string writes, where it is from `low` to `high`.
pub open spec fn number_in_text(value: JsonView, low: int, high: int) -> Option<int> {
    match value {
        JsonView::String(s) => match signed_number(s) {
            Some(n) => if low <= n <= high {
                Some(n)
            } else {
                None
            },
            None => None,
        },
        _ => None,
    }
}

/// The object id a `$oid` holds.
pub open spec fn oid_in(value: JsonView) -> Option<BsonView> {
    match value {
        JsonView::String(s) => match object_id_bytes(s) {
            Some(bytes) => Some(BsonView::ObjectId(bytes)),
            None => None,
        },
        _ => None,
    }
}

/// The date a `$date` holds: milliseconds since the epoch, an RFC 3339 text,
/// or milliseconds in a `$numberLong`.
pub open spec fn date_in(value: JsonView) -> Option<BsonView> {
    let ms = match value {
        JsonView::Number(n) => whole_number(n),
        JsonView::String(s) => rfc3339_millis(s),
        JsonView::Object(inner) => match lookup(inner, "$numberLong"@) {
            Some(held) => match number_in_text(held, i64::MIN as int, i64::MAX as int) {
                Some(n) => Some(n as i64),
                None => None,
            },
            None => None,
        },
        _ => None,
    };
    match ms {
        Some(ms) => Some(BsonView::DateTime(ms)),
        None => None,
    }
}

/// The bytes a `$binary` holds. Every binary read here is generic.
pub open spec fn binary_in(value: JsonView) -> Option<BsonView> {
    match value {
        JsonView::Object(inner) => match lookup(inner, "base64"@) {
            Some(JsonView::String(s)) => match base64_bytes(s) {
                Some(bytes) => Some(BsonView::Binary { subtype: 0, bytes }),
                None => None,
            },
            _ => None,
        },
        _ => None,
    }
}

/// The value an Extended JSON wrapper stands for: none where the object is no
/// wrapper, and a refusal where a wrapper holds something else than its name
/// promises.
pub open spec fn wrapper_bson(members: Seq<(Seq<char>, JsonView)>) -> Result<
    Option<BsonView>,
    ApiErrorView,
> {
    if members.len() != 1 {
        Ok(None)
    } else {
        let (name, value) = members[0];
        if name == "$oid"@ {
            unwrapped(name, value, oid_in(value))
        } else if name == "$date"@ {
            unwrapped(name, value, date_in(value))
        } else if name == "$numberLong"@ {
            unwrapped(
                name,
                value,
                match number_in_text(value, i64::MIN as int, i64::MAX as int) {
                    Some(n) => Some(BsonView::Int64(n as i64)),
                    None => None,
                },
            )
        } else if name == "$numberInt"@ {
            unwrapped(
                name,
                value,
                match number_in_text(value, i32::MIN as int, i32::MAX as int) {
                    Some(n) => Some(BsonView::Int32(n as i32)),
                    None => None,
                },
            )
        } else if name == "$numberDouble"@ {
            unwrapped(
                name,
                value,
                match value {
                    JsonView::String(s) => match double_written(s) {
                        Some(bits) => Some(BsonView::Double(bits)),
                        None => None,
                    },
                    _ => None,
                },
            )
        } else if name == "$numberDecimal"@ {
            unwrapped(
                name,
                value,
                match value {
                    JsonView::String(s) => match decimal128_written(s) {
                        Some(bytes) => Some(BsonView::Decimal128(bytes)),
                        None => None,
                    },
                    _ => None,
                },
            )
        } else if name == "$binary"@ {
            unwrapped(name, value, binary_in(value))
        } else if name == "$minKey"@ {
            Ok(Some(BsonView::MinKey))
        } else if name == "$maxKey"@ {
            Ok(Some(BsonView::MaxKey))
        } else {
            Ok(None)
        }
    }
}

/// The BSON of a JSON value, Extended JSON wrappers honoured; or the refusal
/// of the first part that has none.
pub open spec fn bson_of(v: JsonView) -> Result<BsonView, ApiErrorView>
    decreases v,
{
    match v {
        JsonView::Null => Ok(BsonView::Null),
        JsonView::Bool(b) => Ok(BsonView::Boolean(b)),
        JsonView::Number(n) => Ok(number_bson(n)),
        JsonView::String(s) => Ok(BsonView::String(s)),
        JsonView::Array(items) => match bson_of_items(items) {
            Ok(converted) => Ok(BsonView::Array(converted)),
            Err(e) => Err(e),
        },
        JsonView::Object(members) => match wrapper_bson(members) {
            Err(e) => Err(e),
            Ok(Some(b)) => Ok(b),
            Ok(None) => match bson_of_members(members) {
                Ok(converted) => Ok(BsonView::Document(converted)),
                Err(e) => Err(e),
            },
        },
    }
}

/// Each item's BSON, or the refusal of the first that has none.
pub open spec fn bson_of_items(items: Seq<JsonView>) -> Result<Seq<BsonView>, ApiErrorView>
    decreases items,
{
    if items.len() == 0 {
        Ok(Seq::empty())
    } else {
        match bson_of_items(items.drop_last()) {
            Err(e) => Err(e),
            Ok(so_far) => match bson_of(items.last()) {
                Err(e) => Err(e),
                Ok(b) => Ok(so_far.push(b)),
            },
        }
    }
}

/// Each member's BSON under its name, or the refusal of the first that has
/// none.
pub open spec fn bson_of_members(members: Seq<(Seq<char>, JsonView)>) -> Result<
    Seq<(Seq<char>, BsonView)>,
    ApiErrorView,
>
    decreases members,
{
    if members.len() == 0 {
        Ok(Seq::empty())
    } else {
        match bson_of_members(members.drop_last()) {
            Err(e) => Err(e),
            Ok(so_far) => match bson_of(members.last().1) {
                Err(e) => Err(e),
                Ok(b) => Ok(put(so_far, members.last().0, b)),
            },
        }
    }
}

/// JSON numbers carry no type, so integers stay integers and everything else
/// becomes a double. Widening whole numbers to a double would silently lose
/// precision above 2^53.
fn number_to_bson(n: JsonNumber) -> (b: Bson)
    ensures
        b@ == number_bson(n),
{
    match n {
        JsonNumber::PosInt(u) => if u <= 0x7fff_ffff {
            Bson::Int32(u as i32)
        } else if u <= 0x7fff_ffff_ffff_ffff {
            Bson::Int64(u as i64)
        } else {
            Bson::Double(double_of(u))
        },
        JsonNumber::NegInt(i) => if -0x8000_0000 <= i && i <= 0x7fff_ffff {
            Bson::Int32(i as i32)
        } else {
            Bson::Int64(i)
        },
        JsonNumber::Float(bits) => Bson::Double(bits),
    }
}

/// The refusal of a wrapper that does not hold what its name promises.
fn refuse_wrapper(name: &str, value: &Json) -> (e: ApiError)
    requires
        valid(value@),
    ensures
        e@ == bad_wrapper(name@, value@),
{
    let mut message = "invalid ".to_owned();
    message.append(name);
    message.append(": ");
    message.append(to_text(value).as_str());
    ApiError::bad_request(message.as_str())
}

/// The date a `$date` holds.
fn read_date(value: &Json) -> (date: Option<Bson>)
    ensures
        date is Some <==> date_in(value@) is Some,
        date matches Some(b) ==> date_in(value@) == Some(b@),
{
    broadcast use json_view;

    let ms = match value {
        Json::Number(JsonNumber::PosInt(u)) => if *u <= 0x7fff_ffff_ffff_ffff {
            Some(*u as i64)
        } else {
            None
        },
        Json::Number(JsonNumber::NegInt(i)) => Some(*i),
        Json::String(s) => parse_rfc3339(s.as_str()),
        Json::Object(inner) => {
            let at: usize = find_key(inner, "$numberLong");
            proof {
                lemma_json_key_index(inner@, "$numberLong"@);
            }
            if at < inner.len() {
                match &inner[at].1 {
                    Json::String(s) => parse_i64(s.as_str()),
                    _ => None,
                }
            } else {
                None
            }
        },
        _ => None,
    };
    match ms {
        Some(ms) => Some(Bson::DateTime(ms)),
        None => None,
    }
}

/// The bytes a `$binary` holds.
fn read_binary(value: &Json) -> (binary: Option<Bson>)
    ensures
        binary is Some <==> binary_in(value@) is Some,
        binary matches Some(b) ==> binary_in(value@) == Some(b@),
{
    broadcast use json_view;

    match value {
        Json::Object(inner) => {
            let at: usize = find_key(inner, "base64");
            proof {
                lemma_json_key_index(inner@, "base64"@);
            }
            if at < inner.len() {
                match &inner[at].1 {
                    Json::String(s) => match decode_base64(s.as_str()) {
                        Some(bytes) => Some(Bson::Binary { subtype: 0, bytes }),
                        None => None,
                    },
                    _ => None,
                }
            } else {
                None
            }
        },
        _ => None,
    }
}

pub(crate) proof fn lemma_json_key_index(members: Seq<(String, Json)>, key: Seq<char>)
    ensures
        key_index(named(members), key) == key_index(json_members(members), key),
        0 <= key_index(named(members), key) <= members.len(),
{
    let a = named(members);
    let b = json_members(members);
    lemma_key_index(a, key);
    let k = key_index(a, key);
    assert forall|i: int| 0 <= i < k implies #[trigger] b[i].0 != key by {
        assert(a[i].0 != key);
    }
    lemma_key_index_unique(b, key, k);
}

/// Recognize an Extended JSON wrapper object.
fn extended_json(members: &Vec<(String, Json)>) -> (read: Result<Option<Bson>, ApiError>)
    requires
        valid(JsonView::Object(json_members(members@))),
    ensures
        match (read, wrapper_bson(json_members(members@))) {
            (Ok(Some(b)), Ok(Some(expected))) => b@ == expected,
            (Ok(None), Ok(None)) => true,
            (Err(e), Err(expected)) => e@ == expected,
            _ => false,
        },
{
    broadcast use json_view;

    if members.len() != 1 {
        return Ok(None);
    }
    let name = members[0].0.as_str();
    let value = &members[0].1;
    assert(json_members(members@)[0] == (name@, value@));
    let read: Option<Bson> = if *name == *"$oid" {
        match value {
            Json::String(s) => match parse_object_id(s.as_str()) {
                Some(bytes) => Some(Bson::ObjectId(bytes)),
                None => None,
            },
            _ => None,
        }
    } else if *name == *"$date" {
        read_date(value)
    } else if *name == *"$numberLong" {
        match value {
            Json::String(s) => match parse_i64(s.as_str()) {
                Some(n) => Some(Bson::Int64(n)),
                None => None,
            },
            _ => None,
        }
    } else if *name == *"$numberInt" {
        match value {
            Json::String(s) => match parse_i32(s.as_str()) {
                Some(n) => Some(Bson::Int32(n)),
                None => None,
            },
            _ => None,
        }
    } else if *name == *"$numberDouble" {
        match value {
            Json::String(s) => match parse_double(s.as_str()) {
                Some(bits) => Some(Bson::Double(bits)),
                None => None,
            },
            _ => None,
        }
    } else if *name == *"$numberDecimal" {
        match value {
            Json::String(s) => match parse_decimal128(s.as_str()) {
                Some(bytes) => Some(Bson::Decimal128(bytes)),
                None => None,
            },
            _ => None,
        }
    } else if *name == *"$binary" {
        read_binary(value)
    } else if *name == *"$minKey" {
        Some(Bson::MinKey)
    } else if *name == *"$maxKey" {
        Some(Bson::MaxKey)
    } else {
        return Ok(None);
    };
    match read {
        Some(b) => Ok(Some(b)),
        None => Err(refuse_wrapper(name, value)),
    }
}

/// Convert a JSON value into BSON, honouring Extended JSON wrappers.
pub fn json_to_bson(value: &Json) -> (converted: Result<Bson, ApiError>)
    requires
        valid(value@),
    ensures
        match (converted, bson_of(value@)) {
            (Ok(b), Ok(expected)) => b@ == expected,
            (Err(e), Err(expected)) => e@ == expected,
            _ => false,
        },
    decreases value,
{
    broadcast use {json_view, bson_view};

    match value {
        Json::Null => Ok(Bson::Null),
        Json::Bool(b) => Ok(Bson::Boolean(*b)),
        Json::String(s) => Ok(Bson::String(s.clone())),
        Json::Number(n) => Ok(number_to_bson(*n)),
        Json::Array(items) => {
            let ghost view = json_items(items@);
            let mut converted: Vec<Bson> = Vec::new();
            let mut i: usize = 0;
            assert forall|k: int| 0 <= k < items.len() implies valid((#[trigger] items@[k])@) by {
                assert(valid(view[k]));
            }
            assert(bson_items(converted@) =~= Seq::empty());
            while i < items.len()
                invariant
                    i <= items.len(),
                    decreases_to!(value => items),
                    view == json_items(items@),
                    value@ == JsonView::Array(view),
                    forall|k: int| 0 <= k < items.len() ==> valid((#[trigger] items@[k])@),
                    bson_of_items(view.take(i as int)) == Ok::<Seq<BsonView>, ApiErrorView>(
                        bson_items(converted@),
                    ),
                decreases items.len() - i,
            {
                proof {
                    assert(view.take(i + 1).drop_last() =~= view.take(i as int));
                    assert(view.take(i + 1).last() == items@[i as int]@);
                }
                match json_to_bson(&items[i]) {
                    Ok(b) => {
                        let ghost before = converted@;
                        converted.push(b);
                        assert(bson_items(converted@) =~= bson_items(before).push(b@));
                    },
                    Err(e) => {
                        proof {
                            lemma_first_refusal_of_items(view, i + 1);
                        }
                        return Err(e);
                    },
                }
                i = i + 1;
            }
            assert(view.take(i as int) =~= view);
            Ok(Bson::Array(converted))
        },
        Json::Object(members) => {
            match extended_json(members) {
                Err(e) => return Err(e),
                Ok(Some(b)) => return Ok(b),
                Ok(None) => {},
            }
            let ghost view = json_members(members@);
            let mut doc: Document = Vec::new();
            let mut i: usize = 0;
            assert(forall|k: int|
                0 <= k < members.len() ==> (#[trigger] members@[k]).1@ == view[k].1);
            assert(bson_members(doc@) =~= Seq::empty());
            while i < members.len()
                invariant
                    i <= members.len(),
                    decreases_to!(value => members),
                    view == json_members(members@),
                    value@ == JsonView::Object(view),
                    wrapper_bson(view) == Ok::<Option<BsonView>, ApiErrorView>(None),
                    forall|k: int| 0 <= k < members.len() ==> valid((#[trigger] members@[k]).1@),
                    bson_of_members(view.take(i as int)) == Ok::<
                        Seq<(Seq<char>, BsonView)>,
                        ApiErrorView,
                    >(bson_members(doc@)),
                decreases members.len() - i,
            {
                proof {
                    assert(view.take(i + 1).drop_last() =~= view.take(i as int));
                    assert(view.take(i + 1).last() == (
                        members@[i as int].0@,
                        members@[i as int].1@,
                    ));
                }
                match json_to_bson(&members[i].1) {
                    Ok(b) => {
                        let ghost before = doc@;
                        let key = members[i].0.clone();
                        insert(&mut doc, key, b);
                        proof {
                            lemma_bson_put(before, doc@, key@, b);
                        }
                    },
                    Err(e) => {
                        proof {
                            lemma_first_refusal_of_members(view, i + 1);
                        }
                        return Err(e);
                    },
                }
                i = i + 1;
            }
            assert(view.take(i as int) =~= view);
            Ok(Bson::Document(doc))
        },
    }
}

/// Members put under a name are seen there in the view.
pub(crate) proof fn lemma_bson_put(
    before: Seq<(String, Bson)>,
    after: Seq<(String, Bson)>,
    key: Seq<char>,
    value: Bson,
)
    requires
        named(after) == put(named(before), key, value),
    ensures
        bson_members(after) == put(bson_members(before), key, value@),
{
    let a = named(before);
    let b = bson_members(before);
    lemma_key_index(a, key);
    let k = key_index(a, key);
    assert forall|i: int| 0 <= i < k implies #[trigger] b[i].0 != key by {
        assert(a[i].0 != key);
    }
    lemma_key_index_unique(b, key, k);
    assert(named(after).len() == after.len());
    assert forall|i: int| 0 <= i < after.len() implies bson_members(after)[i] == put(
        b,
        key,
        value@,
    )[i] by {
        assert(named(after)[i] == (after[i].0@, after[i].1));
        if i < before.len() {
            assert(a[i] == (before[i].0@, before[i].1));
        }
    }
    assert(bson_members(after) =~= put(b, key, value@));
}

proof fn lemma_first_refusal_of_items(items: Seq<JsonView>, n: int)
    requires
        0 <= n <= items.len(),
        bson_of_items(items.take(n)) is Err,
    ensures
        bson_of_items(items) == bson_of_items(items.take(n)),
    decreases items.len() - n,
{
    if n < items.len() {
        assert(items.take(n + 1).drop_last() =~= items.take(n));
        lemma_first_refusal_of_items(items, n + 1);
    } else {
        assert(items.take(n) =~= items);
    }
}

proof fn lemma_first_refusal_of_members(members: Seq<(Seq<char>, JsonView)>, n: int)
    requires
        0 <= n <= members.len(),
        bson_of_members(members.take(n)) is Err,
    ensures
        bson_of_members(members) == bson_of_members(members.take(n)),
    decreases members.len() - n,
{
    if n < members.len() {
        assert(members.take(n + 1).drop_last() =~= members.take(n));
        lemma_first_refusal_of_members(members, n + 1);
    } else {
        assert(members.take(n) =~= members);
    }
}

/// Convert a JSON object into a BSON document, rejecting anything else.
pub fn json_to_document(value: &Json) -> (converted: Result<Document, ApiError>)
    requires
        valid(value@),
    ensures
        match (converted, bson_of(value@)) {
            (Ok(doc), Ok(BsonView::Document(members))) => bson_members(doc@) == members,
            (Err(e), Ok(b)) => !(b is Document) && e@ == bad_request("expected a JSON object"@),
            (Err(e), Err(expected)) => e@ == expected,
            _ => false,
        },
{
    broadcast use bson_view;

    match json_to_bson(value) {
        Ok(Bson::Document(doc)) => Ok(doc),
        Ok(_) => Err(ApiError::bad_request("expected a JSON object")),
        Err(e) => Err(e),
    }
}

/// An object of one member.
pub open spec fn tagged(name: Seq<char>, value: JsonView) -> JsonView {
    JsonView::Object(seq![(name, value)])
}

/// A whole number in JSON.
pub open spec fn json_integer(n: int) -> JsonView {
    if n >= 0 {
        JsonView::Number(JsonNumber::PosInt(n as u64))
    } else {
        JsonView::Number(JsonNumber::NegInt(n as i64))
    }
}

/// The name of a double that is not finite.
pub open spec fn double_name(bits: u64) -> Seq<char> {
    if bits & 0xf_ffff_ffff_ffff != 0 {
        "NaN"@
    } else if bits >> 63u64 == 1 {
        "-inf"@
    } else {
        "inf"@
    }
}

/// The JSON of a BSON value, in Extended JSON for the types JSON lacks.
pub open spec fn json_of(b: BsonView) -> JsonView
    decreases b,
{
    match b {
        BsonView::Null | BsonView::Undefined | BsonView::DbPointer => JsonView::Null,
        BsonView::Boolean(b) => JsonView::Bool(b),
        BsonView::String(s) => JsonView::String(s),
        BsonView::Symbol(s) => JsonView::String(s),
        BsonView::Int32(n) => json_integer(n as int),
        BsonView::Int64(n) => json_integer(n as int),
        BsonView::Double(bits) => if finite(bits) {
            JsonView::Number(JsonNumber::Float(bits))
        } else {
            tagged("$numberDouble"@, JsonView::String(double_name(bits)))
        },
        BsonView::Array(items) => JsonView::Array(json_of_items(items)),
        BsonView::Document(members) => JsonView::Object(json_of_members(members)),
        BsonView::ObjectId(bytes) => tagged("$oid"@, JsonView::String(hex_text(bytes))),
        BsonView::DateTime(ms) => tagged("$date"@, json_integer(ms as int)),
        BsonView::Binary { subtype, bytes } => tagged(
            "$binary"@,
            JsonView::Object(
                seq![
                    ("base64"@, JsonView::String(base64_text(bytes))),
                    ("subType"@, JsonView::String(hex_text(seq![subtype]))),
                ],
            ),
        ),
        BsonView::RegularExpression { pattern, options } => tagged(
            "$regularExpression"@,
            JsonView::Object(
                seq![
                    ("pattern"@, JsonView::String(pattern)),
                    ("options"@, JsonView::String(options)),
                ],
            ),
        ),
        BsonView::Timestamp { time, increment } => tagged(
            "$timestamp"@,
            JsonView::Object(
                seq![("t"@, json_integer(time as int)), ("i"@, json_integer(increment as int))],
            ),
        ),
        BsonView::Decimal128(bytes) => tagged(
            "$numberDecimal"@,
            JsonView::String(decimal128_text(bytes)),
        ),
        BsonView::MinKey => tagged("$minKey"@, json_integer(1)),
        BsonView::MaxKey => tagged("$maxKey"@, json_integer(1)),
        BsonView::JavaScriptCode(code) => tagged("$code"@, JsonView::String(code)),
        BsonView::JavaScriptCodeWithScope { code, scope } => JsonView::Object(
            seq![
                ("$code"@, JsonView::String(code)),
                ("$scope"@, JsonView::Object(json_of_members(scope))),
            ],
        ),
    }
}

/// Each item's JSON.
pub open spec fn json_of_items(items: Seq<BsonView>) -> Seq<JsonView>
    decreases items,
{
    if items.len() == 0 {
        Seq::empty()
    } else {
        json_of_items(items.drop_last()).push(json_of(items.last()))
    }
}

/// Each member's JSON under its name.
pub open spec fn json_of_members(members: Seq<(Seq<char>, BsonView)>) -> Seq<
    (Seq<char>, JsonView),
>
    decreases members,
{
    if members.len() == 0 {
        Seq::empty()
    } else {
        put(
            json_of_members(members.drop_last()),
            members.last().0,
            json_of(members.last().1),
        )
    }
}

/// An object of one member.
fn tag(name: &str, value: Json) -> (made: Json)
    ensures
        made@ == tagged(name@, value@),
{
    broadcast use json_view;

    let members: Vec<(String, Json)> = vec![(name.to_owned(), value)];
    assert(json_members(members@) =~= seq![(name@, value@)]);
    Json::Object(members)
}

/// An object of two members.
fn pair(first: &str, a: Json, second: &str, b: Json) -> (made: Json)
    ensures
        made@ == JsonView::Object(seq![(first@, a@), (second@, b@)]),
{
    broadcast use json_view;

    let members: Vec<(String, Json)> = vec![(first.to_owned(), a), (second.to_owned(), b)];
    assert(json_members(members@) =~= seq![(first@, a@), (second@, b@)]);
    Json::Object(members)
}

/// A whole number in JSON.
pub fn integer(n: i64) -> (made: Json)
    ensures
        made@ == json_integer(n as int),
{
    if n >= 0 {
        Json::Number(JsonNumber::PosInt(n as u64))
    } else {
        Json::Number(JsonNumber::NegInt(n))
    }
}

/// A lower-case hexadecimal digit as text.
fn hex_digit_text(n: u8) -> (s: &'static str)
    requires
        n < 16,
    ensures
        s@ == seq![hex_digit(n as nat)],
{
    proof {
        reveal_strlit("0");
        reveal_strlit("1");
        reveal_strlit("2");
        reveal_strlit("3");
        reveal_strlit("4");
        reveal_strlit("5");
        reveal_strlit("6");
        reveal_strlit("7");
        reveal_strlit("8");
        reveal_strlit("9");
        reveal_strlit("a");
        reveal_strlit("b");
        reveal_strlit("c");
        reveal_strlit("d");
        reveal_strlit("e");
        reveal_strlit("f");
    }
    let s = match n {
        0 => "0",
        1 => "1",
        2 => "2",
        3 => "3",
        4 => "4",
        5 => "5",
        6 => "6",
        7 => "7",
        8 => "8",
        9 => "9",
        10 => "a",
        11 => "b",
        12 => "c",
        13 => "d",
        14 => "e",
        _ => "f",
    };
    assert(s@ =~= seq![hex_digit(n as nat)]);
    s
}

/// Append bytes as lower-case hexadecimal digits.
pub fn push_hex(out: &mut String, bytes: &[u8])
    ensures
        final(out)@ == old(out)@ + hex_text(bytes@),
{
    let mut i: usize = 0;
    assert(out@ =~= old(out)@ + hex_text(bytes@.take(0)));
    while i < bytes.len()
        invariant
            i <= bytes.len(),
            out@ == old(out)@ + hex_text(bytes@.take(i as int)),
        decreases bytes.len() - i,
    {
        let b: u8 = bytes[i];
        out.append(hex_digit_text(b / 16));
        out.append(hex_digit_text(b % 16));
        proof {
            let before = bytes@.take(i as int);
            let now = bytes@.take(i + 1);
            assert forall|k: int| 0 <= k < 2 * (i + 1) implies hex_text(now)[k] == (hex_text(before)
                + seq![hex_digit(b as nat / 16)] + seq![hex_digit(b as nat % 16)])[k] by {
                if k < 2 * i {
                    assert(now[k / 2] == before[k / 2]);
                }
            }
            assert(hex_text(now) =~= hex_text(before) + seq![hex_digit(b as nat / 16)] + seq![
                hex_digit(b as nat % 16),
            ]);
            assert(out@ =~= old(out)@ + hex_text(now));
        }
        i = i + 1;
    }
    assert(bytes@.take(i as int) =~= bytes@);
}

/// A BSON value that Extended JSON carries without loss. A 64-bit integer
/// that fits in 32 bits comes back narrower, a binary comes back generic, and
/// a document that reads as a wrapper does not come back as a document.
pub open spec fn comes_back(b: BsonView) -> bool
    decreases b,
{
    match b {
        BsonView::Null
        | BsonView::Boolean(_)
        | BsonView::String(_)
        | BsonView::Int32(_)
        | BsonView::DateTime(_)
        | BsonView::ObjectId(_)
        | BsonView::MinKey
        | BsonView::MaxKey => true,
        BsonView::Int64(n) => !(i32::MIN <= n <= i32::MAX),
        BsonView::Double(bits) => finite(bits),
        BsonView::Binary { subtype, bytes } => subtype == 0,
        BsonView::Array(items) => forall|i: int|
            0 <= i < items.len() ==> comes_back(#[trigger] items[i]),
        BsonView::Document(members) => distinct_keys(members) && !is_wrapper(members) && forall|
            i: int,
        |
            0 <= i < members.len() ==> comes_back((#[trigger] members[i]).1),
        _ => false,
    }
}

/// Whether every one of these comes back.
pub open spec fn all_come_back(items: Seq<BsonView>) -> bool {
    forall|i: int| 0 <= i < items.len() ==> comes_back(#[trigger] items[i])
}

/// Whether every one of these members comes back under its own name.
pub open spec fn members_come_back(members: Seq<(Seq<char>, BsonView)>) -> bool {
    distinct_keys(members) && forall|i: int|
        0 <= i < members.len() ==> comes_back((#[trigger] members[i]).1)
}

/// Convert BSON back to JSON, emitting Extended JSON for types JSON lacks.
///
/// What Extended JSON carries without loss is read back as it was.
pub fn bson_to_json(value: &Bson) -> (converted: Json)
    ensures
        converted@ == json_of(value@),
        comes_back(value@) ==> bson_of(converted@) == Ok::<BsonView, ApiErrorView>(value@),
    decreases value,
{
    broadcast use {json_view, bson_view};

    match value {
        Bson::Array(items) => Json::Array(items_to_json(items)),
        Bson::Document(members) => {
            let converted = members_to_json(members);
            proof {
                lemma_wrapper_names();
            }
            Json::Object(converted)
        },
        Bson::JavaScriptCodeWithScope { code, scope } => pair(
            "$code",
            Json::String(code.clone()),
            "$scope",
            Json::Object(members_to_json(scope)),
        ),
        _ => scalar_to_json(value),
    }
}

/// The JSON of each item.
fn items_to_json(items: &Vec<Bson>) -> (converted: Vec<Json>)
    ensures
        json_items(converted@) == json_of_items(bson_items(items@)),
        all_come_back(bson_items(items@)) ==> bson_of_items(json_items(converted@)) == Ok::<
            Seq<BsonView>,
            ApiErrorView,
        >(bson_items(items@)),
    decreases items,
{
    let ghost view = bson_items(items@);
    let mut converted: Vec<Json> = Vec::new();
    let mut i: usize = 0;
    assert(json_items(converted@) =~= Seq::empty());
    assert(view.take(0) =~= Seq::empty());
    while i < items.len()
        invariant
            i <= items.len(),
            view == bson_items(items@),
            json_items(converted@) == json_of_items(view.take(i as int)),
            all_come_back(view) ==> bson_of_items(json_items(converted@)) == Ok::<
                Seq<BsonView>,
                ApiErrorView,
            >(view.take(i as int)),
        decreases items.len() - i,
    {
        let ghost before = json_items(converted@);
        converted.push(bson_to_json(&items[i]));
        proof {
            assert(view.take(i + 1) =~= view.take(i as int).push(view[i as int]));
            assert(view.take(i + 1).drop_last() =~= view.take(i as int));
            assert(json_items(converted@) =~= before.push(json_of(view[i as int])));
            assert(json_items(converted@).drop_last() =~= before);
        }
        i = i + 1;
    }
    assert(view.take(i as int) =~= view);
    converted
}

/// The JSON of each member, under its name.
fn members_to_json(members: &Vec<(String, Bson)>) -> (converted: Vec<(String, Json)>)
    ensures
        json_members(converted@) == json_of_members(bson_members(members@)),
        members_come_back(bson_members(members@)) ==> {
            &&& same_names(json_members(converted@), bson_members(members@))
            &&& bson_of_members(json_members(converted@)) == Ok::<
                Seq<(Seq<char>, BsonView)>,
                ApiErrorView,
            >(bson_members(members@))
        },
    decreases members,
{
    let ghost view = bson_members(members@);
    let mut converted: Vec<(String, Json)> = Vec::new();
    let mut i: usize = 0;
    assert(json_members(converted@) =~= Seq::empty());
    assert(view.take(0) =~= Seq::empty());
    while i < members.len()
        invariant
            i <= members.len(),
            view == bson_members(members@),
            json_members(converted@) == json_of_members(view.take(i as int)),
            members_come_back(view) ==> same_names(json_members(converted@), view.take(i as int))
                && bson_of_members(json_members(converted@)) == Ok::<
                Seq<(Seq<char>, BsonView)>,
                ApiErrorView,
            >(view.take(i as int)),
        decreases members.len() - i,
    {
        let ghost before = json_members(converted@);
        let ghost so_far = view.take(i as int);
        let key = members[i].0.clone();
        let made = bson_to_json(&members[i].1);
        put_json(&mut converted, key, made);
        assert(view.take(i + 1).drop_last() =~= so_far);
        proof {
            if members_come_back(view) {
                assert(view.take(i + 1) =~= so_far.push(view[i as int]));
                assert forall|k: int| 0 <= k < so_far.len() implies #[trigger] so_far[k].0
                    != key@ && before[k].0 != key@ by {
                    assert(before[k].0 == so_far[k].0);
                    assert(view[k].0 != view[i as int].0);
                }
                assert forall|k: int| 0 <= k < before.len() implies #[trigger] before[k].0
                    != key@ by {
                    assert(so_far[k].0 != key@);
                }
                lemma_put_is_push(before, key@, made@);
                lemma_put_is_push(so_far, key@, view[i as int].1);
                assert(json_members(converted@).drop_last() =~= before);
            }
        }
        i = i + 1;
    }
    assert(view.take(i as int) =~= view);
    converted
}

/// The JSON of a value that holds no other.
fn scalar_to_json(value: &Bson) -> (converted: Json)
    requires
        !(value is Array) && !(value is Document) && !(value is JavaScriptCodeWithScope),
    ensures
        converted@ == json_of(value@),
        comes_back(value@) ==> bson_of(converted@) == Ok::<BsonView, ApiErrorView>(value@),
{
    broadcast use {json_view, bson_view};

    proof {
        lemma_wrapper_names();
    }
    match value {
        Bson::Boolean(b) => Json::Bool(*b),
        Bson::String(s) => Json::String(s.clone()),
        Bson::Symbol(s) => Json::String(s.clone()),
        Bson::Int32(n) => integer(*n as i64),
        Bson::Int64(n) => integer(*n),
        Bson::Double(bits) => double_to_json(*bits),
        Bson::ObjectId(bytes) => {
            proof {
                object_id_reads_back(bytes@);
            }
            tag("$oid", Json::String(object_id_hex(bytes)))
        },
        Bson::DateTime(ms) => tag("$date", integer(*ms)),
        Bson::Binary { subtype, bytes } => binary_to_json(*subtype, bytes),
        Bson::RegularExpression { pattern, options } => tag(
            "$regularExpression",
            pair(
                "pattern",
                Json::String(pattern.clone()),
                "options",
                Json::String(options.clone()),
            ),
        ),
        Bson::Timestamp { time, increment } => tag(
            "$timestamp",
            pair("t", integer(*time as i64), "i", integer(*increment as i64)),
        ),
        Bson::Decimal128(bytes) => tag("$numberDecimal", Json::String(show_decimal128(bytes))),
        Bson::MinKey => tag("$minKey", integer(1)),
        Bson::MaxKey => tag("$maxKey", integer(1)),
        Bson::JavaScriptCode(code) => tag("$code", Json::String(code.clone())),
        _ => Json::Null,
    }
}

/// The JSON of a double.
fn double_to_json(bits: u64) -> (converted: Json)
    ensures
        converted@ == json_of(BsonView::Double(bits)),
{
    broadcast use json_view;

    if (bits >> 52u64) & 0x7ff != 0x7ff {
        Json::Number(JsonNumber::Float(bits))
    } else {
        // NaN and the infinities have no JSON form; Extended JSON spells them as
        // strings rather than silently becoming null.
        let name = if bits & 0xf_ffff_ffff_ffff != 0 {
            "NaN"
        } else if bits >> 63u64 == 1 {
            "-inf"
        } else {
            "inf"
        };
        tag("$numberDouble", Json::String(name.to_owned()))
    }
}

/// The JSON of binary data. What its generic subtype holds is read back as it was.
fn binary_to_json(subtype: u8, bytes: &Vec<u8>) -> (converted: Json)
    ensures
        converted@ == json_of(BsonView::Binary { subtype, bytes: bytes@ }),
        subtype == 0 ==> bson_of(converted@) == Ok::<BsonView, ApiErrorView>(
            BsonView::Binary { subtype, bytes: bytes@ },
        ),
{
    broadcast use json_view;

    proof {
        lemma_wrapper_names();
    }
    let mut hex = String::new();
    let subtypes: [u8; 1] = [subtype];
    push_hex(&mut hex, &subtypes);
    proof {
        assert(subtypes@ =~= seq![subtype]);
        assert(hex@ =~= hex_text(seq![subtype]));
    }
    let inner = pair(
        "base64",
        Json::String(encode_base64(bytes)),
        "subType",
        Json::String(hex),
    );
    tag("$binary", inner)
}

/// Put a member into a JSON object.
pub fn put_json(members: &mut Vec<(String, Json)>, key: String, value: Json)
    ensures
        json_members(final(members)@) == put(json_members(old(members)@), key@, value@),
{
    let ghost before = members@;
    let ghost view = key@;
    insert(members, key, value);
    proof {
        let a = named(before);
        let b = json_members(before);
        lemma_json_key_index(before, view);
        assert(named(members@).len() == members@.len());
        assert forall|i: int| 0 <= i < members@.len() implies json_members(members@)[i] == put(
            b,
            view,
            value@,
        )[i] by {
            assert(named(members@)[i] == (members@[i].0@, members@[i].1));
            if i < before.len() {
                assert(a[i] == (before[i].0@, before[i].1));
            }
        }
        assert(json_members(members@) =~= put(b, view, value@));
    }
}

/// A document's JSON.
pub fn document_to_json(doc: &Document) -> (converted: Json)
    ensures
        converted@ == JsonView::Object(json_of_members(bson_members(doc@))),
{
    broadcast use json_view;

    Json::Object(members_to_json(doc))
}

/// Putting a member keeps names distinct, and changes no other member.
pub proof fn lemma_put_distinct<V>(members: Seq<(Seq<char>, V)>, key: Seq<char>, value: V)
    requires
        distinct_keys(members),
    ensures
        distinct_keys(put(members, key, value)),
{
    lemma_key_index(members, key);
}

/// Putting a member keeps names distinct, where they were.
pub(crate) proof fn lemma_put_distinct_or_not<V>(
    members: Seq<(Seq<char>, V)>,
    key: Seq<char>,
    value: V,
)
    ensures
        distinct_keys(members) ==> distinct_keys(put(members, key, value)),
{
    if distinct_keys(members) {
        lemma_put_distinct(members, key, value);
    }
}

/// Everything converted from BSON is a valid JSON value.
pub proof fn converted_json_is_valid(b: BsonView)
    ensures
        valid(json_of(b)),
    decreases b,
{
    match b {
        BsonView::Array(items) => {
            lemma_valid_items(items);
        },
        BsonView::Document(members) => {
            lemma_valid_members(members);
        },
        BsonView::JavaScriptCodeWithScope { code, scope } => {
            lemma_valid_members(scope);
            reveal_strlit("$code");
            reveal_strlit("$scope");
            assert("$code"@.len() != "$scope"@.len());
            let made = json_of(b)->Object_0;
            assert(valid(made[0].1));
            assert(valid(made[1].1));
        },
        BsonView::Binary { subtype, bytes } => {
            reveal_strlit("base64");
            reveal_strlit("subType");
            assert("base64"@.len() != "subType"@.len());
            let inner = json_of(b)->Object_0[0].1;
            assert(valid(inner->Object_0[0].1));
            assert(valid(inner->Object_0[1].1));
            assert(valid(inner));
        },
        BsonView::RegularExpression { pattern, options } => {
            reveal_strlit("pattern");
            reveal_strlit("options");
            assert("pattern"@[0] != "options"@[0]);
            let inner = json_of(b)->Object_0[0].1;
            assert(valid(inner->Object_0[0].1));
            assert(valid(inner->Object_0[1].1));
            assert(valid(inner));
        },
        BsonView::Timestamp { time, increment } => {
            reveal_strlit("t");
            reveal_strlit("i");
            assert("t"@[0] != "i"@[0]);
            let inner = json_of(b)->Object_0[0].1;
            assert(valid(inner->Object_0[0].1));
            assert(valid(inner->Object_0[1].1));
            assert(valid(inner));
        },
        _ => {
            if json_of(b) is Object {
                assert(valid(json_of(b)->Object_0[0].1));
            }
        },
    }
}

proof fn lemma_valid_items(items: Seq<BsonView>)
    ensures
        valid(JsonView::Array(json_of_items(items))),
    decreases items,
{
    if items.len() > 0 {
        lemma_valid_items(items.drop_last());
        converted_json_is_valid(items.last());
        let before = json_of_items(items.drop_last());
        assert forall|i: int| 0 <= i < json_of_items(items).len() implies valid(
            #[trigger] json_of_items(items)[i],
        ) by {
            if i < before.len() {
                assert(valid(JsonView::Array(before)->Array_0[i]));
            }
        }
    }
}

proof fn lemma_valid_members(members: Seq<(Seq<char>, BsonView)>)
    ensures
        valid(JsonView::Object(json_of_members(members))),
    decreases members,
{
    if members.len() > 0 {
        lemma_valid_members(members.drop_last());
        converted_json_is_valid(members.last().1);
        let before = json_of_members(members.drop_last());
        let made = json_of_members(members);
        lemma_put_distinct(before, members.last().0, json_of(members.last().1));
        lemma_key_index(before, members.last().0);
        assert forall|i: int| 0 <= i < made.len() implies valid((#[trigger] made[i]).1) by {
            if i < before.len() {
                assert(valid(before[i].1));
            }
        }
    }
}

/// The names that make a one-member object an Extended JSON wrapper.
pub open spec fn wrapper_name(name: Seq<char>) -> bool {
    name == "$oid"@ || name == "$date"@ || name == "$numberLong"@ || name == "$numberInt"@ || name
        == "$numberDouble"@ || name == "$numberDecimal"@ || name == "$binary"@ || name
        == "$minKey"@ || name == "$maxKey"@
}

/// The names of the wrappers differ from one another.
proof fn lemma_wrapper_names()
    ensures
        "$date"@ != "$oid"@,
        "$binary"@ != "$oid"@,
        "$binary"@ != "$date"@,
        "$binary"@ != "$numberLong"@,
        "$binary"@ != "$numberInt"@,
        "$binary"@ != "$numberDouble"@,
        "$binary"@ != "$numberDecimal"@,
        "$minKey"@ != "$oid"@,
        "$minKey"@ != "$date"@,
        "$minKey"@ != "$numberLong"@,
        "$minKey"@ != "$numberInt"@,
        "$minKey"@ != "$numberDouble"@,
        "$minKey"@ != "$numberDecimal"@,
        "$minKey"@ != "$binary"@,
        "$maxKey"@ != "$oid"@,
        "$maxKey"@ != "$date"@,
        "$maxKey"@ != "$numberLong"@,
        "$maxKey"@ != "$numberInt"@,
        "$maxKey"@ != "$numberDouble"@,
        "$maxKey"@ != "$numberDecimal"@,
        "$maxKey"@ != "$binary"@,
        "$maxKey"@ != "$minKey"@,
{
    reveal_strlit("$oid");
    reveal_strlit("$date");
    reveal_strlit("$numberLong");
    reveal_strlit("$numberInt");
    reveal_strlit("$numberDouble");
    reveal_strlit("$numberDecimal");
    reveal_strlit("$binary");
    reveal_strlit("$minKey");
    reveal_strlit("$maxKey");
    assert("$oid"@.len() == 4 && "$date"@.len() == 5 && "$binary"@.len() == 7);
    assert("$numberLong"@.len() == 11 && "$numberInt"@.len() == 10);
    assert("$numberDouble"@.len() == 13 && "$numberDecimal"@.len() == 14);
    assert("$minKey"@.len() == 7 && "$maxKey"@.len() == 7);
    assert("$binary"@[1] == 'b' && "$minKey"@[1] == 'm' && "$maxKey"@[1] == 'm');
    assert("$minKey"@[2] == 'i' && "$maxKey"@[2] == 'a');
}

/// Whether an object with these members is an Extended JSON wrapper.
pub open spec fn is_wrapper<V>(members: Seq<(Seq<char>, V)>) -> bool {
    members.len() == 1 && wrapper_name(members[0].0)
}

/// A JSON value that uses no wrapper, and no whole number over 63 bits.
pub open spec fn plain(v: JsonView) -> bool
    decreases v,
{
    match v {
        JsonView::Number(JsonNumber::PosInt(u)) => u <= i64::MAX,
        JsonView::Array(items) => forall|i: int|
            0 <= i < items.len() ==> plain(#[trigger] items[i]),
        JsonView::Object(members) => !is_wrapper(members) && forall|i: int|
            0 <= i < members.len() ==> plain((#[trigger] members[i]).1),
        _ => true,
    }
}

/// Plain JSON comes back from BSON exactly as it was, its whole numbers and
/// the order of its members with it.
pub proof fn plain_json_round_trips(v: JsonView)
    requires
        valid(v),
        plain(v),
    ensures
        bson_of(v) matches Ok(b) && json_of(b) == v,
    decreases v,
{
    match v {
        JsonView::Array(items) => {
            lemma_plain_items(items);
        },
        JsonView::Object(members) => {
            lemma_plain_members(members);
        },
        _ => {},
    }
}

proof fn lemma_plain_items(items: Seq<JsonView>)
    requires
        forall|i: int| 0 <= i < items.len() ==> valid(#[trigger] items[i]) && plain(items[i]),
    ensures
        bson_of_items(items) matches Ok(converted) && json_of_items(converted) == items,
    decreases items,
{
    if items.len() > 0 {
        let before = items.drop_last();
        assert forall|i: int| 0 <= i < before.len() implies valid(#[trigger] before[i]) && plain(
            before[i],
        ) by {
            assert(before[i] == items[i]);
        }
        lemma_plain_items(before);
        assert(valid(items[items.len() - 1]));
        plain_json_round_trips(items.last());
        let converted = bson_of_items(items)->Ok_0;
        assert(converted.drop_last() =~= bson_of_items(before)->Ok_0);
        assert(json_of_items(converted) =~= items);
    } else {
        assert(json_of_items(Seq::<BsonView>::empty()) =~= items);
    }
}

proof fn lemma_plain_members(members: Seq<(Seq<char>, JsonView)>)
    requires
        distinct_keys(members),
        forall|i: int|
            0 <= i < members.len() ==> valid((#[trigger] members[i]).1) && plain(members[i].1),
    ensures
        bson_of_members(members) matches Ok(converted) && json_of_members(converted) == members
            && same_names(converted, members),
    decreases members,
{
    if members.len() > 0 {
        let before = members.drop_last();
        let name = members.last().0;
        assert forall|i: int| 0 <= i < before.len() implies valid((#[trigger] before[i]).1)
            && plain(before[i].1) by {
            assert(before[i] == members[i]);
        }
        assert(distinct_keys(before)) by {
            assert forall|i: int, j: int| 0 <= i < j < before.len() implies #[trigger] before[i].0
                != #[trigger] before[j].0 by {
                assert(before[i] == members[i] && before[j] == members[j]);
            }
        }
        lemma_plain_members(before);
        assert(valid(members[members.len() - 1].1));
        plain_json_round_trips(members.last().1);
        let so_far = bson_of_members(before)->Ok_0;
        let b = bson_of(members.last().1)->Ok_0;
        assert forall|i: int| 0 <= i < before.len() implies #[trigger] before[i].0 != name by {
            assert(before[i] == members[i]);
            assert(members[i].0 != members[members.len() - 1].0);
        }
        lemma_put_is_push(before, name, members.last().1);
        assert forall|i: int| 0 <= i < so_far.len() implies #[trigger] so_far[i].0 != name by {
            assert(so_far[i].0 == before[i].0);
        }
        lemma_put_is_push(so_far, name, b);
        let converted = bson_of_members(members)->Ok_0;
        assert(converted == so_far.push((name, b)));
        assert(converted.drop_last() =~= so_far);
        assert(before.push((name, members.last().1)) =~= members);
    } else {
        assert(json_of_members(Seq::<(Seq<char>, BsonView)>::empty()) =~= members);
    }
}

/// The same names, in the same order.
pub open spec fn same_names<V, W>(a: Seq<(Seq<char>, V)>, b: Seq<(Seq<char>, W)>) -> bool {
    a.len() == b.len() && forall|i: int| 0 <= i < a.len() ==> #[trigger] a[i].0 == b[i].0
}

proof fn lemma_put_is_push<V>(members: Seq<(Seq<char>, V)>, key: Seq<char>, value: V)
    requires
        forall|i: int| 0 <= i < members.len() ==> #[trigger] members[i].0 != key,
    ensures
        put(members, key, value) == members.push((key, value)),
{
    lemma_key_index_unique(members, key, members.len() as int);
}

/// The value of the first member of a document named `key`.
pub fn get<'a>(doc: &'a Document, key: &str) -> (value: Option<&'a Bson>)
    ensures
        value is Some <==> lookup(bson_members(doc@), key@) is Some,
        value matches Some(v) ==> lookup(bson_members(doc@), key@) == Some(v@),
{
    let at: usize = find_key(doc, key);
    proof {
        lemma_bson_key_index(doc@, key@);
    }
    if at < doc.len() {
        Some(&doc[at].1)
    } else {
        None
    }
}

pub(crate) proof fn lemma_bson_key_index(members: Seq<(String, Bson)>, key: Seq<char>)
    ensures
        key_index(named(members), key) == key_index(bson_members(members), key),
        0 <= key_index(named(members), key) <= members.len(),
{
    let a = named(members);
    let b = bson_members(members);
    lemma_key_index(a, key);
    let k = key_index(a, key);
    assert forall|i: int| 0 <= i < k implies #[trigger] b[i].0 != key by {
        assert(a[i].0 != key);
    }
    lemma_key_index_unique(b, key, k);
}

/// The text a document holds under `key`.
pub open spec fn text_under(members: Seq<(Seq<char>, BsonView)>, key: Seq<char>) -> Option<
    Seq<char>,
> {
    match lookup(members, key) {
        Some(BsonView::String(s)) => Some(s),
        _ => None,
    }
}

/// The text a document holds under `key`.
pub fn get_str<'a>(doc: &'a Document, key: &str) -> (text: Option<&'a String>)
    ensures
        text is Some <==> text_under(bson_members(doc@), key@) is Some,
        text matches Some(t) ==> text_under(bson_members(doc@), key@) == Some(t@),
{
    match get(doc, key) {
        Some(Bson::String(s)) => Some(s),
        _ => None,
    }
}

/// Put a member into a document.
pub fn put_bson(doc: &mut Document, key: &str, value: Bson)
    ensures
        bson_members(final(doc)@) == put(bson_members(old(doc)@), key@, value@),
{
    let ghost before = doc@;
    insert(doc, key.to_owned(), value);
    proof {
        lemma_bson_put(before, doc@, key@, value);
    }
}

/// A copy of a value.
pub fn copy_bson(value: &Bson) -> (copy: Bson)
    ensures
        copy@ == value@,
    decreases value,
{
    broadcast use bson_view;

    match value {
        Bson::Double(bits) => Bson::Double(*bits),
        Bson::String(s) => Bson::String(s.clone()),
        Bson::Array(items) => {
            let mut out: Vec<Bson> = Vec::new();
            let mut i: usize = 0;
            while i < items.len()
                invariant
                    i <= items.len(),
                    out@.len() == i,
                    decreases_to!(value => items@),
                    forall|k: int| 0 <= k < i ==> (#[trigger] out@[k])@ == items@[k]@,
                decreases items.len() - i,
            {
                out.push(copy_bson(&items[i]));
                i = i + 1;
            }
            assert(bson_items(out@) =~= bson_items(items@));
            Bson::Array(out)
        },
        Bson::Document(members) => Bson::Document(copy_document(members)),
        Bson::Boolean(b) => Bson::Boolean(*b),
        Bson::Null => Bson::Null,
        Bson::RegularExpression { pattern, options } => Bson::RegularExpression {
            pattern: pattern.clone(),
            options: options.clone(),
        },
        Bson::JavaScriptCode(code) => Bson::JavaScriptCode(code.clone()),
        Bson::JavaScriptCodeWithScope { code, scope } => Bson::JavaScriptCodeWithScope {
            code: code.clone(),
            scope: copy_document(scope),
        },
        Bson::Int32(n) => Bson::Int32(*n),
        Bson::Int64(n) => Bson::Int64(*n),
        Bson::Timestamp { time, increment } => Bson::Timestamp {
            time: *time,
            increment: *increment,
        },
        Bson::Binary { subtype, bytes } => Bson::Binary { subtype: *subtype, bytes: bytes.clone() },
        Bson::ObjectId(bytes) => Bson::ObjectId(*bytes),
        Bson::DateTime(ms) => Bson::DateTime(*ms),
        Bson::Symbol(s) => Bson::Symbol(s.clone()),
        Bson::Decimal128(bytes) => Bson::Decimal128(*bytes),
        Bson::Undefined => Bson::Undefined,
        Bson::MaxKey => Bson::MaxKey,
        Bson::MinKey => Bson::MinKey,
        Bson::DbPointer => Bson::DbPointer,
    }
}

/// A copy of a document.
pub fn copy_document(doc: &Document) -> (copy: Document)
    ensures
        bson_members(copy@) == bson_members(doc@),
    decreases doc,
{
    let mut out: Document = Vec::new();
    let mut i: usize = 0;
    while i < doc.len()
        invariant
            i <= doc.len(),
            out@.len() == i,
            forall|k: int|
                0 <= k < i ==> (#[trigger] out@[k]).0@ == doc@[k].0@ && out@[k].1@ == doc@[k].1@,
        decreases doc.len() - i,
    {
        assert(decreases_to!(doc => doc@[i as int]));
        let member = &doc[i];
        out.push((member.0.clone(), copy_bson(&member.1)));
        i = i + 1;
    }
    assert(bson_members(out@) =~= bson_members(doc@));
    out
}

} // verus!
