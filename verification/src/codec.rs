//! The encodings that other crates compute: JSON text, object ids, base64,
//! dates and decimal numbers.
//!
//! A double is carried as the bits of its IEEE 754 form.

use base64::Engine;
use hmac::Mac;
use vstd::prelude::*;

use crate::json::{
    distinct_keys, finite, json_items, json_members, named, valid, Json, JsonNumber, JsonView,
};
use crate::text::{decimal, joined, signed_decimal};

verus! {

/// The type of `serde_json`'s values.
#[verifier::external_type_specification]
#[verifier::external_body]
pub struct ExValue(serde_json::Value);

/// What a `serde_json` value holds.
pub uninterp spec fn value_tree(value: serde_json::Value) -> JsonView;

/// The text `serde_json` writes of a double, by its bits.
pub uninterp spec fn double_text(bits: u64) -> Seq<char>;

/// A character inside a JSON string: a quote, a backslash and the control
/// characters are escaped, and every other character stands for itself.
pub open spec fn char_text(c: char) -> Seq<char> {
    if c == '"' || c == '\\' {
        seq!['\\', c]
    } else if c == '\u{8}' {
        seq!['\\', 'b']
    } else if c == '\t' {
        seq!['\\', 't']
    } else if c == '\n' {
        seq!['\\', 'n']
    } else if c == '\u{c}' {
        seq!['\\', 'f']
    } else if c == '\r' {
        seq!['\\', 'r']
    } else if (c as nat) <= 31 {
        seq!['\\', 'u', '0', '0', hex_digit(c as nat / 16), hex_digit(c as nat % 16)]
    } else {
        seq![c]
    }
}

/// A text as it stands inside a JSON string.
pub open spec fn escaped(s: Seq<char>) -> Seq<char>
    decreases s.len(),
{
    if s.len() == 0 {
        Seq::empty()
    } else {
        escaped(s.drop_last()) + char_text(s.last())
    }
}

/// A text as a JSON string: escaped, between quotes.
pub open spec fn string_text(s: Seq<char>) -> Seq<char> {
    "\""@ + escaped(s) + "\""@
}

/// A text with nothing to escape stands in a JSON string as it is.
pub proof fn plain_text_is_not_escaped(s: Seq<char>)
    requires
        forall|i: int| 0 <= i < s.len() ==> char_text(#[trigger] s[i]) == seq![s[i]],
    ensures
        escaped(s) == s,
    decreases s.len(),
{
    if s.len() > 0 {
        assert forall|i: int| 0 <= i < s.drop_last().len() implies char_text(
            #[trigger] s.drop_last()[i],
        ) == seq![s.drop_last()[i]] by {
            assert(s.drop_last()[i] == s[i]);
        }
        plain_text_is_not_escaped(s.drop_last());
        assert(s[s.len() - 1] == s.last());
        assert(s.drop_last() + seq![s.last()] =~= s);
    }
}

/// The compact JSON text of a value: no space between its parts.
pub open spec fn json_text(value: JsonView) -> Seq<char>
    decreases value,
{
    match value {
        JsonView::Null => "null"@,
        JsonView::Bool(b) => if b {
            "true"@
        } else {
            "false"@
        },
        JsonView::Number(JsonNumber::PosInt(n)) => decimal(n as nat),
        JsonView::Number(JsonNumber::NegInt(n)) => signed_decimal(n as int),
        JsonView::Number(JsonNumber::Float(bits)) => double_text(bits),
        JsonView::String(s) => string_text(s),
        JsonView::Array(items) => "["@ + joined(item_texts(items), ","@) + "]"@,
        JsonView::Object(members) => "{"@ + joined(member_texts(members), ","@) + "}"@,
    }
}

/// Each item's text.
pub open spec fn item_texts(items: Seq<JsonView>) -> Seq<Seq<char>>
    decreases items,
{
    if items.len() == 0 {
        Seq::empty()
    } else {
        item_texts(items.drop_last()).push(json_text(items.last()))
    }
}

/// Each member's text: its name as a string, a colon, and its value.
pub open spec fn member_texts(members: Seq<(Seq<char>, JsonView)>) -> Seq<Seq<char>>
    decreases members,
{
    if members.len() == 0 {
        Seq::empty()
    } else {
        member_texts(members.drop_last()).push(
            string_text(members.last().0) + ":"@ + json_text(members.last().1),
        )
    }
}

/// `serde_json::Value`'s variants that hold no other value: each holds what
/// it was made from. A whole number that is not negative is held as unsigned.
#[verifier::external_body]
fn leaf_value(value: &Json) -> (made: serde_json::Value)
    requires
        !(value is Array) && !(value is Object) && !(value matches Json::Number(
            JsonNumber::Float(_),
        )),
        valid(value@),
    ensures
        value_tree(made) == value@,
{
    match value {
        Json::Bool(b) => serde_json::Value::Bool(*b),
        Json::Number(JsonNumber::PosInt(n)) => serde_json::Value::from(*n),
        Json::Number(JsonNumber::NegInt(n)) => serde_json::Value::from(*n),
        Json::String(s) => serde_json::Value::String(s.clone()),
        _ => serde_json::Value::Null,
    }
}

/// `serde_json::Number::from_f64`: a number holds the double it was made
/// from, where that is finite. The double is read from its bits by `bson`,
/// out of a document that holds nothing else.
#[verifier::external_body]
fn float_value(bits: u64) -> (made: serde_json::Value)
    requires
        finite(bits),
    ensures
        value_tree(made) == JsonView::Number(JsonNumber::Float(bits)),
{
    let mut bytes = vec![16u8, 0, 0, 0, 1, b'd', 0];
    bytes.extend_from_slice(&bits.to_le_bytes());
    bytes.push(0);
    let held = bson::RawDocumentBuf::from_bytes(bytes).unwrap();
    serde_json::Value::Number(serde_json::Number::from_f64(held.get_f64("d").unwrap()).unwrap())
}

/// `serde_json::Value::Array`: an array holds its items in order.
#[verifier::external_body]
fn array_value(items: Vec<serde_json::Value>) -> (made: serde_json::Value)
    ensures
        value_tree(made) == JsonView::Array(
            Seq::new(items@.len(), |i: int| value_tree(items@[i])),
        ),
{
    serde_json::Value::Array(items)
}

/// `serde_json::Map`'s `FromIterator`, with members kept in the order they
/// come in: an object made of members with distinct names holds them all.
#[verifier::external_body]
fn object_value(members: Vec<(String, serde_json::Value)>) -> (made: serde_json::Value)
    requires
        distinct_keys(named(members@)),
    ensures
        value_tree(made) == JsonView::Object(
            Seq::new(members@.len(), |i: int| (members@[i].0@, value_tree(members@[i].1))),
        ),
{
    serde_json::Value::Object(members.into_iter().collect())
}

/// `serde_json::Value`'s `Display`: the compact text of what the value holds.
/// A string is written between quotes and escaped, a whole number in decimal. Of
/// a double it is said only that one double is always written in one way.
#[verifier::external_body]
fn value_text(value: &serde_json::Value) -> (text: String)
    ensures
        text@ == json_text(value_tree(*value)),
        value_tree(*value) matches JsonView::Number(JsonNumber::Float(bits)) ==> text@
            == double_text(bits),
{
    value.to_string()
}

/// The `serde_json` value that holds what `value` holds.
fn to_value(value: &Json) -> (made: serde_json::Value)
    requires
        valid(value@),
    ensures
        value_tree(made) == value@,
    decreases value,
{
    broadcast use crate::json::json_view;

    match value {
        Json::Number(JsonNumber::Float(bits)) => float_value(*bits),
        Json::Array(items) => {
            let mut made: Vec<serde_json::Value> = Vec::new();
            let mut i: usize = 0;
            let ghost view = json_items(items@);
            assert forall|k: int| 0 <= k < items.len() implies valid((#[trigger] items@[k])@) by {
                assert(value@ == JsonView::Array(view));
                assert(valid(value@->Array_0[k]));
            }
            while i < items.len()
                invariant
                    i <= items.len(),
                    decreases_to!(value => items),
                    forall|k: int| 0 <= k < items.len() ==> valid((#[trigger] items@[k])@),
                    made@.len() == i,
                    forall|k: int| 0 <= k < i ==> value_tree(#[trigger] made@[k]) == items@[k]@,
                decreases items.len() - i,
            {
                made.push(to_value(&items[i]));
                i = i + 1;
            }
            assert(Seq::new(made@.len(), |i: int| value_tree(made@[i])) =~= json_items(items@));
            array_value(made)
        },
        Json::Object(members) => {
            let mut made: Vec<(String, serde_json::Value)> = Vec::new();
            let mut i: usize = 0;
            assert(forall|k: int|
                0 <= k < members.len() ==> (#[trigger] members@[k]).1@ == json_members(
                    members@,
                )[k].1);
            while i < members.len()
                invariant
                    i <= members.len(),
                    decreases_to!(value => members),
                    forall|k: int| 0 <= k < members.len() ==> valid((#[trigger] members@[k]).1@),
                    made@.len() == i,
                    forall|k: int|
                        0 <= k < i ==> (#[trigger] made@[k]).0@ == members@[k].0@ && value_tree(
                            made@[k].1,
                        ) == members@[k].1@,
                decreases members.len() - i,
            {
                made.push((members[i].0.clone(), to_value(&members[i].1)));
                i = i + 1;
            }
            proof {
                let view = json_members(members@);
                assert forall|a: int, b: int| 0 <= a < b < made@.len() implies #[trigger] named(
                    made@,
                )[a].0 != #[trigger] named(made@)[b].0 by {
                    assert(view[a].0 != view[b].0);
                }
                assert(Seq::new(made@.len(), |i: int| (made@[i].0@, value_tree(made@[i].1)))
                    =~= view);
            }
            object_value(made)
        },
        _ => leaf_value(value),
    }
}

/// The compact JSON text of `value`.
pub fn to_text(value: &Json) -> (text: String)
    requires
        valid(value@),
    ensures
        text@ == json_text(value@),
{
    value_text(&to_value(value))
}

/// The double nearest to a whole number, as bits.
pub uninterp spec fn nearest_double(n: u64) -> u64;

/// `serde_json::Number::as_f64` of a whole number: the double nearest to it.
#[verifier::external_body]
pub(crate) fn double_of(n: u64) -> (bits: u64)
    ensures
        bits == nearest_double(n),
{
    serde_json::Number::from(n).as_f64().unwrap().to_bits()
}

/// The double a text writes, as bits.
pub uninterp spec fn double_written(text: Seq<char>) -> Option<u64>;

/// `str::parse` to a double: the number that the text writes.
#[verifier::external_body]
pub(crate) fn parse_double(text: &str) -> (bits: Option<u64>)
    ensures
        bits == double_written(text@),
{
    match text.parse().map(bson::Bson::Double) {
        Ok(bson::Bson::Double(d)) => Some(d.to_bits()),
        _ => None,
    }
}

/// The value of a hexadecimal digit.
pub open spec fn hex_value(c: char) -> Option<nat> {
    if '0' <= c && c <= '9' {
        Some(((c as u32) - ('0' as u32)) as nat)
    } else if 'a' <= c && c <= 'f' {
        Some(((c as u32) - ('a' as u32) + 10) as nat)
    } else if 'A' <= c && c <= 'F' {
        Some(((c as u32) - ('A' as u32) + 10) as nat)
    } else {
        None
    }
}

/// The lower-case hexadecimal digit of a value under sixteen.
pub open spec fn hex_digit(n: nat) -> char {
    if n < 10 {
        (('0' as u32) + n) as char
    } else {
        (('a' as u32) + n - 10) as char
    }
}

/// Bytes as lower-case hexadecimal digits, two to a byte.
pub open spec fn hex_text(bytes: Seq<u8>) -> Seq<char> {
    Seq::new(
        2 * bytes.len(),
        |i: int|
            hex_digit(
                if i % 2 == 0 {
                    bytes[i / 2] as nat / 16
                } else {
                    bytes[i / 2] as nat % 16
                },
            ),
    )
}

/// The twelve bytes that twenty-four hexadecimal digits write.
pub open spec fn object_id_bytes(text: Seq<char>) -> Option<Seq<u8>> {
    if text.len() == 24 && forall|i: int| 0 <= i < 24 ==> hex_value(#[trigger] text[i]) is Some {
        Some(
            Seq::new(
                12,
                |i: int| (16 * hex_value(text[2 * i])->0 + hex_value(text[2 * i + 1])->0) as u8,
            ),
        )
    } else {
        None
    }
}

/// `bson::oid::ObjectId::parse_str`: exactly twenty-four hexadecimal digits,
/// of either case, are an object id.
#[verifier::external_body]
pub(crate) fn parse_object_id(text: &str) -> (id: Option<[u8; 12]>)
    ensures
        id is Some <==> object_id_bytes(text@) is Some,
        id matches Some(bytes) ==> object_id_bytes(text@) == Some(bytes@),
{
    bson::oid::ObjectId::parse_str(text).ok().map(|id| id.bytes())
}

/// `bson::oid::ObjectId::to_hex`: the id's bytes in lower-case hexadecimal.
#[verifier::external_body]
pub(crate) fn object_id_hex(id: &[u8; 12]) -> (text: String)
    ensures
        text@ == hex_text(id@),
{
    bson::oid::ObjectId::from_bytes(*id).to_hex()
}

/// The instant an RFC 3339 text names, in milliseconds since the epoch.
pub uninterp spec fn rfc3339_millis(text: Seq<char>) -> Option<i64>;

/// `bson::DateTime::parse_rfc3339_str`, in milliseconds since the epoch.
#[verifier::external_body]
pub(crate) fn parse_rfc3339(text: &str) -> (ms: Option<i64>)
    ensures
        ms == rfc3339_millis(text@),
{
    bson::DateTime::parse_rfc3339_str(text).ok().map(|at| at.timestamp_millis())
}

/// The decimal number a text writes, in the sixteen bytes of its BSON form.
pub uninterp spec fn decimal128_written(text: Seq<char>) -> Option<Seq<u8>>;

/// `bson::Decimal128`'s `FromStr`.
#[verifier::external_body]
pub(crate) fn parse_decimal128(text: &str) -> (bytes: Option<[u8; 16]>)
    ensures
        bytes is Some <==> decimal128_written(text@) is Some,
        bytes matches Some(b) ==> decimal128_written(text@) == Some(b@),
{
    text.parse::<bson::Decimal128>().ok().map(|d| d.bytes())
}

/// The text of a decimal number in the sixteen bytes of its BSON form.
pub uninterp spec fn decimal128_text(bytes: Seq<u8>) -> Seq<char>;

/// `bson::Decimal128`'s `Display`.
#[verifier::external_body]
pub(crate) fn show_decimal128(bytes: &[u8; 16]) -> (text: String)
    ensures
        text@ == decimal128_text(bytes@),
{
    bson::Decimal128::from_bytes(*bytes).to_string()
}

/// Bytes in base64, with the standard alphabet and padding.
pub uninterp spec fn base64_text(bytes: Seq<u8>) -> Seq<char>;

/// The bytes that a base64 text writes.
pub uninterp spec fn base64_bytes(text: Seq<char>) -> Option<Seq<u8>>;

/// `base64`'s standard engine, encoding: what it writes it reads back.
#[verifier::external_body]
pub(crate) fn encode_base64(bytes: &Vec<u8>) -> (text: String)
    ensures
        text@ == base64_text(bytes@),
        base64_bytes(text@) == Some(bytes@),
{
    base64::engine::general_purpose::STANDARD.encode(bytes)
}

/// `base64`'s standard engine, decoding.
#[verifier::external_body]
pub(crate) fn decode_base64(text: &str) -> (bytes: Option<Vec<u8>>)
    ensures
        bytes is Some <==> base64_bytes(text@) is Some,
        bytes matches Some(b) ==> base64_bytes(text@) == Some(b@),
{
    base64::engine::general_purpose::STANDARD.decode(text).ok()
}

/// An object id's hexadecimal text reads back as the id.
pub proof fn object_id_reads_back(bytes: Seq<u8>)
    requires
        bytes.len() == 12,
    ensures
        object_id_bytes(hex_text(bytes)) == Some(bytes),
{
    let text = hex_text(bytes);
    assert forall|i: int| 0 <= i < 24 implies hex_value(#[trigger] text[i]) is Some by {}
    assert(object_id_bytes(text)->0 =~= bytes) by {
        assert forall|i: int| 0 <= i < 12 implies object_id_bytes(text)->0[i] == bytes[i] by {
            assert((2 * i) / 2 == i && (2 * i + 1) / 2 == i && (2 * i) % 2 == 0);
            assert(hex_value(text[2 * i]) == Some(bytes[i] as nat / 16));
            assert(hex_value(text[2 * i + 1]) == Some(bytes[i] as nat % 16));
        }
    }
}

/// The bytes of HMAC-SHA256.
pub uninterp spec fn hmac_sha256(key: Seq<u8>, message: Seq<u8>) -> Seq<u8>;

/// `hmac`'s `Hmac` over `sha2`'s `Sha256`: the code that a key gives a message.
/// A key of any length is taken.
#[verifier::external_body]
pub(crate) fn authenticate(key: &[u8], message: &[u8]) -> (code: [u8; 32])
    ensures
        code@ == hmac_sha256(key@, message@),
{
    let mut mac = hmac::Hmac::<sha2::Sha256>::new_from_slice(key).unwrap();
    mac.update(message);
    mac.finalize().into_bytes().into()
}

} // verus!
