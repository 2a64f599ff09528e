//! What a value becomes on its way in and on its way out.

use vstd::prelude::*;
use vstd::string::*;

use crate::codec::{
    base64_bytes, base64_text, decimal128_text, decimal128_written, double_written, hex_text,
    nearest_double, rfc3339_millis, to_text,
};
use crate::error::ApiError;
use crate::json::{
    bson_members, bson_of, bson_of_items, bson_of_members, bson_to_json, document_to_json, get,
    get_str, json_of, json_of_items, json_of_members, json_to_bson, json_to_document, lookup,
    insert, json_members, key_index,
    lemma_key_index, lemma_key_index_unique, named, push_hex, put, put_bson, put_json, Bson, BsonView, Document, Json, JsonNumber, JsonView,
};
use crate::text::signed_decimal;

verus! {

/// Whether a value comes in as this.
pub open spec fn comes_in_as(value: JsonView, b: BsonView) -> bool {
    bson_of(value) == Ok::<BsonView, crate::error::ApiErrorView>(b)
}

/// Reading a value gives what it comes in as, or an error where it comes in as
/// nothing.
pub proof fn reading_gives_what_comes_in(value: Json, read: Result<Bson, ApiError>)
    requires
        call_ensures(json_to_bson, (&value,), read),
    ensures
        read is Ok <==> exists|b: BsonView| comes_in_as(value@, b),
        read is Ok ==> comes_in_as(value@, read->Ok_0@),
{
    if read is Ok {
        assert(comes_in_as(value@, read->Ok_0@));
    }
    if read is Err && exists|b: BsonView| comes_in_as(value@, b) {
        let b = choose|b: BsonView| comes_in_as(value@, b);
        assert(bson_of(value@) is Ok);
    }
}

/// Nothing, a truth and a text come in as they are. A whole number comes in as the
/// narrower of the two integers that holds it; one that neither holds, as the double
/// nearest to it; and a number with a fraction as a double.
pub proof fn a_plain_value_comes_in_as_it_is(b: bool, s: Seq<char>, n: u64, m: i64, bits: u64)
    ensures
        comes_in_as(JsonView::Null, BsonView::Null),
        comes_in_as(JsonView::Bool(b), BsonView::Boolean(b)),
        comes_in_as(JsonView::String(s), BsonView::String(s)),
        n < 0x8000_0000 ==> comes_in_as(
            JsonView::Number(JsonNumber::PosInt(n)),
            BsonView::Int32(n as i32),
        ),
        0x8000_0000 <= n < 0x8000_0000_0000_0000 ==> comes_in_as(
            JsonView::Number(JsonNumber::PosInt(n)),
            BsonView::Int64(n as i64),
        ),
        n >= 0x8000_0000_0000_0000 ==> comes_in_as(
            JsonView::Number(JsonNumber::PosInt(n)),
            BsonView::Double(nearest_double(n)),
        ),
        -0x8000_0000 <= m < 0 ==> comes_in_as(
            JsonView::Number(JsonNumber::NegInt(m)),
            BsonView::Int32(m as i32),
        ),
        m < -0x8000_0000 ==> comes_in_as(
            JsonView::Number(JsonNumber::NegInt(m)),
            BsonView::Int64(m),
        ),
        comes_in_as(JsonView::Number(JsonNumber::Float(bits)), BsonView::Double(bits)),
{
}

/// A list comes in item by item, each in its place.
pub proof fn a_list_comes_in_item_by_item(items: Seq<JsonView>, b: BsonView)
    ensures
        comes_in_as(JsonView::Array(items), b) <==> b is Array && b->Array_0.len() == items.len()
            && forall|i: int|
            0 <= i < items.len() ==> comes_in_as(#[trigger] items[i], b->Array_0[i]),
{
    lemma_items(items);
    if b is Array && b->Array_0.len() == items.len() && forall|i: int|
        0 <= i < items.len() ==> comes_in_as(#[trigger] items[i], b->Array_0[i]) {
        assert forall|i: int| 0 <= i < items.len() implies bson_of(#[trigger] items[i]) is Ok by {
            assert(comes_in_as(items[i], b->Array_0[i]));
        }
        let read = bson_of_items(items)->Ok_0;
        assert forall|i: int| 0 <= i < items.len() implies #[trigger] read[i] == b->Array_0[i] by {
            assert(comes_in_as(items[i], read[i]));
            assert(comes_in_as(items[i], b->Array_0[i]));
        }
        assert(read =~= b->Array_0);
    }
}

proof fn lemma_items(items: Seq<JsonView>)
    ensures
        bson_of_items(items) is Ok <==> forall|i: int|
            0 <= i < items.len() ==> bson_of(#[trigger] items[i]) is Ok,
        bson_of_items(items) is Ok ==> bson_of_items(items)->Ok_0.len() == items.len()
            && forall|i: int|
            0 <= i < items.len() ==> comes_in_as(
                #[trigger] items[i],
                bson_of_items(items)->Ok_0[i],
            ),
    decreases items.len(),
{
    if items.len() > 0 {
        let front = items.drop_last();
        lemma_items(front);
        assert(items[items.len() - 1] == items.last());
        assert forall|i: int| 0 <= i < front.len() implies front[i] == items[i] by {}
        if bson_of_items(items) is Ok {
            assert forall|i: int| 0 <= i < items.len() implies comes_in_as(
                #[trigger] items[i],
                bson_of_items(items)->Ok_0[i],
            ) by {
                if i < front.len() {
                    assert(comes_in_as(front[i], bson_of_items(front)->Ok_0[i]));
                }
            }
        }
        if forall|i: int| 0 <= i < items.len() ==> bson_of(#[trigger] items[i]) is Ok {
            assert forall|i: int| 0 <= i < front.len() implies bson_of(
                #[trigger] front[i],
            ) is Ok by {
                assert(bson_of(items[i]) is Ok);
            }
            assert(bson_of(items[items.len() - 1]) is Ok);
        }
        if bson_of_items(items) is Ok {
            assert forall|i: int| 0 <= i < items.len() implies bson_of(
                #[trigger] items[i],
            ) is Ok by {
                if i < front.len() {
                    assert(bson_of(front[i]) is Ok);
                }
            }
        }
    }
}

/// An object of several members, each under a name of its own, comes in member by
/// member, in order.
pub proof fn an_object_comes_in_member_by_member(
    members: Seq<(Seq<char>, JsonView)>,
    b: BsonView,
    i: int,
)
    requires
        members.len() != 1,
        crate::json::distinct_keys(members),
        comes_in_as(JsonView::Object(members), b),
        0 <= i < members.len(),
    ensures
        b is Document,
        b->Document_0.len() == members.len(),
        b->Document_0[i].0 == members[i].0,
        comes_in_as(members[i].1, b->Document_0[i].1),
{
    lemma_members(members);
}

proof fn lemma_members(members: Seq<(Seq<char>, JsonView)>)
    requires
        crate::json::distinct_keys(members),
    ensures
        bson_of_members(members) is Ok ==> bson_of_members(members)->Ok_0.len() == members.len()
            && forall|i: int|
            0 <= i < members.len() ==> (#[trigger] members[i]).0 == bson_of_members(
                members,
            )->Ok_0[i].0 && comes_in_as(members[i].1, bson_of_members(members)->Ok_0[i].1),
    decreases members.len(),
{
    if members.len() > 0 && bson_of_members(members) is Ok {
        let front = members.drop_last();
        assert(crate::json::distinct_keys(front)) by {
            assert forall|i: int, j: int| 0 <= i < j < front.len() implies #[trigger] front[i].0
                != #[trigger] front[j].0 by {
                assert(members[i].0 != members[j].0);
            }
        }
        lemma_members(front);
        let so_far = bson_of_members(front)->Ok_0;
        let last = members.last();
        assert forall|i: int| 0 <= i < so_far.len() implies #[trigger] so_far[i].0 != last.0 by {
            assert(front[i].0 == so_far[i].0);
            assert(members[i].0 != members[members.len() - 1].0);
        }
        lemma_key_index_unique(so_far, last.0, so_far.len() as int);
        assert forall|i: int| 0 <= i < members.len() implies (#[trigger] members[i]).0
            == bson_of_members(members)->Ok_0[i].0 && comes_in_as(
            members[i].1,
            bson_of_members(members)->Ok_0[i].1,
        ) by {
            if i < front.len() {
                assert(front[i] == members[i]);
            }
        }
    }
}

/// An object of one member.
pub open spec fn one(name: Seq<char>, value: JsonView) -> JsonView {
    JsonView::Object(seq![(name, value)])
}

/// What stands under a name of Extended JSON comes in as what that name says: an id
/// by its digits, a number by its text, a time by its milliseconds or its text,
/// bytes by their base64, and the two ends of the order.
pub proof fn an_extended_value_comes_in_as_its_name_says(
    id: Seq<u8>,
    n: i64,
    k: i32,
    s: Seq<char>,
    u: u64,
    m: i64,
    any: JsonView,
)
    requires
        id.len() == 12,
        u < 0x8000_0000_0000_0000,
        m < 0,
    ensures
        comes_in_as(one("$oid"@, JsonView::String(hex_text(id))), BsonView::ObjectId(id)),
        comes_in_as(
            one("$numberLong"@, JsonView::String(signed_decimal(n as int))),
            BsonView::Int64(n),
        ),
        comes_in_as(
            one("$numberInt"@, JsonView::String(signed_decimal(k as int))),
            BsonView::Int32(k),
        ),
        comes_in_as(
            one("$date"@, JsonView::Number(JsonNumber::PosInt(u))),
            BsonView::DateTime(u as i64),
        ),
        comes_in_as(
            one("$date"@, JsonView::Number(JsonNumber::NegInt(m))),
            BsonView::DateTime(m),
        ),
        comes_in_as(
            one("$date"@, one("$numberLong"@, JsonView::String(signed_decimal(n as int)))),
            BsonView::DateTime(n),
        ),
        rfc3339_millis(s) is Some ==> comes_in_as(
            one("$date"@, JsonView::String(s)),
            BsonView::DateTime(rfc3339_millis(s)->0),
        ),
        double_written(s) is Some ==> comes_in_as(
            one("$numberDouble"@, JsonView::String(s)),
            BsonView::Double(double_written(s)->0),
        ),
        decimal128_written(s) is Some ==> comes_in_as(
            one("$numberDecimal"@, JsonView::String(s)),
            BsonView::Decimal128(decimal128_written(s)->0),
        ),
        base64_bytes(s) is Some ==> comes_in_as(
            one("$binary"@, one("base64"@, JsonView::String(s))),
            BsonView::Binary { subtype: 0, bytes: base64_bytes(s)->0 },
        ),
        comes_in_as(one("$minKey"@, any), BsonView::MinKey),
        comes_in_as(one("$maxKey"@, any), BsonView::MaxKey),
{
    lemma_extended_names();
    crate::codec::object_id_reads_back(id);
    crate::text::signed_decimal_reads_back(n as int);
    crate::text::signed_decimal_reads_back(k as int);
    lemma_lookup_one("$numberLong"@, JsonView::String(signed_decimal(n as int)));
    lemma_lookup_one("base64"@, JsonView::String(s));
}

proof fn lemma_lookup_one(name: Seq<char>, value: JsonView)
    ensures
        lookup(seq![(name, value)], name) == Some(value),
{
    lemma_key_index_unique(seq![(name, value)], name, 0);
}

/// What cannot be read under such a name is refused, not kept as a document: a text
/// that is no id, and a number that does not fit.
pub proof fn an_extended_value_that_cannot_be_read_is_refused(n: int, b: BsonView, other: JsonView)
    requires
        !(other is String),
    ensures
        n < i64::MIN || n > i64::MAX ==> !comes_in_as(
            one("$numberLong"@, JsonView::String(signed_decimal(n))),
            b,
        ),
        n < i32::MIN || n > i32::MAX ==> !comes_in_as(
            one("$numberInt"@, JsonView::String(signed_decimal(n))),
            b,
        ),
        !comes_in_as(one("$oid"@, other), b),
        !comes_in_as(one("$numberLong"@, other), b),
        !comes_in_as(one("$numberInt"@, other), b),
        !comes_in_as(one("$numberDouble"@, other), b),
        !comes_in_as(one("$numberDecimal"@, other), b),
{
    lemma_extended_names();
    crate::text::signed_decimal_reads_back(n);
}

proof fn lemma_extended_names()
    ensures
        "$oid"@.len() == 4,
        "$date"@.len() == 5,
        "$numberLong"@.len() == 11,
        "$numberInt"@.len() == 10,
        "$numberDouble"@.len() == 13,
        "$numberDecimal"@.len() == 14,
        "$binary"@.len() == 7,
        "$minKey"@.len() == 7,
        "$maxKey"@.len() == 7,
        "$binary"@[1] == 'b',
        "$minKey"@[1] == 'm',
        "$maxKey"@[1] == 'm',
        "$minKey"@[2] == 'i',
        "$maxKey"@[2] == 'a',
{
    reveal_strlit("$oid");
    reveal_strlit("$date");
    reveal_strlit("$numberLong");
    reveal_strlit("$numberInt");
    reveal_strlit("$numberDouble");
    reveal_strlit("$numberDecimal");
    reveal_strlit("$binary");
    reveal_strlit("$minKey");
    reveal_strlit("$maxKey");
}

/// A document is an object that is no other value, read as one; anything else is
/// refused.
pub proof fn a_document_is_an_object(value: Json, read: Result<Document, ApiError>)
    requires
        call_ensures(json_to_document, (&value,), read),
    ensures
        read is Ok ==> comes_in_as(value@, BsonView::Document(bson_members(read->Ok_0@))),
        read is Err ==> read->Err_0.status == 400 || !(exists|b: BsonView| comes_in_as(value@, b)),
{
    if read is Err && exists|b: BsonView| comes_in_as(value@, b) {
        let b = choose|b: BsonView| comes_in_as(value@, b);
        assert(bson_of(value@) is Ok);
    }
}

/// Whether a whole number goes out as itself.
pub open spec fn goes_out_as_number(v: JsonView, n: int) -> bool {
    &&& n >= 0 ==> v == JsonView::Number(JsonNumber::PosInt(n as u64))
    &&& n < 0 ==> v == JsonView::Number(JsonNumber::NegInt(n as i64))
}

/// A value goes out as JSON where JSON has it, and under the name of its type where
/// it does not.
pub proof fn a_value_goes_out_under_the_name_of_its_type(value: Bson, v: Json)
    requires
        call_ensures(bson_to_json, (&value,), v),
    ensures
        value is Null || value is Undefined || value is DbPointer ==> v@ == JsonView::Null,
        value is Boolean ==> v@ == JsonView::Bool(value->Boolean_0),
        value is String ==> v@ == JsonView::String(value->String_0@),
        value is Symbol ==> v@ == JsonView::String(value->Symbol_0@),
        value is Int32 ==> goes_out_as_number(v@, value->Int32_0 as int),
        value is Int64 ==> goes_out_as_number(v@, value->Int64_0 as int),
        value is Double && (value->Double_0 >> 52u64) & 0x7ff != 0x7ff ==> v@ == JsonView::Number(
            JsonNumber::Float(value->Double_0),
        ),
        value is Double && (value->Double_0 >> 52u64) & 0x7ff == 0x7ff ==> {
            ||| v@ == one("$numberDouble"@, JsonView::String("NaN"@)) && value->Double_0
                & 0xf_ffff_ffff_ffff != 0
            ||| v@ == one("$numberDouble"@, JsonView::String("-inf"@)) && value->Double_0
                & 0xf_ffff_ffff_ffff == 0 && value->Double_0 >> 63u64 == 1
            ||| v@ == one("$numberDouble"@, JsonView::String("inf"@)) && value->Double_0
                & 0xf_ffff_ffff_ffff == 0 && value->Double_0 >> 63u64 != 1
        },
        value is ObjectId ==> v@ == one(
            "$oid"@,
            JsonView::String(hex_text(value->ObjectId_0@)),
        ),
        value is DateTime ==> exists|n: JsonView|
            goes_out_as_number(n, value->DateTime_0 as int) && v@ == #[trigger] one("$date"@, n),
        value is Decimal128 ==> v@ == one(
            "$numberDecimal"@,
            JsonView::String(decimal128_text(value->Decimal128_0@)),
        ),
        value is MinKey ==> v@ == one("$minKey"@, JsonView::Number(JsonNumber::PosInt(1))),
        value is MaxKey ==> v@ == one("$maxKey"@, JsonView::Number(JsonNumber::PosInt(1))),
        value is JavaScriptCode ==> v@ == one(
            "$code"@,
            JsonView::String(value->JavaScriptCode_0@),
        ),
        value is RegularExpression ==> v@ == one(
            "$regularExpression"@,
            JsonView::Object(
                seq![
                    ("pattern"@, JsonView::String(value->pattern@)),
                    ("options"@, JsonView::String(value->options@)),
                ],
            ),
        ),
        value is Timestamp ==> v@ == one(
            "$timestamp"@,
            JsonView::Object(
                seq![
                    ("t"@, JsonView::Number(JsonNumber::PosInt(value->time as u64))),
                    ("i"@, JsonView::Number(JsonNumber::PosInt(value->increment as u64))),
                ],
            ),
        ),
        value is Binary ==> v@ == one(
            "$binary"@,
            JsonView::Object(
                seq![
                    ("base64"@, JsonView::String(base64_text(value->bytes@))),
                    ("subType"@, JsonView::String(hex_text(seq![value->subtype]))),
                ],
            ),
        ),
{
    if value is DateTime {
        let n = crate::json::json_integer(value->DateTime_0 as int);
        assert(v@ == one("$date"@, n));
    }
}

/// A list goes out item by item, and a document member by member where its names are
/// distinct, each in its place.
pub proof fn a_value_goes_out_part_by_part(
    items: Seq<BsonView>,
    members: Seq<(Seq<char>, BsonView)>,
    i: int,
)
    requires
        crate::json::distinct_keys(members),
    ensures
        json_of(BsonView::Array(items)) is Array,
        json_of(BsonView::Array(items))->Array_0.len() == items.len(),
        0 <= i < items.len() ==> json_of(BsonView::Array(items))->Array_0[i] == json_of(items[i]),
        json_of(BsonView::Document(members)) is Object,
        json_of(BsonView::Document(members))->Object_0.len() == members.len(),
        0 <= i < members.len() ==> json_of(BsonView::Document(members))->Object_0[i] == (
            members[i].0,
            json_of(members[i].1),
        ),
{
    lemma_out_items(items);
    lemma_out_members(members);
}

proof fn lemma_out_items(items: Seq<BsonView>)
    ensures
        json_of_items(items).len() == items.len(),
        forall|i: int| 0 <= i < items.len() ==> json_of_items(items)[i] == json_of(#[trigger] items[i]),
    decreases items.len(),
{
    if items.len() > 0 {
        let front = items.drop_last();
        lemma_out_items(front);
        assert forall|i: int| 0 <= i < items.len() implies json_of_items(items)[i] == json_of(
            #[trigger] items[i],
        ) by {
            if i < front.len() {
                assert(front[i] == items[i]);
            }
        }
    }
}

proof fn lemma_out_members(members: Seq<(Seq<char>, BsonView)>)
    requires
        crate::json::distinct_keys(members),
    ensures
        json_of_members(members).len() == members.len(),
        forall|i: int|
            0 <= i < members.len() ==> json_of_members(members)[i] == (
                (#[trigger] members[i]).0,
                json_of(members[i].1),
            ),
    decreases members.len(),
{
    if members.len() > 0 {
        let front = members.drop_last();
        assert(crate::json::distinct_keys(front)) by {
            assert forall|i: int, j: int| 0 <= i < j < front.len() implies #[trigger] front[i].0
                != #[trigger] front[j].0 by {
                assert(members[i].0 != members[j].0);
            }
        }
        lemma_out_members(front);
        let so_far = json_of_members(front);
        assert forall|i: int| 0 <= i < so_far.len() implies #[trigger] so_far[i].0
            != members.last().0 by {
            assert(so_far[i].0 == front[i].0);
            assert(members[i].0 != members[members.len() - 1].0);
        }
        lemma_key_index_unique(so_far, members.last().0, so_far.len() as int);
        assert forall|i: int| 0 <= i < members.len() implies json_of_members(members)[i] == (
            (#[trigger] members[i]).0,
            json_of(members[i].1),
        ) by {
            if i < front.len() {
                assert(front[i] == members[i]);
            }
        }
    }
}

/// A document goes out as it would as a value, and what is looked up in it is the
/// value of the first member of the name, and as a text only where it is one.
pub proof fn a_document_goes_out_as_a_value_does(
    doc: Document,
    v: Json,
    key: &str,
    value: Option<&Bson>,
    text: Option<&String>,
    i: int,
)
    requires
        call_ensures(document_to_json, (&doc,), v),
        call_ensures(get, (&doc, key), value),
        call_ensures(get_str, (&doc, key), text),
        0 <= i < doc@.len(),
        forall|k: int| 0 <= k < i ==> (#[trigger] doc@[k]).0@ != key@,
        doc@[i].0@ == key@,
    ensures
        v@ == json_of(BsonView::Document(bson_members(doc@))),
        value is Some && value->0@ == doc@[i].1@,
        text is Some <==> doc@[i].1@ is String,
        text is Some ==> doc@[i].1@ == BsonView::String(text->0@),
{
    let members = bson_members(doc@);
    assert forall|k: int| 0 <= k < i implies #[trigger] members[k].0 != key@ by {
        assert(doc@[k].0@ != key@);
    }
    lemma_key_index_unique(members, key@, i);
}

/// The text of a value: words, whole numbers in decimal, texts between quotes, lists
/// and objects between their brackets with commas between their parts.
pub proof fn a_value_is_written_as_json(value: Json, text: String, n: u64)
    requires
        call_ensures(to_text, (&value,), text),
    ensures
        value@ == JsonView::Null ==> text@ == "null"@,
        value@ == JsonView::Bool(true) ==> text@ == "true"@,
        value@ == JsonView::Bool(false) ==> text@ == "false"@,
        value@ == JsonView::Number(JsonNumber::PosInt(n)) ==> text@ == crate::text::decimal(
            n as nat,
        ),
        value@ is String ==> text@ == "\""@ + crate::codec::escaped(value@->String_0) + "\""@,
        value@ == JsonView::Array(Seq::empty()) ==> text@ == "[]"@,
        value@ == JsonView::Object(Seq::empty()) ==> text@ == "{}"@,
{
    reveal_strlit("[");
    reveal_strlit("]");
    reveal_strlit("[]");
    reveal_strlit("{");
    reveal_strlit("}");
    reveal_strlit("{}");
    if value@ == JsonView::Array(Seq::<JsonView>::empty()) {
        assert(crate::codec::item_texts(Seq::<JsonView>::empty()) =~= Seq::<Seq<char>>::empty());
        assert(text@ =~= "[]"@);
    }
    if value@ == JsonView::Object(Seq::<(Seq<char>, JsonView)>::empty()) {
        assert(crate::codec::member_texts(Seq::<(Seq<char>, JsonView)>::empty()) =~= Seq::<
            Seq<char>,
        >::empty());
        assert(text@ =~= "{}"@);
    }
}

/// Whether a text writes bytes in lower-case hexadecimal digits, two to a byte, the
/// higher first.
pub open spec fn writes_hex(s: Seq<char>, bytes: Seq<u8>) -> bool {
    let digits = "0123456789abcdef"@;
    &&& s.len() == 2 * bytes.len()
    &&& forall|i: int|
        0 <= i < bytes.len() ==> s[2 * i] == digits[(#[trigger] bytes[i]) as int / 16] && s[2 * i
            + 1] == digits[bytes[i] as int % 16]
}

/// Bytes are written in lower-case hexadecimal digits.
pub proof fn bytes_are_written_in_lower_case_hex(out: &mut String, bytes: &[u8])
    requires
        call_ensures(push_hex, (out, bytes), ()),
    ensures
        final(out)@.len() >= old(out)@.len(),
        final(out)@.take(old(out)@.len() as int) == old(out)@,
        writes_hex(final(out)@.skip(old(out)@.len() as int), bytes@),
{
    lemma_writes_hex(bytes@);
    assert(final(out)@.take(old(out)@.len() as int) =~= old(out)@);
    assert(final(out)@.skip(old(out)@.len() as int) =~= hex_text(bytes@));
}

pub proof fn lemma_writes_hex(bytes: Seq<u8>)
    ensures
        writes_hex(hex_text(bytes), bytes),
{
    reveal_strlit("0123456789abcdef");
    let s = hex_text(bytes);
    assert forall|i: int| 0 <= i < bytes.len() implies s[2 * i] == "0123456789abcdef"@[(
    #[trigger] bytes[i]) as int / 16] && s[2 * i + 1] == "0123456789abcdef"@[bytes[i] as int
        % 16] by {
        assert((2 * i) / 2 == i && (2 * i + 1) / 2 == i);
    }
}

/// Whether members were changed in this way alone: a name that was there keeps its
/// place and has the value now, and one that was not stands at the end.
pub open spec fn only_sets<V>(
    before: Seq<(Seq<char>, V)>,
    after: Seq<(Seq<char>, V)>,
    key: Seq<char>,
    value: V,
) -> bool {
    if forall|i: int| 0 <= i < before.len() ==> (#[trigger] before[i]).0 != key {
        after.len() == before.len() + 1 && after.drop_last() == before && after.last() == (
            key,
            value,
        )
    } else {
        &&& after.len() == before.len()
        &&& exists|at: int|
            {
                &&& 0 <= at < before.len()
                &&& (#[trigger] before[at]).0 == key
                &&& after[at] == (key, value)
                &&& forall|i: int| 0 <= i < at ==> (#[trigger] before[i]).0 != key
                &&& forall|i: int| 0 <= i < before.len() && i != at ==> #[trigger] after[i]
                    == before[i]
            }
    }
}

proof fn lemma_put_only_sets<V>(before: Seq<(Seq<char>, V)>, key: Seq<char>, value: V)
    ensures
        only_sets(before, put(before, key, value), key, value),
{
    lemma_key_index(before, key);
    let at = key_index(before, key);
    let after = put(before, key, value);
    if at < before.len() {
        assert(before[at].0 == key);
    } else {
        assert(after.drop_last() =~= before);
    }
}

/// Putting a value under a name changes nothing else, nor the order.
pub proof fn putting_changes_nothing_else<V>(
    members: &mut Vec<(String, V)>,
    key: String,
    value: V,
    doc: &mut Document,
    name: &str,
    held: Bson,
    fields: &mut Vec<(String, Json)>,
    field: String,
    shown: Json,
)
    requires
        call_ensures(insert::<V>, (members, key, value), ()),
        call_ensures(put_bson, (doc, name, held), ()),
        call_ensures(put_json, (fields, field, shown), ()),
    ensures
        only_sets(named(old(members)@), named(final(members)@), key@, value),
        only_sets(bson_members(old(doc)@), bson_members(final(doc)@), name@, held@),
        only_sets(json_members(old(fields)@), json_members(final(fields)@), field@, shown@),
{
    lemma_put_only_sets(named(old(members)@), key@, value);
    lemma_put_only_sets(bson_members(old(doc)@), name@, held@);
    lemma_put_only_sets(json_members(old(fields)@), field@, shown@);
}

} // verus!
