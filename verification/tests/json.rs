use kimmy_api::codec::to_text;
use kimmy_api::error::ErrorCode;
use kimmy_api::json::{
    bson_to_json, copy_document, document_to_json, get, json_to_bson, json_to_document, put_bson,
    Bson, Document, Json, JsonNumber,
};

fn num(n: u64) -> Json {
    Json::Number(JsonNumber::PosInt(n))
}

fn float(x: f64) -> Json {
    Json::Number(JsonNumber::Float(x.to_bits()))
}

fn text(s: &str) -> Json {
    Json::String(s.to_string())
}

fn object(members: Vec<(&str, Json)>) -> Json {
    Json::Object(members.into_iter().map(|(k, v)| (k.to_string(), v)).collect())
}

fn wrapper(name: &str, value: Json) -> Json {
    object(vec![(name, value)])
}

fn round_trip(value: &Json) -> Json {
    bson_to_json(&json_to_bson(value).unwrap())
}

#[test]
fn plain_json_round_trips() {
    let v = object(vec![
        ("s", text("text")),
        ("b", Json::Bool(true)),
        ("n", Json::Null),
        ("a", Json::Array(vec![num(1), num(2), num(3)])),
    ]);
    assert_eq!(round_trip(&v), v);
}

#[test]
fn whole_numbers_stay_integers() {
    assert_eq!(json_to_bson(&num(42)).unwrap(), Bson::Int32(42));
    assert_eq!(json_to_bson(&num(3_000_000_000)).unwrap(), Bson::Int64(3_000_000_000));
    assert_eq!(json_to_bson(&float(1.5)).unwrap(), Bson::Double(1.5f64.to_bits()));
}

#[test]
fn large_integers_survive_the_round_trip_exactly() {
    let big = 9_007_199_254_740_993u64;
    assert_eq!(json_to_bson(&num(big)).unwrap(), Bson::Int64(big as i64));
    assert_eq!(round_trip(&num(big)), num(big));
}

#[test]
fn object_ids_use_extended_json() {
    let oid = bson::oid::ObjectId::new();
    let value = wrapper("$oid", text(&oid.to_hex()));
    assert_eq!(json_to_bson(&value).unwrap(), Bson::ObjectId(oid.bytes()));
    assert_eq!(round_trip(&value), value);
}

#[test]
fn dates_accept_millis_and_rfc3339() {
    assert_eq!(
        json_to_bson(&wrapper("$date", num(1_700_000_000_000))).unwrap(),
        Bson::DateTime(1_700_000_000_000)
    );
    let parsed = json_to_bson(&wrapper("$date", text("2023-11-14T22:13:20Z"))).unwrap();
    assert!(matches!(parsed, Bson::DateTime(_)));
    assert_eq!(parsed, Bson::DateTime(1_700_000_000_000));
}

#[test]
fn explicit_number_wrappers_are_honoured() {
    assert_eq!(
        json_to_bson(&wrapper("$numberLong", text("9007199254740993"))).unwrap(),
        Bson::Int64(9_007_199_254_740_993)
    );
    assert_eq!(json_to_bson(&wrapper("$numberInt", text("7"))).unwrap(), Bson::Int32(7));
    assert_eq!(
        json_to_bson(&wrapper("$numberDouble", text("2.5"))).unwrap(),
        Bson::Double(2.5f64.to_bits())
    );
}

#[test]
fn binary_round_trips() {
    let value = wrapper(
        "$binary",
        object(vec![("base64", text("AQIDBA==")), ("subType", text("00"))]),
    );
    let bson = json_to_bson(&value).unwrap();
    assert!(matches!(&bson, Bson::Binary { bytes, .. } if *bytes == vec![1, 2, 3, 4]));
    assert_eq!(round_trip(&value), value);
}

#[test]
fn a_single_key_object_that_is_not_a_wrapper_stays_a_document() {
    let v = wrapper("total", num(1));
    assert_eq!(round_trip(&v), v);
    let v = wrapper("$unknown", num(1));
    assert_eq!(round_trip(&v), v);
}

#[test]
fn a_malformed_wrapper_is_an_error_rather_than_a_silent_document() {
    assert!(json_to_bson(&wrapper("$oid", text("not-hex"))).is_err());
    assert!(json_to_bson(&wrapper("$numberLong", text("abc"))).is_err());
    assert!(json_to_bson(&wrapper("$date", Json::Bool(true))).is_err());
}

#[test]
fn non_finite_doubles_do_not_become_null() {
    let out = bson_to_json(&Bson::Double(f64::NAN.to_bits()));
    assert_eq!(out, wrapper("$numberDouble", text("NaN")));
    let out = bson_to_json(&Bson::Double(f64::INFINITY.to_bits()));
    assert_eq!(out, wrapper("$numberDouble", text("inf")));
}

#[test]
fn nested_wrappers_convert_inside_documents_and_arrays() {
    let oid = bson::oid::ObjectId::new();
    let value = wrapper(
        "items",
        Json::Array(vec![wrapper("id", wrapper("$oid", text(&oid.to_hex())))]),
    );
    let doc = json_to_document(&value).unwrap();
    let items = match get(&doc, "items") {
        Some(Bson::Array(items)) => items,
        other => panic!("{other:?}"),
    };
    let first = match &items[0] {
        Bson::Document(first) => first,
        other => panic!("{other:?}"),
    };
    assert_eq!(get(first, "id"), Some(&Bson::ObjectId(oid.bytes())));
}

#[test]
fn non_objects_are_rejected_where_a_document_is_required() {
    assert!(json_to_document(&Json::Array(vec![num(1), num(2)])).is_err());
    assert!(json_to_document(&text("text")).is_err());
}

#[test]
fn every_malformed_wrapper_is_a_bad_request_that_names_it() {
    for name in
        ["$oid", "$date", "$numberLong", "$numberInt", "$numberDouble", "$numberDecimal", "$binary"]
    {
        let e = json_to_bson(&wrapper(name, Json::Null)).unwrap_err();
        assert_eq!((e.status, e.code), (400, ErrorCode::BadRequest), "{name}");
        assert!(e.message.contains(name), "{}", e.message);
    }
}

#[test]
fn a_refused_value_inside_a_document_refuses_the_document() {
    let bad = wrapper("$oid", text("zz"));
    let inside = object(vec![("a", num(1)), ("b", Json::Array(vec![bad]))]);
    let alone = json_to_bson(&wrapper("$oid", text("zz"))).unwrap_err();
    assert_eq!(json_to_bson(&inside).unwrap_err().message, alone.message);
    assert_eq!(
        json_to_document(&Json::Null).unwrap_err().message,
        "expected a JSON object"
    );
}

#[test]
fn numbers_beyond_64_bit_signed_become_doubles() {
    assert_eq!(
        json_to_bson(&num(u64::MAX)).unwrap(),
        Bson::Double((u64::MAX as f64).to_bits())
    );
    assert_eq!(
        json_to_bson(&Json::Number(JsonNumber::NegInt(-5))).unwrap(),
        Bson::Int32(-5)
    );
}

#[test]
fn decimals_are_read_and_written_by_their_digits() {
    let value = wrapper("$numberDecimal", text("12.50"));
    let bson = json_to_bson(&value).unwrap();
    assert!(matches!(bson, Bson::Decimal128(_)));
    assert_eq!(bson_to_json(&bson), value);
}

#[test]
fn dates_and_ids_come_back_as_they_went_in() {
    let doc: Document = vec![
        ("when".to_string(), Bson::DateTime(1_700_000_000_000)),
        ("id".to_string(), Bson::ObjectId([1; 12])),
        ("n".to_string(), Bson::Int64(5_000_000_000)),
        ("x".to_string(), Bson::Double(0.25f64.to_bits())),
    ];
    let json = document_to_json(&doc);
    assert_eq!(json_to_document(&json).unwrap(), doc);
}

#[test]
fn a_document_keeps_the_place_of_a_key_it_already_has() {
    let mut doc: Document =
        vec![("a".to_string(), Bson::Int32(1)), ("b".to_string(), Bson::Int32(2))];
    put_bson(&mut doc, "a", Bson::Null);
    put_bson(&mut doc, "c", Bson::Boolean(true));
    assert_eq!(
        doc,
        vec![
            ("a".to_string(), Bson::Null),
            ("b".to_string(), Bson::Int32(2)),
            ("c".to_string(), Bson::Boolean(true)),
        ]
    );
    assert_eq!(copy_document(&doc), doc);
}

#[test]
fn a_value_is_written_compactly_in_the_order_of_its_members() {
    let value = object(vec![
        ("b", Json::Array(vec![num(1), Json::Number(JsonNumber::NegInt(-2)), float(0.5)])),
        ("a", text("quote \" and \\ and \n")),
        ("z", Json::Null),
        ("t", Json::Bool(true)),
        ("o", object(vec![])),
    ]);
    let expected = "{\"b\":[1,-2,0.5],\"a\":\"quote \\\" and \\\\ and \\n\",\"z\":null,\
                    \"t\":true,\"o\":{}}";
    assert_eq!(to_text(&value), expected);
    let parsed: serde_json::Value = serde_json::from_str(expected).unwrap();
    assert_eq!(parsed.to_string(), expected);
}
