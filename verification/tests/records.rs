use record_codec::document::{clone_value, Field, Value};
use record_codec::error::DecodeError;
use record_codec::event::Event;
use record_codec::identifier::Identifier;
use record_codec::locator::Locator;
use record_codec::request::{
    clone_gifts, decode_gifts, encode_gifts, same_gifts, Request, RequestType,
};
use record_codec::round_trip::{demonstrate_event, demonstrate_request, replay_event, replay_request};
use record_codec::span::Span;
use record_codec::stream::Stream;
use record_codec::tariff::{Gift, PrivateTariff, PublicTariff};
use record_codec::timestamp::Timestamp;

const SAMPLE: &str = r#"{
    "type": "success",
    "stream": {
        "user_id": "8d234120-0bda-49b2-b7e0-fbd3912f6cbf",
        "is_private": false,
        "settings": 45345,
        "shared_url": "https://n3.example.com/sapi",
        "public_tariff": {
            "id": 1,
            "price": 100,
            "duration": "1h",
            "description": "Public tariff"
        },
        "private_tariff": {
            "client_price": 250,
            "duration": "1m",
            "description": "Private tariff"
        }
    },
    "gifts": [
        { "id": 1, "price": 2, "description": "Gift 1" },
        { "id": 2, "price": 3, "description": "Gift 2" }
    ],
    "debug": {
        "duration": "234ms",
        "at": "2019-06-28T08:35:46+00:00"
    }
}"#;

fn lift(json: &serde_json::Value) -> Value {
    match json {
        serde_json::Value::Null => Value::Null,
        serde_json::Value::Bool(b) => Value::Bool(*b),
        serde_json::Value::Number(n) => match n.as_u64() {
            Some(whole) => Value::Number(whole),
            None => Value::Decimal(n.to_string()),
        },
        serde_json::Value::String(s) => Value::Text(s.clone()),
        serde_json::Value::Array(items) => Value::List(items.iter().map(lift).collect()),
        serde_json::Value::Object(members) => Value::Record(
            members.iter().map(|(name, value)| Field { name: name.clone(), value: lift(value) }).collect(),
        ),
    }
}

fn lower(value: &Value) -> serde_json::Value {
    match value {
        Value::Null => serde_json::Value::Null,
        Value::Bool(b) => serde_json::Value::Bool(*b),
        Value::Number(n) => serde_json::Value::from(*n),
        Value::Decimal(s) => s.parse::<serde_json::Value>().unwrap(),
        Value::Text(s) => serde_json::Value::String(s.clone()),
        Value::List(items) => serde_json::Value::Array(items.iter().map(lower).collect()),
        Value::Record(fields) => serde_json::Value::Object(
            fields.iter().map(|field| (field.name.clone(), lower(&field.value))).collect(),
        ),
    }
}

fn read(text: &str) -> Value {
    lift(&serde_json::from_str::<serde_json::Value>(text).unwrap())
}

fn record(fields: Vec<(&str, Value)>) -> Value {
    Value::Record(fields.into_iter().map(|(name, value)| Field::new(name, value)).collect())
}

fn text(s: &str) -> Value {
    Value::text(s)
}

fn without(doc: &Value, path: &[&str]) -> Value {
    match doc {
        Value::Record(fields) => Value::Record(
            fields
                .iter()
                .filter(|field| !(path.len() == 1 && field.name == path[0]))
                .map(|field| Field {
                    name: field.name.clone(),
                    value: if path.len() > 1 && field.name == path[0] {
                        without(&field.value, &path[1..])
                    } else {
                        field.value.clone()
                    },
                })
                .collect(),
        ),
        other => other.clone(),
    }
}

fn with(doc: &Value, path: &[&str], new: &Value) -> Value {
    match doc {
        Value::Record(fields) => Value::Record(
            fields
                .iter()
                .map(|field| Field {
                    name: field.name.clone(),
                    value: if field.name == path[0] {
                        if path.len() == 1 {
                            new.clone()
                        } else {
                            with(&field.value, &path[1..], new)
                        }
                    } else {
                        field.value.clone()
                    },
                })
                .collect(),
        ),
        other => other.clone(),
    }
}

fn sample_stream() -> Stream {
    Stream {
        user_id: Identifier { value: 0x8d234120_0bda_49b2_b7e0_fbd3912f6cbf_u128 },
        is_private: false,
        settings: 45345,
        shared_url: Locator { text: "https://n3.example.com/sapi".to_string() },
        public_tariff: PublicTariff {
            id: 1,
            price: 100,
            duration: Span { secs: 3600, nanos: 0 },
            description: "Public tariff".to_string(),
        },
        private_tariff: PrivateTariff {
            client_price: 250,
            duration: Span { secs: 60, nanos: 0 },
            description: "Private tariff".to_string(),
        },
    }
}

fn sample_request() -> Request {
    Request {
        request_type: RequestType::Success,
        stream: sample_stream(),
        gifts: vec![
            Gift { id: 1, price: 2, description: "Gift 1".to_string() },
            Gift { id: 2, price: 3, description: "Gift 2".to_string() },
        ],
        debug: record_codec::request::Debug {
            duration: Span { secs: 0, nanos: 234_000_000 },
            at: Timestamp { secs: 1_561_710_946, nanos: 0 },
        },
    }
}

#[test]
fn test_1() {
    let request = Request::decode(&read(SAMPLE)).unwrap();

    assert_eq!(
        request.stream.user_id,
        Identifier::decode("8d234120-0bda-49b2-b7e0-fbd3912f6cbf").unwrap()
    );
    assert_eq!(request.debug.duration, Span::from_millis(234));
    assert_eq!(
        request.stream.shared_url,
        Locator::decode("https://n3.example.com/sapi").unwrap()
    );

    assert_eq!(request.gifts.len(), 2);
    assert_eq!(request.gifts[0].id, 1);
    assert_eq!(request.gifts[1].id, 2);
}

#[test]
fn request_decodes_every_field() {
    let request = Request::decode(&read(SAMPLE)).unwrap();
    assert_eq!(request, sample_request());
    assert!(request.is_valid());
}

#[test]
fn request_encodes_every_field_under_its_name() {
    let doc = sample_request().encode();
    let expected = record(vec![
        ("type", text("success")),
        (
            "stream",
            record(vec![
                ("user_id", text("8d234120-0bda-49b2-b7e0-fbd3912f6cbf")),
                ("is_private", Value::Bool(false)),
                ("settings", Value::Number(45345)),
                ("shared_url", text("https://n3.example.com/sapi")),
                (
                    "public_tariff",
                    record(vec![
                        ("id", Value::Number(1)),
                        ("price", Value::Number(100)),
                        ("duration", text("1h")),
                        ("description", text("Public tariff")),
                    ]),
                ),
                (
                    "private_tariff",
                    record(vec![
                        ("client_price", Value::Number(250)),
                        ("duration", text("1m")),
                        ("description", text("Private tariff")),
                    ]),
                ),
            ]),
        ),
        (
            "gifts",
            Value::List(vec![
                record(vec![
                    ("id", Value::Number(1)),
                    ("price", Value::Number(2)),
                    ("description", text("Gift 1")),
                ]),
                record(vec![
                    ("id", Value::Number(2)),
                    ("price", Value::Number(3)),
                    ("description", text("Gift 2")),
                ]),
            ]),
        ),
        (
            "debug",
            record(vec![("duration", text("234ms")), ("at", text("2019-06-28T08:35:46Z"))]),
        ),
    ]);
    assert_eq!(doc, expected);
}

#[test]
fn request_survives_the_round_trip() {
    let request = sample_request();
    assert!(request.is_valid());
    assert_eq!(replay_request(&request), Ok(sample_request()));
    assert_eq!(Request::decode(&request.encode()), Ok(sample_request()));
    assert_eq!(demonstrate_request(&read(SAMPLE)), Ok(true));
    assert_eq!(demonstrate_request(&request.encode()), Ok(true));
}

#[test]
fn request_survives_the_round_trip_through_json_text() {
    let request = sample_request();
    let written = serde_json::to_string(&lower(&request.encode())).unwrap();
    assert_eq!(Request::decode(&read(&written)), Ok(request));
}

#[test]
fn demonstration_of_a_broken_document_gives_its_failure() {
    let doc = read(SAMPLE);
    assert_eq!(demonstrate_request(&without(&doc, &["debug"])), Err(DecodeError::MissingField));
    assert_eq!(
        demonstrate_request(&with(&doc, &["type"], &text("failure"))),
        Err(DecodeError::UnknownVariant)
    );
    assert_eq!(demonstrate_request(&Value::Null), Err(DecodeError::TypeMismatch));
}

#[test]
fn request_type_knows_one_tag() {
    assert_eq!(RequestType::decode("success"), Ok(RequestType::Success));
    assert_eq!(RequestType::Success.encode(), "success");
    for other in ["failure", "", "Success", "SUCCESS", "success ", "succes", "successs"] {
        assert_eq!(RequestType::decode(other), Err(DecodeError::UnknownVariant));
    }
}

#[test]
fn request_with_another_type_is_refused() {
    let doc = read(SAMPLE);
    assert_eq!(
        Request::decode(&with(&doc, &["type"], &text("failure"))),
        Err(DecodeError::UnknownVariant)
    );
    assert_eq!(
        Request::decode(&with(&doc, &["type"], &Value::Number(1))),
        Err(DecodeError::TypeMismatch)
    );
}

#[test]
fn event_is_encoded_with_the_tag_and_decoded_without() {
    let event = Event { name: "Event 1".to_string(), date: "2024-11-14".to_string() };
    let doc = event.encode();
    assert_eq!(
        doc,
        record(vec![("name", text("Event 1")), ("date", text("Date: 2024-11-14"))])
    );
    let back = Event::decode(&doc).unwrap();
    assert_eq!(back.date, "2024-11-14");
    assert_eq!(back.name, "Event 1");
    assert_eq!(back, event);
}

#[test]
fn event_goes_through_json_text() {
    let event = Event { name: "Event 1".to_string(), date: "2024-11-14".to_string() };
    let json = serde_json::to_string(&lower(&event.encode())).unwrap();
    assert_eq!(json, r#"{"name":"Event 1","date":"Date: 2024-11-14"}"#);
    assert_eq!(Event::decode(&read(&json)), Ok(event));
}

#[test]
fn event_without_the_tag_decodes_unchanged() {
    let doc = record(vec![("name", text("Event 2")), ("date", text("2024-11-15"))]);
    assert_eq!(
        Event::decode(&doc),
        Ok(Event { name: "Event 2".to_string(), date: "2024-11-15".to_string() })
    );
}

#[test]
fn event_survives_the_round_trip_whatever_its_date_holds() {
    for date in ["2024-11-14", "", "Date: 2024", "Date: Date: ", "no tag"] {
        let event = Event { name: "n".to_string(), date: date.to_string() };
        assert_eq!(demonstrate_event(&event.encode()), Ok(true));
        assert_eq!(replay_event(&event), Ok(Event { name: "n".to_string(), date: date.to_string() }));
    }
    assert_eq!(demonstrate_event(&record(vec![("name", text("n"))])), Err(DecodeError::MissingField));
    assert_eq!(
        demonstrate_event(&record(vec![("name", text("n")), ("date", text("untagged"))])),
        Ok(true)
    );
}

#[test]
fn event_with_a_missing_or_mistyped_field_is_refused() {
    assert_eq!(Event::decode(&record(vec![("name", text("n"))])), Err(DecodeError::MissingField));
    assert_eq!(Event::decode(&record(vec![("date", text("d"))])), Err(DecodeError::MissingField));
    assert_eq!(Event::decode(&record(vec![])), Err(DecodeError::MissingField));
    assert_eq!(
        Event::decode(&record(vec![("name", Value::Number(1)), ("date", text("d"))])),
        Err(DecodeError::TypeMismatch)
    );
    assert_eq!(
        Event::decode(&record(vec![("name", text("n")), ("date", Value::Null)])),
        Err(DecodeError::TypeMismatch)
    );
    assert_eq!(Event::decode(&text("n")), Err(DecodeError::TypeMismatch));
}

#[test]
fn gifts_keep_their_order() {
    let doc = read(SAMPLE);
    let gifts = match doc.member("gifts").unwrap() {
        Value::List(items) => decode_gifts(items).unwrap(),
        _ => unreachable!(),
    };
    assert_eq!(gifts.len(), 2);
    assert_eq!(gifts[0].id, 1);
    assert_eq!(gifts[1].id, 2);
    assert_eq!(gifts[0], Gift { id: 1, price: 2, description: "Gift 1".to_string() });
    assert_eq!(gifts[1], Gift { id: 2, price: 3, description: "Gift 2".to_string() });

    let swapped = read(r#"[{"id":2,"price":3,"description":"b"},{"id":1,"price":2,"description":"a"}]"#);
    let gifts = match &swapped {
        Value::List(items) => decode_gifts(items).unwrap(),
        _ => unreachable!(),
    };
    assert_eq!(gifts[0].id, 2);
    assert_eq!(gifts[1].id, 1);
    let back = encode_gifts(&gifts);
    assert_eq!(Value::List(back), swapped);
}

#[test]
fn gifts_may_be_empty() {
    let doc = with(&read(SAMPLE), &["gifts"], &Value::List(vec![]));
    let request = Request::decode(&doc).unwrap();
    assert!(request.gifts.is_empty());
    assert_eq!(replay_request(&request).unwrap().gifts.len(), 0);
    assert_eq!(encode_gifts(&Vec::new()), Vec::<Value>::new());
}

#[test]
fn gifts_fail_with_the_first_failure() {
    let items = read(r#"[{"id":1,"price":2,"description":"a"},{"id":"x","price":2},{"price":2}]"#);
    match &items {
        Value::List(items) => assert_eq!(decode_gifts(items), Err(DecodeError::TypeMismatch)),
        _ => unreachable!(),
    }
    let items = read(r#"[{"id":1,"price":2,"description":"a"},{"price":2},{"id":"x"}]"#);
    match &items {
        Value::List(items) => assert_eq!(decode_gifts(items), Err(DecodeError::MissingField)),
        _ => unreachable!(),
    }
    let doc = with(&read(SAMPLE), &["gifts"], &text("none"));
    assert_eq!(Request::decode(&doc), Err(DecodeError::TypeMismatch));
}

#[test]
fn gifts_are_compared_place_by_place() {
    let a = vec![Gift { id: 1, price: 2, description: "a".to_string() }];
    let b = vec![Gift { id: 1, price: 2, description: "a".to_string() }];
    let c = vec![Gift { id: 1, price: 2, description: "c".to_string() }];
    assert!(same_gifts(&a, &b));
    assert!(!same_gifts(&a, &c));
    assert!(!same_gifts(&a, &Vec::new()));
    assert!(same_gifts(&Vec::new(), &Vec::new()));
}

#[test]
fn debug_duration_of_234ms_is_234_milliseconds() {
    let request = Request::decode(&read(SAMPLE)).unwrap();
    assert_eq!(request.debug.duration, Span { secs: 0, nanos: 234_000_000 });
    assert_eq!(request.debug.at, Timestamp { secs: 1_561_710_946, nanos: 0 });
    let debug = record_codec::request::Debug::decode(&record(vec![("duration", text("234ms")), ("at", text("1970-01-01T00:00:01Z"))]));
    assert_eq!(
        debug,
        Ok(record_codec::request::Debug { duration: Span::from_millis(234), at: Timestamp { secs: 1, nanos: 0 } })
    );
}

#[test]
fn debug_with_a_broken_scalar_is_refused() {
    let doc = read(SAMPLE);
    assert_eq!(
        Request::decode(&with(&doc, &["debug", "duration"], &text("soon"))),
        Err(DecodeError::FormatError)
    );
    assert_eq!(
        Request::decode(&with(&doc, &["debug", "at"], &text("now"))),
        Err(DecodeError::FormatError)
    );
    assert_eq!(
        Request::decode(&with(&doc, &["debug", "duration"], &Value::Number(234))),
        Err(DecodeError::TypeMismatch)
    );
}

#[test]
fn shared_url_decodes_and_encodes_to_an_equal_url() {
    let request = Request::decode(&read(SAMPLE)).unwrap();
    assert_eq!(request.stream.shared_url.encode(), "https://n3.example.com/sapi");
    let again = Locator::decode(&request.stream.shared_url.encode()).unwrap();
    assert_eq!(again, request.stream.shared_url);

    let doc = with(&read(SAMPLE), &["stream", "shared_url"], &text("n3.example.com/sapi"));
    assert_eq!(Request::decode(&doc), Err(DecodeError::InvalidUrl));
}

#[test]
fn user_id_in_another_form_is_refused() {
    let doc = with(
        &read(SAMPLE),
        &["stream", "user_id"],
        &text("8d2341200bda49b2b7e0fbd3912f6cbf"),
    );
    assert_eq!(Request::decode(&doc), Err(DecodeError::InvalidIdentifier));
}

#[test]
fn omitting_a_required_field_fails_with_missing_field() {
    let doc = read(SAMPLE);
    let paths: Vec<Vec<&str>> = vec![
        vec!["type"],
        vec!["stream"],
        vec!["gifts"],
        vec!["debug"],
        vec!["stream", "user_id"],
        vec!["stream", "is_private"],
        vec!["stream", "settings"],
        vec!["stream", "shared_url"],
        vec!["stream", "public_tariff"],
        vec!["stream", "private_tariff"],
        vec!["stream", "public_tariff", "id"],
        vec!["stream", "public_tariff", "price"],
        vec!["stream", "public_tariff", "duration"],
        vec!["stream", "public_tariff", "description"],
        vec!["stream", "private_tariff", "client_price"],
        vec!["stream", "private_tariff", "duration"],
        vec!["stream", "private_tariff", "description"],
        vec!["debug", "duration"],
        vec!["debug", "at"],
    ];
    for path in paths {
        assert_eq!(Request::decode(&without(&doc, &path)), Err(DecodeError::MissingField));
    }
}

#[test]
fn first_failure_in_schema_order_wins() {
    let doc = with(&read(SAMPLE), &["type"], &text("failure"));
    assert_eq!(
        Request::decode(&without(&doc, &["stream", "user_id"])),
        Err(DecodeError::UnknownVariant)
    );
    let doc = with(&read(SAMPLE), &["stream", "settings"], &text("many"));
    assert_eq!(
        Request::decode(&without(&doc, &["debug"])),
        Err(DecodeError::TypeMismatch)
    );
}

#[test]
fn numbers_must_be_whole_and_fit_32_bits() {
    let doc = read(SAMPLE);
    for bad in ["-1", "1.5", "4294967296", "\"1\"", "null", "true", "[]", "{}"] {
        let changed = with(&doc, &["stream", "settings"], &read(bad));
        assert_eq!(Request::decode(&changed), Err(DecodeError::TypeMismatch));
    }
    let changed = with(&doc, &["stream", "settings"], &read("4294967295"));
    assert_eq!(Request::decode(&changed).unwrap().stream.settings, u32::MAX);
    assert_eq!(Value::Number(4_294_967_296).as_u32(), Err(DecodeError::TypeMismatch));
    assert_eq!(Value::Number(7).as_u32(), Ok(7));
    assert_eq!(Value::number(7), Value::Number(7));
}

#[test]
fn truth_values_and_texts_are_not_coerced() {
    let doc = read(SAMPLE);
    let changed = with(&doc, &["stream", "is_private"], &text("false"));
    assert_eq!(Request::decode(&changed), Err(DecodeError::TypeMismatch));
    let changed = with(&doc, &["stream", "is_private"], &Value::Bool(true));
    assert!(Request::decode(&changed).unwrap().stream.is_private);
    let changed = with(&doc, &["gifts"], &read(r#"[{"id":1,"price":2,"description":3}]"#));
    assert_eq!(Request::decode(&changed), Err(DecodeError::TypeMismatch));
    assert_eq!(Value::boolean(true).as_bool(), Ok(true));
    assert_eq!(Value::Null.as_bool(), Err(DecodeError::TypeMismatch));
    assert_eq!(text("x").as_text(), Ok(&"x".to_string()));
    assert_eq!(Value::Bool(true).as_text(), Err(DecodeError::TypeMismatch));
}

#[test]
fn unknown_fields_are_passed_over() {
    let doc = read(r#"{"name":"n","extra":[1,2],"date":"Date: d"}"#);
    assert_eq!(Event::decode(&doc), Ok(Event { name: "n".to_string(), date: "d".to_string() }));
}

#[test]
fn member_is_the_first_of_its_name() {
    let doc = record(vec![("a", Value::Number(1)), ("b", Value::Number(2)), ("a", Value::Number(3))]);
    assert_eq!(doc.member("a"), Ok(&Value::Number(1)));
    assert_eq!(doc.member("b"), Ok(&Value::Number(2)));
    assert_eq!(doc.member("c"), Err(DecodeError::MissingField));
    assert_eq!(doc.member_u32("b"), Ok(2));
    assert_eq!(doc.member_text("b"), Err(DecodeError::TypeMismatch));
    assert_eq!(doc.member_bool("c"), Err(DecodeError::MissingField));
    assert_eq!(Value::List(vec![]).member("a"), Err(DecodeError::TypeMismatch));
    assert_eq!(Value::List(vec![Value::Null]).as_list().map(|items| items.len()), Ok(1));
    assert_eq!(doc.as_list(), Err(DecodeError::TypeMismatch));
}

#[test]
fn documents_are_equal_where_they_hold_the_same() {
    assert_eq!(read(SAMPLE), read(SAMPLE));
    assert_ne!(read(SAMPLE), without(&read(SAMPLE), &["debug", "at"]));
    assert_ne!(read("[1,2]"), read("[2,1]"));
    assert_ne!(read(r#"{"a":1,"b":2}"#), read(r#"{"b":2,"a":1}"#));
    assert_ne!(read("1"), read("\"1\""));
    assert_ne!(read("1"), read("1.0"));
    assert_eq!(read("-1"), Value::Decimal("-1".to_string()));
    assert_ne!(read("null"), read("false"));
    assert_eq!(Field::new("a", Value::Null), Field { name: "a".to_string(), value: Value::Null });
    assert_ne!(Field::new("a", Value::Null), Field::new("b", Value::Null));
}

#[test]
fn stream_and_tariffs_survive_the_round_trip() {
    let stream = sample_stream();
    assert!(stream.is_valid());
    assert_eq!(Stream::decode(&stream.encode()), Ok(sample_stream()));
    assert!(stream.public_tariff.is_valid());
    assert_eq!(
        PublicTariff::decode(&stream.public_tariff.encode()).unwrap(),
        stream.public_tariff
    );
    assert!(stream.private_tariff.is_valid());
    assert_eq!(
        PrivateTariff::decode(&stream.private_tariff.encode()).unwrap(),
        stream.private_tariff
    );
    let gift = Gift { id: 7, price: 8, description: "g".to_string() };
    assert_eq!(Gift::decode(&gift.encode()), Ok(Gift { id: 7, price: 8, description: "g".to_string() }));
    let debug = sample_request().debug;
    assert!(debug.is_valid());
    assert_eq!(record_codec::request::Debug::decode(&debug.encode()), Ok(debug));
}

#[test]
fn copies_are_equal_to_what_they_copy() {
    let doc = read(SAMPLE);
    assert_eq!(doc.clone(), doc);
    assert_eq!(clone_value(&doc), doc);
    assert_eq!(Value::Null.clone(), Value::Null);
    assert_eq!(read("[1,-2,\"3\",[true,null],{\"a\":{}}]").clone(), read("[1,-2,\"3\",[true,null],{\"a\":{}}]"));
    let field = Field::new("a", read("[1]"));
    assert_eq!(field.clone(), field);
    let request = sample_request();
    assert_eq!(request.clone(), request);
    assert_eq!(request.stream.clone(), request.stream);
    assert_eq!(request.stream.public_tariff.clone(), request.stream.public_tariff);
    assert_eq!(request.stream.private_tariff.clone(), request.stream.private_tariff);
    assert_eq!(request.stream.shared_url.clone(), request.stream.shared_url);
    assert_eq!(clone_gifts(&request.gifts), request.gifts);
    assert_eq!(clone_gifts(&Vec::new()), Vec::new());
    let event = Event { name: "n".to_string(), date: "d".to_string() };
    assert_eq!(event.clone(), event);
}

#[test]
fn records_are_encoded_only_when_valid() {
    let request = sample_request();
    assert_eq!(request.try_encode(), Some(sample_request().encode()));
    assert_eq!(request.stream.try_encode(), Some(sample_stream().encode()));
    assert_eq!(request.debug.try_encode(), Some(request.debug.encode()));
    assert_eq!(
        request.stream.public_tariff.try_encode(),
        Some(request.stream.public_tariff.encode())
    );
    assert_eq!(
        request.stream.private_tariff.try_encode(),
        Some(request.stream.private_tariff.encode())
    );

    let mut broken = sample_request();
    broken.debug.at = Timestamp { secs: i64::MAX, nanos: 0 };
    assert_eq!(broken.try_encode(), None);
    assert_eq!(broken.debug.try_encode(), None);
    let mut broken = sample_request();
    broken.stream.shared_url = Locator { text: "sapi".to_string() };
    assert_eq!(broken.try_encode(), None);
    assert_eq!(broken.stream.try_encode(), None);
    let mut broken = sample_request();
    broken.stream.public_tariff.duration = Span { secs: 1, nanos: 1_000_000_000 };
    broken.stream.private_tariff.duration = Span { secs: 1, nanos: u32::MAX };
    assert_eq!(broken.stream.public_tariff.try_encode(), None);
    assert_eq!(broken.stream.private_tariff.try_encode(), None);
}

#[test]
fn records_with_an_invalid_scalar_are_not_valid() {
    let mut stream = sample_stream();
    stream.shared_url = Locator { text: "n3.example.com/sapi".to_string() };
    assert!(!stream.is_valid());
    let mut request = sample_request();
    request.debug.duration = Span { secs: 0, nanos: 1_000_000_000 };
    assert!(!request.is_valid());
    let mut request = sample_request();
    request.stream.public_tariff.duration = Span { secs: 0, nanos: 2_000_000_000 };
    assert!(!request.is_valid());
    assert!(!request.stream.public_tariff.is_valid());
}
