use icale_core::client::greeting;
use icale_core::glue::convert::{
    convert_payload, convert_row_with_labels, convert_value, Date, Interval, Json, JsonNumber,
    JsonObject, JsonValue, Payload, Row, TimeOfDay, Timestamp, Value,
};
use icale_core::glue::{deserialize, deserialize_one, Error};
use icale_core::text::{decimal, signed_decimal};

#[derive(Debug)]
struct Person {
    name: String,
    email: String,
}

fn text_member(o: &JsonObject, key: &str) -> Option<String> {
    o.entries.iter().find(|(k, _)| k == key).and_then(|(_, v)| match v {
        JsonValue::String(s) => Some(s.clone()),
        _ => None,
    })
}

fn persons(rows: Result<Vec<JsonObject>, Error>) -> Result<Vec<Person>, Error> {
    let rows = rows?;
    let mut out = Vec::new();
    for o in &rows {
        match (text_member(o, "name"), text_member(o, "email")) {
            (Some(name), Some(email)) => out.push(Person { name, email }),
            _ => return Err(Error::DeserializeFailed),
        }
    }
    Ok(out)
}

fn empty_payload() -> Payload {
    Payload::Select { labels: vec![], rows: vec![] }
}

fn empty_row_payload() -> Payload {
    Payload::Select { labels: vec!["name".to_string(), "email".to_string()], rows: vec![] }
}

fn single_row_payload() -> Payload {
    Payload::Select {
        labels: vec!["name".to_string(), "email".to_string()],
        rows: vec![Row(vec![
            Value::Str("Candra Kharista".to_string()),
            Value::Str("candra.kharista@mail.com".to_string()),
        ])],
    }
}

fn multi_row_payload() -> Payload {
    Payload::Select {
        labels: vec!["name".to_string(), "email".to_string()],
        rows: vec![
            Row(vec![
                Value::Str("Candra Kharista".to_string()),
                Value::Str("candra.kharista@mail.com".to_string()),
            ]),
            Row(vec![
                Value::Str("Kharista Putra".to_string()),
                Value::Str("kharista.putra@mail.com".to_string()),
            ]),
        ],
    }
}

#[test]
fn it_works() {
    assert_eq!(2 + 2, 4);
}

#[test]
fn deserialize_test() {
    let payload = multi_row_payload();

    let persons: Vec<Person> = persons(deserialize(payload)).unwrap();
    assert_eq!(persons.len(), 2);

    let _person1 = persons.iter().nth(0).unwrap();

    let person2 = persons.iter().nth(1).unwrap();
    assert_eq!(person2.name, "Kharista Putra");
    assert_eq!(person2.email, "kharista.putra@mail.com");
}

#[test]
fn deserialize_one_test() {
    // expect success
    let person1: Person = deserialize_one(persons(deserialize(multi_row_payload()))).unwrap();
    let another_person1: Person =
        deserialize_one(persons(deserialize(single_row_payload()))).unwrap();
    assert_eq!(person1.name, another_person1.name);
    assert_eq!(person1.email, another_person1.email);
    assert_eq!(person1.name, "Candra Kharista");
    assert_eq!(person1.email, "candra.kharista@mail.com");

    // expect error
    deserialize_one::<Person>(persons(deserialize(empty_payload()))).unwrap_err();
    deserialize_one::<Person>(persons(deserialize(empty_row_payload()))).unwrap_err();
}

#[test]
fn deserialize_refuses_non_select_results() {
    assert_eq!(deserialize(Payload::Insert(3)).unwrap_err(), Error::NonDeserializeableResult);
    assert_eq!(deserialize(Payload::Create).unwrap_err(), Error::NonDeserializeableResult);
    assert_eq!(deserialize(Payload::AlterTable).unwrap_err(), Error::NonDeserializeableResult);
}

#[test]
fn deserialize_one_reports_errors() {
    assert_eq!(deserialize_one::<u8>(Ok(vec![])).unwrap_err(), Error::NotFound);
    assert_eq!(
        deserialize_one::<u8>(Err(Error::DeserializeFailed)).unwrap_err(),
        Error::DeserializeFailed
    );
    assert_eq!(deserialize_one(Ok::<Vec<u8>, Error>(vec![7, 8, 9])).unwrap(), 7);
}

#[test]
fn error_messages() {
    assert_eq!(
        Error::NonDeserializeableResult.message(),
        "cannot deserialize result payload, only works for SELECT query result"
    );
    assert_eq!(Error::DeserializeFailed.message(), "failed to deserialize");
    assert_eq!(Error::NotFound.message(), "result not found");
}

#[test]
fn payload_operations_and_counts() {
    let cases = vec![
        (Payload::Create, "CREATE", Json::Null),
        (Payload::Insert(2), "INSERT", Json::Number(JsonNumber::PosInt(2))),
        (Payload::Delete(5), "DELETE", Json::Number(JsonNumber::PosInt(5))),
        (Payload::Update(0), "UPDATE", Json::Number(JsonNumber::PosInt(0))),
        (Payload::DropTable, "DROP", Json::Null),
        (Payload::AlterTable, "ALTER TABLE", Json::Null),
    ];
    for (payload, op, json) in cases {
        let (o, j) = convert_payload(payload);
        assert_eq!(o, op);
        assert_eq!(j, json);
    }
    let (o, j) = convert_payload(empty_row_payload());
    assert_eq!(o, "SELECT");
    assert_eq!(j, Json::Array(vec![]));
}

#[test]
fn row_labels_zip_and_repeat() {
    let labels = vec!["a".to_string(), "b".to_string(), "a".to_string()];
    let row = Row(vec![Value::I64(1), Value::I64(-2), Value::Bool(true), Value::Null]);
    let o = convert_row_with_labels(&labels, &row);
    assert_eq!(
        o.entries,
        vec![
            ("a".to_string(), JsonValue::Bool(true)),
            ("b".to_string(), JsonValue::Number(JsonNumber::NegInt(-2))),
        ]
    );
    let short = convert_row_with_labels(&labels, &Row(vec![Value::Str("x".to_string())]));
    assert_eq!(short.entries, vec![("a".to_string(), JsonValue::String("x".to_string()))]);
}

#[test]
fn value_conversions() {
    assert_eq!(convert_value(&Value::I64(0)), JsonValue::Number(JsonNumber::PosInt(0)));
    assert_eq!(convert_value(&Value::I64(-1)), JsonValue::Number(JsonNumber::NegInt(-1)));
    let bits = 1.5f64.to_bits();
    assert_eq!(convert_value(&Value::F64(bits)), JsonValue::Number(JsonNumber::Float(bits)));
    assert_eq!(convert_value(&Value::F64(f64::NAN.to_bits())), JsonValue::Null);
    assert_eq!(convert_value(&Value::F64(f64::INFINITY.to_bits())), JsonValue::Null);
    assert_eq!(convert_value(&Value::Null), JsonValue::Null);
    let date = Date { year: 2021, month: 4, day: 30 };
    assert_eq!(convert_value(&Value::Date(date)), JsonValue::String("2021-04-30".to_string()));
    assert_eq!(
        convert_value(&Value::Date(Date { year: 33, month: 12, day: 1 })),
        JsonValue::String("0033-12-01".to_string())
    );
    assert_eq!(
        convert_value(&Value::Date(Date { year: -5, month: 1, day: 2 })),
        JsonValue::String("-0005-01-02".to_string())
    );
    assert_eq!(
        convert_value(&Value::Date(Date { year: 12345, month: 1, day: 2 })),
        JsonValue::String("+12345-01-02".to_string())
    );
    let time = TimeOfDay { hour: 7, minute: 5, second: 9, nanosecond: 123_456_789 };
    assert_eq!(convert_value(&Value::Time(time)), JsonValue::String("07:05:09.123456".to_string()));
    let leap = TimeOfDay { hour: 23, minute: 59, second: 59, nanosecond: 1_000_000_500 };
    assert_eq!(convert_value(&Value::Time(leap)), JsonValue::String("23:59:60.000000".to_string()));
    assert_eq!(
        convert_value(&Value::Timestamp(Timestamp { date, time })),
        JsonValue::String("2021-04-30T07:05:09.123456Z".to_string())
    );
    assert_eq!(
        convert_value(&Value::Interval(Interval::Month(14))),
        JsonValue::String("14 month".to_string())
    );
    assert_eq!(
        convert_value(&Value::Interval(Interval::Microsecond(-2_500_000))),
        JsonValue::String("-2 seconds".to_string())
    );
    assert_eq!(
        convert_value(&Value::Interval(Interval::Microsecond(999_999))),
        JsonValue::String("0 seconds".to_string())
    );
}

#[test]
fn decimal_texts() {
    assert_eq!(decimal(0), "0");
    assert_eq!(decimal(u64::MAX), "18446744073709551615");
    assert_eq!(signed_decimal(-42), "-42");
    assert_eq!(signed_decimal(i64::MIN), "-9223372036854775808");
    assert_eq!(greeting(1620000000), "Hello, wasm-rs! Now is 1620000000");
}
