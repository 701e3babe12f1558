//! Conversion of SQL execution results into JSON documents.
//!
//! The result of executing a statement is modelled by [`Payload`]; each row of a
//! query result becomes a JSON object keyed by the result's column labels.
use crate::text::{
    decimal_int, pow10, push_char, push_signed_decimal, push_zero_padded, zero_padded,
};
use vstd::prelude::*;
use vstd::string::*;

verus! {

/// A calendar date (proleptic Gregorian).
#[derive(Debug, Clone, Copy, PartialEq, Eq, Structural)]
pub struct Date {
    pub year: i32,
    pub month: u32,
    pub day: u32,
}

/// A time of day; a leap second is written as `second == 59` with
/// `nanosecond >= 1_000_000_000`.
#[derive(Debug, Clone, Copy, PartialEq, Eq, Structural)]
pub struct TimeOfDay {
    pub hour: u32,
    pub minute: u32,
    pub second: u32,
    pub nanosecond: u32,
}

/// A date with a time of day, without time zone.
#[derive(Debug, Clone, Copy, PartialEq, Eq, Structural)]
pub struct Timestamp {
    pub date: Date,
    pub time: TimeOfDay,
}

/// An SQL interval value.
#[derive(Debug, Clone, Copy, PartialEq, Eq, Structural)]
pub enum Interval {
    Month(i32),
    Microsecond(i64),
}

/// A value in a result row. `F64` holds the IEEE 754 bit pattern of the number.
#[derive(Debug, Clone, PartialEq)]
pub enum Value {
    Bool(bool),
    I64(i64),
    F64(u64),
    Str(String),
    Date(Date),
    Timestamp(Timestamp),
    Time(TimeOfDay),
    Interval(Interval),
    Null,
}

/// A row of a query result.
#[derive(Debug, Clone, PartialEq)]
pub struct Row(pub Vec<Value>);

/// The result of executing one SQL statement.
#[derive(Debug, Clone, PartialEq)]
pub enum Payload {
    Create,
    Insert(usize),
    Select { labels: Vec<String>, rows: Vec<Row> },
    Delete(usize),
    Update(usize),
    DropTable,
    AlterTable,
}

/// A JSON number: a non-negative integer, a negative integer, or a finite
/// floating-point number given by its IEEE 754 bit pattern.
#[derive(Debug, Clone, Copy, PartialEq, Eq, Structural)]
pub enum JsonNumber {
    PosInt(u64),
    NegInt(i64),
    Float(u64),
}

/// A JSON scalar.
#[derive(Debug, Clone, PartialEq)]
pub enum JsonValue {
    Null,
    Bool(bool),
    Number(JsonNumber),
    String(String),
}

/// A JSON object: its members in the order in which their keys first appeared.
/// No key occurs twice, so as a map from keys to values it is the object
/// `serde_json` builds; `serde_json`'s map (without its `preserve_order`
/// feature) lists the same members ordered by key instead, which is the
/// order they take once the object is handed to it.
#[derive(Debug, Clone, PartialEq)]
pub struct JsonObject {
    pub entries: Vec<(String, JsonValue)>,
}

/// The JSON document describing an execution result: `null`, a count, or an
/// array of row objects.
#[derive(Debug, Clone, PartialEq)]
pub enum Json {
    Null,
    Number(JsonNumber),
    Array(Vec<JsonObject>),
}

/// Model of [`Value`].
pub enum ValueView {
    Bool(bool),
    I64(i64),
    F64(u64),
    Str(Seq<char>),
    Date(Date),
    Timestamp(Timestamp),
    Time(TimeOfDay),
    Interval(Interval),
    Null,
}

/// Model of [`Payload`].
pub enum PayloadView {
    Create,
    Insert(usize),
    Select { labels: Seq<Seq<char>>, rows: Seq<Seq<ValueView>> },
    Delete(usize),
    Update(usize),
    DropTable,
    AlterTable,
}

/// Model of [`JsonValue`].
pub enum JsonValueView {
    Null,
    Bool(bool),
    Number(JsonNumber),
    String(Seq<char>),
}

/// Model of a [`JsonObject`]: key and value of each member.
pub type ObjectView = Seq<(Seq<char>, JsonValueView)>;

/// Model of [`Json`].
pub enum JsonView {
    Null,
    Number(JsonNumber),
    Array(Seq<ObjectView>),
}

impl View for Value {
    type V = ValueView;

    open spec fn view(&self) -> ValueView {
        match self {
            Value::Bool(b) => ValueView::Bool(*b),
            Value::I64(i) => ValueView::I64(*i),
            Value::F64(f) => ValueView::F64(*f),
            Value::Str(s) => ValueView::Str(s@),
            Value::Date(d) => ValueView::Date(*d),
            Value::Timestamp(t) => ValueView::Timestamp(*t),
            Value::Time(t) => ValueView::Time(*t),
            Value::Interval(i) => ValueView::Interval(*i),
            Value::Null => ValueView::Null,
        }
    }
}

impl View for Row {
    type V = Seq<ValueView>;

    open spec fn view(&self) -> Seq<ValueView> {
        self.0@.map_values(|v: Value| v@)
    }
}

/// Models of a sequence of strings.
pub open spec fn strings_view(v: Seq<String>) -> Seq<Seq<char>> {
    v.map_values(|s: String| s@)
}

impl View for Payload {
    type V = PayloadView;

    open spec fn view(&self) -> PayloadView {
        match self {
            Payload::Create => PayloadView::Create,
            Payload::Insert(n) => PayloadView::Insert(*n),
            Payload::Select { labels, rows } => PayloadView::Select {
                labels: strings_view(labels@),
                rows: rows@.map_values(|r: Row| r@),
            },
            Payload::Delete(n) => PayloadView::Delete(*n),
            Payload::Update(n) => PayloadView::Update(*n),
            Payload::DropTable => PayloadView::DropTable,
            Payload::AlterTable => PayloadView::AlterTable,
        }
    }
}

impl View for JsonValue {
    type V = JsonValueView;

    open spec fn view(&self) -> JsonValueView {
        match self {
            JsonValue::Null => JsonValueView::Null,
            JsonValue::Bool(b) => JsonValueView::Bool(*b),
            JsonValue::Number(n) => JsonValueView::Number(*n),
            JsonValue::String(s) => JsonValueView::String(s@),
        }
    }
}

impl View for JsonObject {
    type V = ObjectView;

    open spec fn view(&self) -> ObjectView {
        self.entries@.map_values(|e: (String, JsonValue)| (e.0@, e.1@))
    }
}

/// Models of a sequence of objects.
pub open spec fn objects_view(v: Seq<JsonObject>) -> Seq<ObjectView> {
    v.map_values(|o: JsonObject| o@)
}

impl View for Json {
    type V = JsonView;

    open spec fn view(&self) -> JsonView {
        match self {
            Json::Null => JsonView::Null,
            Json::Number(n) => JsonView::Number(*n),
            Json::Array(v) => JsonView::Array(objects_view(v@)),
        }
    }
}

/// An IEEE 754 double with bit pattern `bits` is finite (not infinite, not NaN):
/// its exponent field is not all ones.
pub open spec fn is_finite_bits(bits: u64) -> bool {
    (bits >> 52u64) & 0x7ffu64 != 0x7ffu64
}

/// The JSON number of a 64-bit signed integer.
pub open spec fn number_of_i64(i: i64) -> JsonNumber {
    if i < 0 {
        JsonNumber::NegInt(i)
    } else {
        JsonNumber::PosInt(i as u64)
    }
}

/// `%Y`: the year zero-padded to four digits, with an explicit sign outside `0..=9999`.
pub open spec fn year_text(y: int) -> Seq<char> {
    if 0 <= y <= 9999 {
        zero_padded(y as nat, 4)
    } else if y < 0 {
        seq!['-'] + zero_padded((-y) as nat, 4)
    } else {
        seq!['+'] + zero_padded(y as nat, 4)
    }
}

/// `%Y-%m-%d`.
pub open spec fn date_text(d: Date) -> Seq<char> {
    year_text(d.year as int) + seq!['-'] + zero_padded(d.month as nat, 2) + seq!['-']
        + zero_padded(d.day as nat, 2)
}

/// `%H:%M:%S%.6f`: a leap second shows as second 60; six digits of microseconds.
pub open spec fn time_text(t: TimeOfDay) -> Seq<char> {
    zero_padded(t.hour as nat, 2) + seq![':'] + zero_padded(t.minute as nat, 2) + seq![':']
        + zero_padded((t.second + t.nanosecond / 1_000_000_000) as nat, 2) + seq!['.']
        + zero_padded(((t.nanosecond / 1000) % 1_000_000) as nat, 6)
}

/// `%Y-%m-%dT%H:%M:%S%.6fZ`.
pub open spec fn timestamp_text(t: Timestamp) -> Seq<char> {
    date_text(t.date) + seq!['T'] + time_text(t.time) + seq!['Z']
}

/// Integer division rounding toward zero, as Rust's `/` on integers.
pub open spec fn div_toward_zero(a: int, b: int) -> int {
    if a >= 0 { a / b } else { -((-a) / b) }
}

/// `"{m} month"` or `"{s} seconds"` with whole seconds rounded toward zero.
pub open spec fn interval_text(i: Interval) -> Seq<char> {
    match i {
        Interval::Month(m) => decimal_int(m as int) + " month"@,
        Interval::Microsecond(u) => decimal_int(div_toward_zero(u as int, 1_000_000))
            + " seconds"@,
    }
}

/// The JSON form of a result value.
pub open spec fn value_json(v: ValueView) -> JsonValueView {
    match v {
        ValueView::Bool(b) => JsonValueView::Bool(b),
        ValueView::I64(i) => JsonValueView::Number(number_of_i64(i)),
        ValueView::F64(bits) => if is_finite_bits(bits) {
            JsonValueView::Number(JsonNumber::Float(bits))
        } else {
            JsonValueView::Null
        },
        ValueView::Str(s) => JsonValueView::String(s),
        ValueView::Date(d) => JsonValueView::String(date_text(d)),
        ValueView::Timestamp(t) => JsonValueView::String(timestamp_text(t)),
        ValueView::Time(t) => JsonValueView::String(time_text(t)),
        ValueView::Interval(i) => JsonValueView::String(interval_text(i)),
        ValueView::Null => JsonValueView::Null,
    }
}

/// A float converts to JSON null exactly when its exponent field (bits 52 to
/// 62) is all ones, that is a NaN or an infinity; every other float, negative
/// ones included, becomes the JSON number with the same bits.
pub proof fn lemma_float_json(bits: u64)
    ensures
        value_json(ValueView::F64(bits)) == if (bits / 0x10_0000_0000_0000u64) % 0x800u64
            == 0x7ffu64 {
            JsonValueView::Null
        } else {
            JsonValueView::Number(JsonNumber::Float(bits))
        },
{
    assert(((bits >> 52u64) & 0x7ffu64) == (bits / 0x10_0000_0000_0000u64) % 0x800u64)
        by (bit_vector);
}

/// A boolean converts to the JSON boolean of the same truth value, so distinct
/// booleans give distinct JSON values.
pub proof fn lemma_bool_json(b: bool, c: bool)
    ensures
        value_json(ValueView::Bool(b)) == JsonValueView::Bool(b),
        value_json(ValueView::Bool(b)) == value_json(ValueView::Bool(c)) ==> b == c,
{
}

/// A microsecond interval is shown as its whole number of seconds, rounded
/// toward zero, followed by ` seconds`: for the `q` with `q` million
/// microseconds within a second of `u` on the side of zero, the text is `q`
/// in decimal.
pub proof fn lemma_microsecond_interval_text(u: i64, q: int)
    requires
        u >= 0 ==> 0 <= u - q * 1_000_000 < 1_000_000,
        u < 0 ==> -1_000_000 < u - q * 1_000_000 <= 0,
    ensures
        interval_text(Interval::Microsecond(u)) == decimal_int(q) + " seconds"@,
{
    if u >= 0 {
        let d = (u as int) / 1_000_000;
        assert(0 <= u - d * 1_000_000 < 1_000_000) by {
            vstd::arithmetic::div_mod::lemma_fundamental_div_mod(u as int, 1_000_000);
            vstd::arithmetic::div_mod::lemma_mod_pos_bound(u as int, 1_000_000);
        }
        assert(d == q);
    } else {
        let a = -(u as int);
        let d = a / 1_000_000;
        assert(0 <= a - d * 1_000_000 < 1_000_000) by {
            vstd::arithmetic::div_mod::lemma_fundamental_div_mod(a, 1_000_000);
            vstd::arithmetic::div_mod::lemma_mod_pos_bound(a, 1_000_000);
        }
        assert(-d == q);
    }
}

/// Index of the last member with key `key`, or `-1`.
pub open spec fn key_position(entries: ObjectView, key: Seq<char>) -> int
    decreases entries.len(),
{
    if entries.len() == 0 {
        -1
    } else if entries.last().0 == key {
        entries.len() - 1
    } else {
        key_position(entries.drop_last(), key)
    }
}

/// Map insertion: replaces the value of an existing key in place, or appends a new member.
pub open spec fn insert_entry(entries: ObjectView, key: Seq<char>, value: JsonValueView) -> ObjectView {
    let i = key_position(entries, key);
    if i >= 0 {
        entries.update(i, (key, value))
    } else {
        entries.push((key, value))
    }
}

/// The object built from the first `n` label/value pairs, inserted in order.
pub open spec fn row_entries_upto(labels: Seq<Seq<char>>, values: Seq<ValueView>, n: nat) -> ObjectView
    decreases n,
{
    if n == 0 {
        seq![]
    } else {
        insert_entry(
            row_entries_upto(labels, values, (n - 1) as nat),
            labels[n - 1],
            value_json(values[n - 1]),
        )
    }
}

/// The JSON object of a row: labels are zipped with values (the shorter decides),
/// and a repeated label keeps the value of its last occurrence.
pub open spec fn row_object(labels: Seq<Seq<char>>, values: Seq<ValueView>) -> ObjectView {
    let n = if labels.len() <= values.len() { labels.len() } else { values.len() };
    row_entries_upto(labels, values, n)
}

/// The name of the operation that produced a payload.
pub open spec fn payload_operation(p: PayloadView) -> Seq<char> {
    match p {
        PayloadView::Create => "CREATE"@,
        PayloadView::Insert(_) => "INSERT"@,
        PayloadView::Select { .. } => "SELECT"@,
        PayloadView::Delete(_) => "DELETE"@,
        PayloadView::Update(_) => "UPDATE"@,
        PayloadView::DropTable => "DROP"@,
        PayloadView::AlterTable => "ALTER TABLE"@,
    }
}

/// The row objects of a query result.
pub open spec fn rows_json(labels: Seq<Seq<char>>, rows: Seq<Seq<ValueView>>) -> Seq<ObjectView> {
    rows.map_values(|r: Seq<ValueView>| row_object(labels, r))
}

/// The JSON document of a payload.
pub open spec fn payload_json(p: PayloadView) -> JsonView {
    match p {
        PayloadView::Select { labels, rows } => JsonView::Array(rows_json(labels, rows)),
        PayloadView::Insert(n) => JsonView::Number(JsonNumber::PosInt(n as u64)),
        PayloadView::Delete(n) => JsonView::Number(JsonNumber::PosInt(n as u64)),
        PayloadView::Update(n) => JsonView::Number(JsonNumber::PosInt(n as u64)),
        _ => JsonView::Null,
    }
}

/// No key occurs twice among the members.
pub open spec fn keys_distinct(entries: ObjectView) -> bool {
    forall|i: int, j: int|
        0 <= i < j < entries.len() ==> #[trigger] entries[i].0 != #[trigger] entries[j].0
}

/// `key_position` finds the last member with the key, or reports that none has it.
proof fn lemma_key_position(entries: ObjectView, key: Seq<char>)
    ensures
        -1 <= key_position(entries, key) < entries.len(),
        key_position(entries, key) >= 0 ==> entries[key_position(entries, key)].0 == key,
        key_position(entries, key) == -1 ==> forall|i: int|
            0 <= i < entries.len() ==> #[trigger] entries[i].0 != key,
    decreases entries.len(),
{
    if entries.len() > 0 && entries.last().0 != key {
        lemma_key_position(entries.drop_last(), key);
        if key_position(entries, key) == -1 {
            assert forall|i: int| 0 <= i < entries.len() implies #[trigger] entries[i].0 != key by {
                if i < entries.len() - 1 {
                    assert(entries[i] == entries.drop_last()[i]);
                }
            }
        }
    }
}

/// Inserting into an object without repeated keys gives one without repeated keys.
proof fn lemma_insert_keeps_keys_distinct(entries: ObjectView, key: Seq<char>, value: JsonValueView)
    requires
        keys_distinct(entries),
    ensures
        keys_distinct(insert_entry(entries, key, value)),
{
    lemma_key_position(entries, key);
    let r = insert_entry(entries, key, value);
    assert forall|i: int, j: int| 0 <= i < j < r.len() implies #[trigger] r[i].0 != #[trigger] r[j].0 by {
        if key_position(entries, key) == -1 {
            if j == entries.len() {
                assert(r[i] == entries[i]);
            } else {
                assert(r[i] == entries[i] && r[j] == entries[j]);
            }
        } else {
            let p = key_position(entries, key);
            if i == p {
                assert(r[j] == entries[j]);
            } else if j == p {
                assert(r[i] == entries[i]);
            } else {
                assert(r[i] == entries[i] && r[j] == entries[j]);
            }
        }
    }
}

proof fn lemma_row_entries_keys_distinct(labels: Seq<Seq<char>>, values: Seq<ValueView>, n: nat)
    ensures
        keys_distinct(row_entries_upto(labels, values, n)),
    decreases n,
{
    if n > 0 {
        lemma_row_entries_keys_distinct(labels, values, (n - 1) as nat);
        lemma_insert_keeps_keys_distinct(
            row_entries_upto(labels, values, (n - 1) as nat),
            labels[n - 1],
            value_json(values[n - 1]),
        );
    }
}

/// The object of a row never has two members with the same key.
pub proof fn lemma_row_object_keys_distinct(labels: Seq<Seq<char>>, values: Seq<ValueView>)
    ensures
        keys_distinct(row_object(labels, values)),
{
    let n = if labels.len() <= values.len() { labels.len() } else { values.len() };
    lemma_row_entries_keys_distinct(labels, values, n);
}

/// Label/value pairs in order: the `i`-th label with the `i`-th converted value.
pub open spec fn zipped(labels: Seq<Seq<char>>, values: Seq<ValueView>, n: nat) -> ObjectView {
    Seq::new(n, |i: int| (labels[i], value_json(values[i])))
}

/// Labels with no repetition among the first `n`.
pub open spec fn labels_distinct(labels: Seq<Seq<char>>, n: nat) -> bool {
    forall|i: int, j: int| 0 <= i < j < n ==> #[trigger] labels[i] != #[trigger] labels[j]
}

proof fn lemma_row_entries_zipped(labels: Seq<Seq<char>>, values: Seq<ValueView>, n: nat)
    requires
        n <= labels.len(),
        n <= values.len(),
        labels_distinct(labels, n),
    ensures
        row_entries_upto(labels, values, n) == zipped(labels, values, n),
    decreases n,
{
    if n > 0 {
        let m = (n - 1) as nat;
        assert(labels_distinct(labels, m));
        lemma_row_entries_zipped(labels, values, m);
        let prev = row_entries_upto(labels, values, m);
        lemma_key_position(prev, labels[m as int]);
        if key_position(prev, labels[m as int]) >= 0 {
            let p = key_position(prev, labels[m as int]);
            assert(prev[p].0 == labels[p]);
            assert(false);
        }
        assert(prev.push((labels[m as int], value_json(values[m as int]))) =~= zipped(labels, values, n));
    }
}

/// With no repeated label, the object of a row holds each label with the value
/// at its position, in order.
pub proof fn lemma_row_object_distinct_labels(labels: Seq<Seq<char>>, values: Seq<ValueView>)
    requires
        labels_distinct(labels, labels.len()),
    ensures
        row_object(labels, values) == zipped(
            labels,
            values,
            if labels.len() <= values.len() { labels.len() } else { values.len() },
        ),
{
    let n = if labels.len() <= values.len() { labels.len() } else { values.len() };
    assert(labels_distinct(labels, n));
    lemma_row_entries_zipped(labels, values, n);
}

/// How many label/value pairs of a row are zipped: the shorter of the two.
pub open spec fn zip_len(labels: Seq<Seq<char>>, values: Seq<ValueView>) -> nat {
    if labels.len() <= values.len() { labels.len() } else { values.len() }
}

/// The last position before `n` where `labels` holds `key`, or `-1`.
pub open spec fn last_label_position(labels: Seq<Seq<char>>, key: Seq<char>, n: nat) -> int
    decreases n,
{
    if n == 0 {
        -1
    } else if labels[n - 1] == key {
        n - 1
    } else {
        last_label_position(labels, key, (n - 1) as nat)
    }
}

/// `last_label_position` is the largest position before `n` holding the key.
pub proof fn lemma_last_label_position(labels: Seq<Seq<char>>, key: Seq<char>, n: nat)
    requires
        n <= labels.len(),
    ensures
        -1 <= last_label_position(labels, key, n) < n,
        last_label_position(labels, key, n) >= 0 ==> labels[last_label_position(labels, key, n)]
            == key,
        forall|k: int|
            last_label_position(labels, key, n) < k < n ==> #[trigger] labels[k] != key,
    decreases n,
{
    if n > 0 {
        lemma_last_label_position(labels, key, (n - 1) as nat);
    }
}

proof fn lemma_row_entries_members(labels: Seq<Seq<char>>, values: Seq<ValueView>, n: nat)
    requires
        n <= labels.len(),
        n <= values.len(),
    ensures
        forall|m: int|
            0 <= m < row_entries_upto(labels, values, n).len() ==> {
                let key = (#[trigger] row_entries_upto(labels, values, n)[m]).0;
                &&& 0 <= last_label_position(labels, key, n) < n
                &&& row_entries_upto(labels, values, n)[m].1 == value_json(
                    values[last_label_position(labels, key, n)],
                )
            },
        forall|i: int|
            0 <= i < n ==> key_position(row_entries_upto(labels, values, n), #[trigger] labels[i])
                >= 0,
    decreases n,
{
    if n > 0 {
        let k = (n - 1) as nat;
        lemma_row_entries_members(labels, values, k);
        let prev = row_entries_upto(labels, values, k);
        let key = labels[k as int];
        let val = value_json(values[k as int]);
        let cur = row_entries_upto(labels, values, n);
        assert(cur == insert_entry(prev, key, val));
        lemma_key_position(prev, key);
        lemma_row_entries_keys_distinct(labels, values, k);
        let p = key_position(prev, key);
        assert forall|m: int| 0 <= m < cur.len() implies {
            let mk = (#[trigger] cur[m]).0;
            &&& 0 <= last_label_position(labels, mk, n) < n
            &&& cur[m].1 == value_json(values[last_label_position(labels, mk, n)])
        } by {
            if p >= 0 {
                if m != p {
                    assert(cur[m] == prev[m]);
                    assert(prev[m].0 != prev[p].0);
                }
            } else if m < prev.len() {
                assert(cur[m] == prev[m]);
                assert(prev[m].0 != key);
            }
        }
        assert forall|i: int| 0 <= i < n implies key_position(cur, #[trigger] labels[i]) >= 0 by {
            lemma_key_position(cur, labels[i]);
            if i < k {
                let q = key_position(prev, labels[i]);
                lemma_key_position(prev, labels[i]);
                if p >= 0 && q == p {
                    assert(cur[q].0 == labels[i]);
                } else {
                    assert(cur[q] == prev[q]);
                }
            } else if p >= 0 {
                assert(cur[p].0 == labels[i]);
            } else {
                assert(cur[prev.len() as int].0 == labels[i]);
            }
        }
    }
}

/// The object of a row has exactly the labels of the zipped part of the row as
/// keys, and each holds the value converted from the last position of its
/// label: extra labels or values are dropped, and a repeated label keeps its
/// last value.
pub proof fn lemma_row_object_members(labels: Seq<Seq<char>>, values: Seq<ValueView>)
    ensures
        forall|m: int|
            0 <= m < row_object(labels, values).len() ==> {
                let key = (#[trigger] row_object(labels, values)[m]).0;
                let j = last_label_position(labels, key, zip_len(labels, values));
                &&& 0 <= j < zip_len(labels, values)
                &&& labels[j] == key
                &&& row_object(labels, values)[m].1 == value_json(values[j])
            },
        forall|i: int|
            0 <= i < zip_len(labels, values) ==> key_position(
                row_object(labels, values),
                #[trigger] labels[i],
            ) >= 0,
{
    let n = zip_len(labels, values);
    lemma_row_entries_members(labels, values, n);
    let obj = row_object(labels, values);
    assert forall|m: int| 0 <= m < obj.len() implies {
        let key = (#[trigger] obj[m]).0;
        let j = last_label_position(labels, key, n);
        &&& 0 <= j < n
        &&& labels[j] == key
        &&& obj[m].1 == value_json(values[j])
    } by {
        lemma_last_label_position(labels, obj[m].0, n);
    }
}

fn push_year(s: &mut String, y: i32)
    ensures
        final(s)@ == old(s)@ + year_text(y as int),
{
    proof {
        reveal_with_fuel(pow10, 4);
    }
    if 0 <= y && y <= 9999 {
        push_zero_padded(s, y as u64, 4, 1000);
    } else if y < 0 {
        push_char(s, '-');
        let magnitude: u64 = (0 - (y as i64)) as u64;
        push_zero_padded(s, magnitude, 4, 1000);
    } else {
        push_char(s, '+');
        push_zero_padded(s, y as u64, 4, 1000);
    }
}

fn push_date(s: &mut String, d: Date)
    ensures
        final(s)@ == old(s)@ + date_text(d),
{
    proof {
        reveal_with_fuel(pow10, 2);
    }
    push_year(s, d.year);
    push_char(s, '-');
    push_zero_padded(s, d.month as u64, 2, 10);
    push_char(s, '-');
    push_zero_padded(s, d.day as u64, 2, 10);
    assert(final(s)@ =~= old(s)@ + date_text(d));
}

fn push_time(s: &mut String, t: TimeOfDay)
    ensures
        final(s)@ == old(s)@ + time_text(t),
{
    proof {
        reveal_with_fuel(pow10, 6);
    }
    push_zero_padded(s, t.hour as u64, 2, 10);
    push_char(s, ':');
    push_zero_padded(s, t.minute as u64, 2, 10);
    push_char(s, ':');
    let shown_second: u64 = t.second as u64 + (t.nanosecond / 1_000_000_000) as u64;
    push_zero_padded(s, shown_second, 2, 10);
    push_char(s, '.');
    let micros: u64 = ((t.nanosecond / 1000) % 1_000_000) as u64;
    push_zero_padded(s, micros, 6, 100000);
    assert(final(s)@ =~= old(s)@ + time_text(t));
}

fn interval_string(i: Interval) -> (s: String)
    ensures
        s@ == interval_text(i),
{
    let mut s = String::new();
    match i {
        Interval::Month(m) => {
            push_signed_decimal(&mut s, m as i64);
            s.append(" month");
        },
        Interval::Microsecond(u) => {
            let seconds: i64 = if u >= 0 {
                u / 1_000_000
            } else {
                (0 - ((0 - (u as i128)) / 1_000_000)) as i64
            };
            push_signed_decimal(&mut s, seconds);
            s.append(" seconds");
        },
    }
    s
}

/// Converts one result value into its JSON form: numbers as JSON numbers
/// (non-finite floats as `null`), dates and times as formatted text, intervals
/// as text counting months or whole seconds.
pub fn convert_value(value: &Value) -> (j: JsonValue)
    ensures
        j@ == value_json(value@),
{
    match value {
        Value::Bool(v) => JsonValue::Bool(*v),
        Value::I64(v) => {
            if *v < 0 {
                JsonValue::Number(JsonNumber::NegInt(*v))
            } else {
                JsonValue::Number(JsonNumber::PosInt(*v as u64))
            }
        },
        Value::F64(bits) => {
            if (*bits >> 52u64) & 0x7ffu64 != 0x7ffu64 {
                JsonValue::Number(JsonNumber::Float(*bits))
            } else {
                JsonValue::Null
            }
        },
        Value::Str(v) => JsonValue::String(v.clone()),
        Value::Date(d) => {
            let mut s = String::new();
            push_date(&mut s, *d);
            JsonValue::String(s)
        },
        Value::Timestamp(t) => {
            let mut s = String::new();
            push_date(&mut s, t.date);
            push_char(&mut s, 'T');
            push_time(&mut s, t.time);
            push_char(&mut s, 'Z');
            assert(s@ =~= timestamp_text(*t));
            JsonValue::String(s)
        },
        Value::Time(t) => {
            let mut s = String::new();
            push_time(&mut s, *t);
            JsonValue::String(s)
        },
        Value::Interval(i) => JsonValue::String(interval_string(*i)),
        Value::Null => JsonValue::Null,
    }
}


/// Position of the last member of `entries` whose key is `key`, if any.
fn find_key(entries: &Vec<(String, JsonValue)>, key: &String) -> (pos: Option<usize>)
    ensures
        match pos {
            Some(i) => i < entries.len() && i as int == key_position(entries@.map_values(|e: (String, JsonValue)| (e.0@, e.1@)), key@),
            None => key_position(entries@.map_values(|e: (String, JsonValue)| (e.0@, e.1@)), key@) == -1,
        },
{
    let ghost view = entries@.map_values(|e: (String, JsonValue)| (e.0@, e.1@));
    let mut i = entries.len();
    assert(view.subrange(0, i as int) =~= view);
    while i > 0
        invariant
            i <= entries.len(),
            view == entries@.map_values(|e: (String, JsonValue)| (e.0@, e.1@)),
            key_position(view, key@) == key_position(view.subrange(0, i as int), key@),
        decreases i,
    {
        let ghost prefix = view.subrange(0, i as int);
        assert(prefix.last() == view[i - 1]);
        if entries[i - 1].0 == *key {
            return Some(i - 1);
        }
        assert(prefix.drop_last() =~= view.subrange(0, i - 1));
        i = i - 1;
    }
    assert(view.subrange(0, 0).len() == 0);
    None
}

/// Builds the JSON object of one row: each value is converted and inserted under
/// the label at the same position; extra labels or values are ignored, and a
/// repeated label keeps the last value given for it.
pub fn convert_row_with_labels(labels: &Vec<String>, row: &Row) -> (o: JsonObject)
    ensures
        o@ == row_object(strings_view(labels@), row@),
{
    let n = if labels.len() <= row.0.len() { labels.len() } else { row.0.len() };
    let mut entries: Vec<(String, JsonValue)> = Vec::new();
    let mut i: usize = 0;
    while i < n
        invariant
            i <= n,
            n <= labels.len(),
            n <= row.0.len(),
            n == (if labels.len() <= row.0.len() { labels.len() } else { row.0.len() }),
            entries@.map_values(|e: (String, JsonValue)| (e.0@, e.1@))
                == row_entries_upto(strings_view(labels@), row@, i as nat),
        decreases n - i,
    {
        let key = labels[i].clone();
        let value = convert_value(&row.0[i]);
        let ghost before = entries@.map_values(|e: (String, JsonValue)| (e.0@, e.1@));
        assert(strings_view(labels@)[i as int] == labels@[i as int]@);
        assert(row@[i as int] == row.0@[i as int]@);
        match find_key(&entries, &key) {
            Some(p) => {
                entries.set(p, (key, value));
                assert(entries@.map_values(|e: (String, JsonValue)| (e.0@, e.1@))
                    =~= before.update(p as int, (labels@[i as int]@, value_json(row.0@[i as int]@))));
            },
            None => {
                entries.push((key, value));
                assert(entries@.map_values(|e: (String, JsonValue)| (e.0@, e.1@))
                    =~= before.push((labels@[i as int]@, value_json(row.0@[i as int]@))));
            },
        }
        i = i + 1;
    }
    JsonObject { entries }
}

/// Converts an execution result into the name of its operation and a JSON
/// document: `null` for schema changes, the affected row count for inserts,
/// deletes and updates, and an array of row objects for queries.
pub fn convert_payload(payload: Payload) -> (res: (String, Json))
    ensures
        res.0@ == payload_operation(payload@),
        res.1@ == payload_json(payload@),
{
    match payload {
        Payload::Create => (String::from_str("CREATE"), Json::Null),
        Payload::Insert(num) => (String::from_str("INSERT"), Json::Number(JsonNumber::PosInt(num as u64))),
        Payload::Select { rows, labels } => {
            let mut objects: Vec<JsonObject> = Vec::new();
            let mut i: usize = 0;
            while i < rows.len()
                invariant
                    i <= rows.len(),
                    objects_view(objects@) =~= rows_json(strings_view(labels@), rows@.map_values(|r: Row| r@)).take(i as int),
                decreases rows.len() - i,
            {
                let o = convert_row_with_labels(&labels, &rows[i]);
                let ghost before = objects_view(objects@);
                objects.push(o);
                assert(objects_view(objects@) =~= before.push(o@));
                i = i + 1;
            }
            assert(rows_json(strings_view(labels@), rows@.map_values(|r: Row| r@)).take(rows.len() as int)
                =~= rows_json(strings_view(labels@), rows@.map_values(|r: Row| r@)));
            (String::from_str("SELECT"), Json::Array(objects))
        },
        Payload::Delete(num) => (String::from_str("DELETE"), Json::Number(JsonNumber::PosInt(num as u64))),
        Payload::Update(num) => (String::from_str("UPDATE"), Json::Number(JsonNumber::PosInt(num as u64))),
        Payload::DropTable => (String::from_str("DROP"), Json::Null),
        Payload::AlterTable => (String::from_str("ALTER TABLE"), Json::Null),
    }
}

} // verus!
