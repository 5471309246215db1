//! The telemetry storage pipeline: from one batch of raw signal readings and
//! the schema of its device to the single write that stores it.

use vstd::prelude::*;
use vstd::string::StringExecFns;
use crate::clock::elapsed_seconds;
use crate::float_text::{is_float_literal, is_float_text};
use crate::naming::{bucket_name, calc_bucket_name, gen_measurement, measurement_name};
use crate::numeral::{is_digit, lemma_decimal_is_numeral, parse_u32, u32_of_text};
use crate::schema::{get_mqtt_client_signal, schema_of, Signal, SignalMapping};
use crate::string_map::StringMap;
use crate::text::{push_signed_decimal, signed_decimal};

verus! {

/// One reading: the name of a signal and its value as the device sent it.
#[derive(Debug, Clone, PartialEq, Eq)]
pub struct DataRow {
    pub name: String,
    pub value: String,
}

/// One batch of readings of a device.
#[derive(Debug, Clone, PartialEq, Eq)]
pub struct DataRowList {
    /// When the device pushed the batch, in UNIX seconds.
    pub time: i64,
    pub device_uid: String,
    pub identification_code: String,
    pub data: Vec<DataRow>,
    pub nc: String,
    pub protocol: Option<String>,
}

/// The value of one field of a record.
#[derive(Debug, Clone, PartialEq, Eq)]
pub enum DataValue {
    Integer(i64),
    /// A number, held as its text: a text of the floating-point grammar,
    /// which the writer of the time-series store turns into a binary number.
    Float(String),
    Text(String),
}

/// A field value as a mathematical value.
pub enum FieldValue {
    Integer(int),
    Float(Seq<char>),
    Text(Seq<char>),
}

impl View for DataValue {
    type V = FieldValue;

    open spec fn view(&self) -> FieldValue {
        match self {
            DataValue::Integer(n) => FieldValue::Integer(*n as int),
            DataValue::Float(text) => FieldValue::Float(text@),
            DataValue::Text(text) => FieldValue::Text(text@),
        }
    }
}

/// Why a reading is left out of the record.
#[derive(Debug, Clone, Copy, PartialEq, Eq, Structural)]
pub enum SkipReason {
    /// The schema has no signal of that name.
    UnknownSignal,
    /// The signal is numeric and the value is not the text of a number.
    FieldParseError,
}

/// A reading that is left out of the record.
#[derive(Debug, Clone, PartialEq, Eq)]
pub struct SkippedField {
    pub name: String,
    pub reason: SkipReason,
}

/// Why a batch is not stored.
#[derive(Debug, Clone, Copy, PartialEq, Eq, Structural)]
pub enum StorageError {
    /// The schema store could not be reached.
    SchemaUnavailable,
    /// The device uid is not an unsigned number.
    InvalidDeviceId,
    /// The time of storage and the batch's push time are further apart than
    /// a 64-bit count of seconds can tell.
    ClockOutOfRange,
    /// The time-series store refused the write.
    WriteFailed,
}

/// The one write that stores a batch.
#[derive(Debug)]
pub struct WritePlan {
    pub bucket: String,
    pub measurement: String,
    /// When the record was assembled, in UNIX seconds.
    pub storage_time: i64,
    pub fields: StringMap<DataValue>,
    /// The readings that were left out, in the order of the batch.
    pub skipped: Vec<SkippedField>,
}

/// The readings of a batch as pairs of name and value.
pub open spec fn readings(data: Seq<DataRow>) -> Seq<(Seq<char>, Seq<char>)> {
    Seq::new(data.len(), |i: int| (data[i].name@, data[i].value@))
}

/// The three fields that every record has.
pub open spec fn time_fields(storage_time: int, push_time: int) -> Map<Seq<char>, FieldValue> {
    Map::<Seq<char>, FieldValue>::empty().insert(
        "storage_time"@,
        FieldValue::Integer(storage_time),
    ).insert("push_time"@, FieldValue::Integer(push_time)).insert(
        "transmission_latency"@,
        FieldValue::Integer(storage_time - push_time),
    )
}

/// Why a reading is left out under `schema`, or `None` if it is stored.
pub open spec fn skip_reason(
    reading: (Seq<char>, Seq<char>),
    schema: Map<Seq<char>, SignalMapping>,
) -> Option<SkipReason> {
    if !schema.contains_key(reading.0) {
        Some(SkipReason::UnknownSignal)
    } else if schema[reading.0].numb && !is_float_text(reading.1) {
        Some(SkipReason::FieldParseError)
    } else {
        None
    }
}

/// The name of the field that stores the signal mapped by `mapping`: its id
/// in decimal.
pub open spec fn field_name(mapping: SignalMapping) -> Seq<char> {
    signed_decimal(mapping.id as int)
}

/// The value stored for a reading of the signal mapped by `mapping`.
pub open spec fn field_value(mapping: SignalMapping, value: Seq<char>) -> FieldValue {
    if mapping.numb {
        FieldValue::Float(value)
    } else {
        FieldValue::Text(value)
    }
}

/// The fields of the record of a batch: the three time fields and one field
/// for each reading that is not left out. Where two readings are stored
/// under one name, the later one counts.
pub open spec fn record_fields(
    rows: Seq<(Seq<char>, Seq<char>)>,
    schema: Map<Seq<char>, SignalMapping>,
    storage_time: int,
    push_time: int,
) -> Map<Seq<char>, FieldValue>
    decreases rows.len(),
{
    if rows.len() == 0 {
        time_fields(storage_time, push_time)
    } else {
        let earlier = record_fields(rows.drop_last(), schema, storage_time, push_time);
        let last = rows.last();
        if skip_reason(last, schema) is None {
            earlier.insert(field_name(schema[last.0]), field_value(schema[last.0], last.1))
        } else {
            earlier
        }
    }
}

/// The readings of a batch that are left out, each with the reason, in the
/// order of the batch.
pub open spec fn skipped_readings(
    rows: Seq<(Seq<char>, Seq<char>)>,
    schema: Map<Seq<char>, SignalMapping>,
) -> Seq<(Seq<char>, SkipReason)>
    decreases rows.len(),
{
    if rows.len() == 0 {
        Seq::empty()
    } else {
        let earlier = skipped_readings(rows.drop_last(), schema);
        match skip_reason(rows.last(), schema) {
            Some(reason) => earlier.push((rows.last().0, reason)),
            None => earlier,
        }
    }
}

impl WritePlan {
    /// The fields as a mathematical map from name to value.
    pub open spec fn field_map(&self) -> Map<Seq<char>, FieldValue> {
        self.fields@.map_values(|v: DataValue| v@)
    }

    /// The skipped readings as pairs of name and reason.
    pub open spec fn skipped_list(&self) -> Seq<(Seq<char>, SkipReason)> {
        Seq::new(self.skipped@.len(), |i: int| (self.skipped@[i].name@, self.skipped@[i].reason))
    }

    /// Whether this is the write that stores `dt`, read under `schema` at
    /// `storage_time`, for the device with the number `uid`.
    pub open spec fn stores(
        &self,
        dt: DataRowList,
        protocol: Seq<char>,
        bucket: Seq<char>,
        schema: Map<Seq<char>, SignalMapping>,
        storage_time: i64,
        uid: u32,
    ) -> bool {
        &&& self.bucket@ == bucket_name(bucket, protocol, uid)
        &&& self.measurement@ == measurement_name(
            dt.device_uid@,
            dt.identification_code@,
            protocol,
        )
        &&& self.storage_time == storage_time
        &&& self.field_map() == record_fields(
            readings(dt.data@),
            schema,
            storage_time as int,
            dt.time as int,
        )
        &&& self.skipped_list() == skipped_readings(readings(dt.data@), schema)
    }
}

/// The names of the three fields that every record has.
pub open spec fn is_time_field(name: Seq<char>) -> bool {
    name == "storage_time"@ || name == "push_time"@ || name == "transmission_latency"@
}

/// Whether reading `i` of the batch is stored, and under the name `name`.
pub open spec fn is_stored_as(
    rows: Seq<(Seq<char>, Seq<char>)>,
    schema: Map<Seq<char>, SignalMapping>,
    i: int,
    name: Seq<char>,
) -> bool {
    0 <= i < rows.len() && skip_reason(rows[i], schema) is None && field_name(schema[rows[i].0])
        == name
}

/// The field set of a record: the three time fields, and the fields of the
/// readings whose signal is in the schema and whose value can be stored.
pub proof fn lemma_record_field_names(
    rows: Seq<(Seq<char>, Seq<char>)>,
    schema: Map<Seq<char>, SignalMapping>,
    storage_time: int,
    push_time: int,
    name: Seq<char>,
)
    ensures
        record_fields(rows, schema, storage_time, push_time).contains_key(name) <==> is_time_field(
            name,
        ) || exists|i: int| is_stored_as(rows, schema, i, name),
    decreases rows.len(),
{
    if rows.len() > 0 {
        let earlier = rows.drop_last();
        let last = rows.len() - 1;
        lemma_record_field_names(earlier, schema, storage_time, push_time, name);
        if record_fields(rows, schema, storage_time, push_time).contains_key(name)
            && !is_time_field(name) {
            if is_stored_as(rows, schema, last, name) {
            } else {
                let i = choose|i: int| is_stored_as(earlier, schema, i, name);
                assert(is_stored_as(rows, schema, i, name));
            }
        }
        assert forall|i: int| is_stored_as(rows, schema, i, name) implies record_fields(
            rows,
            schema,
            storage_time,
            push_time,
        ).contains_key(name) by {
            if i < last {
                assert(is_stored_as(earlier, schema, i, name));
            }
        }
    }
}

/// A field of a signal holds the value of the last reading that is stored
/// under its name.
pub proof fn lemma_record_field_value(
    rows: Seq<(Seq<char>, Seq<char>)>,
    schema: Map<Seq<char>, SignalMapping>,
    storage_time: int,
    push_time: int,
    name: Seq<char>,
    i: int,
)
    requires
        is_stored_as(rows, schema, i, name),
        forall|j: int| i < j ==> !is_stored_as(rows, schema, j, name),
    ensures
        record_fields(rows, schema, storage_time, push_time).contains_key(name),
        record_fields(rows, schema, storage_time, push_time)[name] == field_value(
            schema[rows[i].0],
            rows[i].1,
        ),
    decreases rows.len(),
{
    let earlier = rows.drop_last();
    let last = rows.len() - 1;
    if i < last {
        assert(is_stored_as(earlier, schema, i, name));
        assert(!is_stored_as(rows, schema, last, name));
        assert forall|j: int| i < j implies !is_stored_as(earlier, schema, j, name) by {
            assert(!is_stored_as(rows, schema, j, name));
        }
        lemma_record_field_value(earlier, schema, storage_time, push_time, name, i);
    }
}

/// No signal is stored under the name of a time field: the name of a
/// signal's field is a decimal numeral.
pub proof fn lemma_signal_fields_are_apart(mapping: SignalMapping)
    ensures
        !is_time_field(field_name(mapping)),
{
    reveal_strlit("storage_time");
    reveal_strlit("push_time");
    reveal_strlit("transmission_latency");
    let name = field_name(mapping);
    if mapping.id >= 0 {
        lemma_decimal_is_numeral(mapping.id as nat);
        assert(is_digit(name[0]));
    } else {
        assert(name[0] == '-');
    }
}

/// Every record has the three time fields, with the time of storage, the
/// push time and their difference, whatever the batch holds.
pub proof fn lemma_time_fields_are_kept(
    rows: Seq<(Seq<char>, Seq<char>)>,
    schema: Map<Seq<char>, SignalMapping>,
    storage_time: int,
    push_time: int,
)
    ensures
        ({
            let fields = record_fields(rows, schema, storage_time, push_time);
            &&& fields.contains_key("storage_time"@)
            &&& fields["storage_time"@] == FieldValue::Integer(storage_time)
            &&& fields.contains_key("push_time"@)
            &&& fields["push_time"@] == FieldValue::Integer(push_time)
            &&& fields.contains_key("transmission_latency"@)
            &&& fields["transmission_latency"@] == FieldValue::Integer(storage_time - push_time)
        }),
    decreases rows.len(),
{
    if rows.len() == 0 {
        reveal_strlit("storage_time");
        reveal_strlit("push_time");
        reveal_strlit("transmission_latency");
        assert("storage_time"@.len() == 12);
        assert("push_time"@.len() == 9);
        assert("transmission_latency"@.len() == 20);
    } else {
        lemma_time_fields_are_kept(rows.drop_last(), schema, storage_time, push_time);
        if skip_reason(rows.last(), schema) is None {
            let name = field_name(schema[rows.last().0]);
            lemma_signal_fields_are_apart(schema[rows.last().0]);
            assert(name != "storage_time"@ && name != "push_time"@ && name
                != "transmission_latency"@);
        }
    }
}

/// Every reading that is left out is listed among the skipped readings,
/// with its reason, and the list is no longer than the batch.
pub proof fn lemma_skipped_is_listed(
    rows: Seq<(Seq<char>, Seq<char>)>,
    schema: Map<Seq<char>, SignalMapping>,
    i: int,
)
    requires
        0 <= i < rows.len(),
    ensures
        skip_reason(rows[i], schema) matches Some(reason) ==> skipped_readings(
            rows,
            schema,
        ).contains((rows[i].0, reason)),
        skipped_readings(rows, schema).len() <= rows.len(),
    decreases rows.len(),
{
    let earlier = rows.drop_last();
    let listed = skipped_readings(rows, schema);
    if i < rows.len() - 1 {
        lemma_skipped_is_listed(earlier, schema, i);
        if let Some(reason) = skip_reason(rows[i], schema) {
            let at = skipped_readings(earlier, schema).index_of((rows[i].0, reason));
            assert(listed[at] == (rows[i].0, reason));
        }
    } else {
        if rows.len() > 1 {
            lemma_skipped_is_listed(earlier, schema, 0);
        }
        if let Some(reason) = skip_reason(rows[i], schema) {
            assert(listed[listed.len() - 1] == (rows[i].0, reason));
        }
    }
}

/// Assembles the fields of the record and the list of skipped readings.
fn assemble_fields(
    data: &Vec<DataRow>,
    map: &StringMap<SignalMapping>,
    storage_time: i64,
    push_time: i64,
) -> (out: (StringMap<DataValue>, Vec<SkippedField>))
    requires
        i64::MIN <= storage_time - push_time <= i64::MAX,
    ensures
        out.0@.map_values(|v: DataValue| v@) == record_fields(
            readings(data@),
            map@,
            storage_time as int,
            push_time as int,
        ),
        Seq::new(out.1@.len(), |i: int| (out.1@[i].name@, out.1@[i].reason)) == skipped_readings(
            readings(data@),
            map@,
        ),
{
    let ghost rows = readings(data@);
    let ghost viewed = |v: DataValue| v@;
    let mut fields: StringMap<DataValue> = StringMap::new();
    let mut skipped: Vec<SkippedField> = Vec::new();
    fields.insert(String::from_str("storage_time"), DataValue::Integer(storage_time));
    fields.insert(String::from_str("push_time"), DataValue::Integer(push_time));
    fields.insert(
        String::from_str("transmission_latency"),
        DataValue::Integer(storage_time - push_time),
    );
    proof {
        assert(rows.take(0) =~= Seq::empty());
        assert(fields@.map_values(viewed) =~= time_fields(storage_time as int, push_time as int));
    }
    let mut i: usize = 0;
    while i < data.len()
        invariant
            i <= data.len(),
            rows == readings(data@),
            viewed == |v: DataValue| v@,
            fields@.map_values(viewed) == record_fields(
                rows.take(i as int),
                map@,
                storage_time as int,
                push_time as int,
            ),
            Seq::new(skipped@.len(), |k: int| (skipped@[k].name@, skipped@[k].reason))
                == skipped_readings(rows.take(i as int), map@),
        decreases data.len() - i,
    {
        let row = &data[i];
        let ghost before = fields@;
        let ghost skipped_before = skipped@;
        proof {
            assert(rows.take(i + 1).drop_last() =~= rows.take(i as int));
            assert(rows.take(i + 1).last() == (row.name@, row.value@));
        }
        match map.get(row.name.as_str()) {
            None => {
                skipped.push(
                    SkippedField { name: row.name.clone(), reason: SkipReason::UnknownSignal },
                );
            },
            Some(mapping) => {
                if mapping.numb && !is_float_literal(row.value.as_str()) {
                    skipped.push(
                        SkippedField {
                            name: row.name.clone(),
                            reason: SkipReason::FieldParseError,
                        },
                    );
                } else {
                    let mut name = String::new();
                    push_signed_decimal(&mut name, mapping.id);
                    let value = if mapping.numb {
                        DataValue::Float(row.value.clone())
                    } else {
                        DataValue::Text(row.value.clone())
                    };
                    fields.insert(name, value);
                    proof {
                        assert(name@ =~= field_name(*mapping));
                        assert(fields@.map_values(viewed) =~= before.map_values(viewed).insert(
                            name@,
                            value@,
                        ));
                    }
                }
            },
        }
        proof {
            let listed = Seq::new(skipped@.len(), |k: int| (skipped@[k].name@, skipped@[k].reason));
            let listed_before = Seq::new(
                skipped_before.len(),
                |k: int| (skipped_before[k].name@, skipped_before[k].reason),
            );
            if skipped@.len() > skipped_before.len() {
                assert(listed =~= listed_before.push(
                    (row.name@, skip_reason((row.name@, row.value@), map@)->0),
                ));
            } else {
                assert(listed =~= listed_before);
            }
        }
        i += 1;
    }
    proof {
        assert(rows.take(i as int) =~= rows);
    }
    (fields, skipped)
}

/// The protocol under which a batch is stored: the one it names, `MQTT` if
/// it names none.
pub open spec fn protocol_name(dt: DataRowList) -> Seq<char> {
    match dt.protocol {
        Some(protocol) => protocol@,
        None => "MQTT"@,
    }
}

/// The protocol under which `dt` is stored.
pub fn protocol_of(dt: &DataRowList) -> (protocol: String)
    ensures
        protocol@ == protocol_name(*dt),
{
    match &dt.protocol {
        Some(protocol) => protocol.clone(),
        None => String::from_str("MQTT"),
    }
}

/// Whether the latency of a batch pushed at `push_time` and stored at
/// `now` can be told in a 64-bit count of seconds.
pub open spec fn latency_fits(now: i64, push_time: i64) -> bool {
    i64::MIN <= now - push_time <= i64::MAX
}

/// Assembles the write that stores `dt` at the time `now`.
///
/// `signals` is what the schema store lists for the device, or `None` if
/// it could not be reached. `bucket` is the prefix of the bucket names, and
/// `now` the time of storage in UNIX seconds, as the caller read it from
/// its clock. Nothing is written here: the caller hands the plan to the
/// time-series store, once, and acknowledges the batch according to the
/// outcome.
///
/// A batch is stored exactly if the schema store answered, the device uid
/// is an unsigned number and the latency fits; otherwise the first of
/// these that fails names the error.
pub fn storage_data_row(
    dt: &DataRowList,
    protocol: &str,
    bucket: &str,
    signals: Option<&Vec<Option<Signal>>>,
    now: i64,
) -> (result: Result<WritePlan, StorageError>)
    ensures
        result is Ok <==> signals is Some && u32_of_text(dt.device_uid@) is Some && latency_fits(
            now,
            dt.time,
        ),
        result matches Ok(plan) ==> plan.stores(
            *dt,
            protocol@,
            bucket@,
            schema_of(signals->0@),
            now,
            u32_of_text(dt.device_uid@)->0,
        ),
        result matches Err(e) ==> e == (if signals is None {
            StorageError::SchemaUnavailable
        } else if u32_of_text(dt.device_uid@) is None {
            StorageError::InvalidDeviceId
        } else {
            StorageError::ClockOutOfRange
        }),
{
    let entries = match signals {
        Some(entries) => entries,
        None => {
            return Err(StorageError::SchemaUnavailable);
        },
    };
    let map = get_mqtt_client_signal(entries);
    let device_uid = match parse_u32(dt.device_uid.as_str()) {
        Some(uid) => uid,
        None => {
            return Err(StorageError::InvalidDeviceId);
        },
    };
    if elapsed_seconds(now, dt.time).is_none() {
        return Err(StorageError::ClockOutOfRange);
    }
    let bucket_name = calc_bucket_name(bucket, protocol, device_uid);
    let measurement = gen_measurement(
        dt.device_uid.as_str(),
        dt.identification_code.as_str(),
        protocol,
    );
    let (fields, skipped) = assemble_fields(&dt.data, &map, now, dt.time);
    Ok(WritePlan { bucket: bucket_name, measurement, storage_time: now, fields, skipped })
}

/// The latency fits whenever neither time lies before 1970, and whenever
/// the push time is 0, whatever the time of storage: on such batches
/// `storage_data_row` fails only for want of a schema or of a device
/// number.
pub proof fn lemma_latency_fits(now: i64, push_time: i64)
    ensures
        0 <= now && 0 <= push_time ==> latency_fits(now, push_time),
        push_time == 0 ==> latency_fits(now, push_time),
{
}

/// What the attempt to write a record comes to.
pub fn write_outcome(written: bool) -> (result: Result<(), StorageError>)
    ensures
        result == (if written {
            Ok::<(), StorageError>(())
        } else {
            Err::<(), StorageError>(StorageError::WriteFailed)
        }),
{
    if written {
        Ok(())
    } else {
        Err(StorageError::WriteFailed)
    }
}

} // verus!
