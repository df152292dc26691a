//! What the messages of a field unit's notification stream lead to, and the
//! module configuration written for a newly registered device.
use vstd::prelude::*;
use crate::discovery::{
    select_template, sensor_names, telemetry_capabilities, telemetry_device_id, template_for,
    DeviceCapabilities, SensorCapability,
};
use crate::json::{
    entries_model, get_str, json_get, json_insert, json_parse_result, json_pretty_text,
    json_to_string_pretty, lemma_entries_model, number_to_yaml, parse_json, Json, JsonNum, JsonNumber, JsonValue,
};
use crate::scheduler::{extract_schedule_metadata, num};
use crate::serial::{line_message, SspError, SspMessage};
use crate::text::{concat, join_strings, join_with, lines_of, owned, str_lines};
use vstd::string::StringExecFns;

verus! {

// ---------------------------------------------------------------------------
// One message of a notification stream
// ---------------------------------------------------------------------------

/// The capabilities a field unit named `device_id` registers with by its
/// first telemetry: type `field_unit`, firmware `unknown`, sensors `a`, `b`
/// and `c` of no known unit or range, no actuator and no command.
pub open spec fn is_field_unit(c: DeviceCapabilities, device_id: Seq<char>) -> bool {
    &&& c.device_id@ == device_id
    &&& c.device_type@ == "field_unit"@
    &&& c.firmware_version@ == "unknown"@
    &&& sensor_names(c.sensors@) == seq!["a"@, "b"@, "c"@]
    &&& forall|i: int|
        0 <= i < c.sensors@.len() ==> (#[trigger] c.sensors@[i]).unit@ == Seq::<char>::empty()
            && c.sensors@[i].min_value is None && c.sensors@[i].max_value is None
    &&& c.actuators@.len() == 0
    &&& c.commands@.len() == 0
}

/// What one complete message of a device's notification stream asks for.
pub struct StreamStep {
    /// The capabilities to register the device with: on the first message
    /// that names the device, while it is not registered yet.
    pub registration: Option<DeviceCapabilities>,
    /// The message read as SSP telemetry, to publish on the bus.
    pub telemetry: Result<SspMessage, SspError>,
    /// The schedule metadata (`m`) of the telemetry, for the command
    /// scheduler.
    pub schedule_metadata: Option<JsonValue>,
}

/// The steps for one complete message (already trimmed, starting with `{`)
/// of a device's notification stream.
pub fn stream_message_step(message: &str, registered: bool) -> (r: StreamStep)
    ensures
        registered ==> r.registration is None,
        !registered ==> match json_parse_result(message@) {
            Some(v) => match get_str(v, "i"@) {
                Some(d) => r.registration matches Some(c) && is_field_unit(c, d),
                None => r.registration is None,
            },
            None => r.registration is None,
        },
        match line_message(message@) {
            Ok(m) => r.telemetry matches Ok(t) && t@ == m,
            Err(e) => r.telemetry matches Err(x) && x == e,
        },
        r.telemetry is Err ==> r.schedule_metadata is None,
        r.telemetry is Ok ==> match json_parse_result(message@) {
            Some(v) => match json_get(v, "m"@) {
                Some(md) => r.schedule_metadata matches Some(x) && x@ == md,
                None => r.schedule_metadata is None,
            },
            None => r.schedule_metadata is None,
        },
{
    let registration = if registered {
        None
    } else {
        match telemetry_device_id(message) {
            Some(d) => Some(telemetry_capabilities(d.as_str())),
            None => None,
        }
    };
    let telemetry = SspMessage::parse_flexible(message);
    let schedule_metadata = match &telemetry {
        Ok(_) => match parse_json(message) {
            Some(v) => extract_schedule_metadata(&v),
            None => None,
        },
        Err(_) => None,
    };
    StreamStep { registration, telemetry, schedule_metadata }
}

// ---------------------------------------------------------------------------
// The module configuration of a registered device
// ---------------------------------------------------------------------------

/// A binding for each sensor, set to 0, in the order of the sensors.
pub open spec fn sensor_bindings(sensors: Seq<SensorCapability>) -> Seq<(Seq<char>, Json)>
    decreases sensors.len(),
{
    if sensors.len() == 0 {
        Seq::empty()
    } else {
        json_insert(sensor_bindings(sensors.drop_last()), sensors.last().name@, num(0))
    }
}

/// The bindings of a device's module: its sensors, then `device_id`,
/// `firmware_version` and `is_blinkable: true`.
pub open spec fn bindings_entries(c: DeviceCapabilities) -> Seq<(Seq<char>, Json)> {
    json_insert(
        json_insert(
            json_insert(sensor_bindings(c.sensors@), "device_id"@, Json::Str(c.device_id@)),
            "firmware_version"@,
            Json::Str(c.firmware_version@),
        ),
        "is_blinkable"@,
        Json::Bool(true),
    )
}

/// The configuration of a device's module: named `<id> (<type>)`, a
/// monitoring module on the device's topic, with the device's template and
/// bindings.
pub open spec fn config_doc(c: DeviceCapabilities) -> Json {
    Json::Obj(
        seq![
            ("name"@, Json::Str(c.device_id@ + " ("@ + c.device_type@ + ")"@)),
            ("module_type"@, Json::Str("monitoring"@)),
            ("bus_topic"@, Json::Str(c.device_id@)),
            ("template"@, Json::Str(template_for(c))),
            ("bindings"@, Json::Obj(bindings_entries(c))),
        ],
    )
}

/// The sample reading of a sensor: its minimum, or `0.0`.
pub open spec fn sample_value(s: SensorCapability) -> Json {
    match s.min_value {
        Some(n) => Json::Num(n@),
        None => Json::Num(JsonNum::Float("0.0"@)),
    }
}

/// A sample reading for each sensor.
pub open spec fn sample_values(sensors: Seq<SensorCapability>) -> Seq<(Seq<char>, Json)>
    decreases sensors.len(),
{
    if sensors.len() == 0 {
        Seq::empty()
    } else {
        json_insert(sample_values(sensors.drop_last()), sensors.last().name@, sample_value(sensors.last()))
    }
}

/// A sample telemetry message of a device, as SSP.
pub open spec fn sample_doc(c: DeviceCapabilities) -> Json {
    Json::Obj(
        seq![
            ("protocol"@, Json::Str("ssp/1.0"@)),
            ("type"@, Json::Str("telemetry"@)),
            ("topic"@, Json::Str(c.device_id@)),
            ("timestamp"@, num(1732377600)),
            (
                "source"@,
                Json::Obj(
                    seq![
                        ("id"@, Json::Str(c.device_id@)),
                        ("transport"@, Json::Str("ble"@)),
                        ("address"@, Json::Str("XX:XX:XX:XX:XX:XX"@)),
                    ],
                ),
            ),
            ("payload"@, Json::Obj(sample_values(c.sensors@))),
        ],
    )
}

/// A text as YAML comment lines: each line of it behind `# `.
pub open spec fn comment_block(text: Seq<char>) -> Seq<char> {
    "# "@ + join_with(str_lines(text), "\n# "@)
}

/// The text of a device's module file: a comment header naming the device,
/// its type and firmware, the sample payload as comment lines, then the
/// configuration as YAML.
pub open spec fn config_file_text(c: DeviceCapabilities, sample: Seq<char>, yaml: Seq<char>) -> Seq<
    char,
> {
    "# Auto-generated module for "@ + c.device_id@ + "\n# Device Type: "@ + c.device_type@
        + "\n# Firmware: "@ + c.firmware_version@ + "\n\n# Sample SSP Telemetry Payload:\n"@
        + comment_block(sample) + "\n\n"@ + yaml
}

/// The YAML text `serde_yaml::to_string` prints for a document whose
/// objects are mappings with string keys; `None` where it reports an error.
pub uninterp spec fn yaml_text(v: Json) -> Option<Seq<char>>;

#[verifier::external_type_specification]
#[verifier::external_body]
pub struct ExSerdeYamlValue(serde_yaml::Value);

/// Moves a document into a `serde_yaml::Value`, one node for one node,
/// keeping the order of object members.
#[verifier::external_body]
fn to_yaml(v: &JsonValue) -> serde_yaml::Value {
    match v {
        JsonValue::Null => serde_yaml::Value::Null,
        JsonValue::Bool(b) => serde_yaml::Value::Bool(*b),
        JsonValue::Number(n) => number_to_yaml(n),
        JsonValue::String(s) => serde_yaml::Value::String(s.clone()),
        JsonValue::Array(a) => serde_yaml::Value::Sequence(a.iter().map(to_yaml).collect()),
        JsonValue::Object(o) => serde_yaml::Value::Mapping(
            o.iter().map(|(k, v)| (serde_yaml::Value::String(k.clone()), to_yaml(v))).collect(),
        ),
    }
}

/// `serde_yaml::to_string`: prints a document as YAML. The text is named by
/// [`yaml_text`]; nothing more of it is stated here.
#[verifier::external_body]
fn yaml_to_string(v: &JsonValue) -> (r: Option<String>)
    ensures
        match yaml_text(v@) {
            Some(t) => r matches Some(s) && s@ == t,
            None => r is None,
        },
{
    serde_yaml::to_string(&to_yaml(v)).ok()
}

/// The configuration of a device's module, as a document.
pub fn module_config_doc(c: &DeviceCapabilities) -> (r: JsonValue)
    ensures
        r@ == config_doc(*c),
{
    let mut bindings = JsonValue::new_object();
    let mut i: usize = 0;
    while i < c.sensors.len()
        invariant
            i <= c.sensors@.len(),
            bindings@ == Json::Obj(sensor_bindings(c.sensors@.take(i as int))),
        decreases c.sensors.len() - i,
    {
        bindings.insert(c.sensors[i].name.as_str(), JsonValue::from_u64(0));
        proof {
            let t = c.sensors@.take(i + 1);
            assert(t.drop_last() =~= c.sensors@.take(i as int));
        }
        i = i + 1;
    }
    assert(c.sensors@.take(i as int) =~= c.sensors@);
    bindings.insert("device_id", JsonValue::from_str(c.device_id.as_str()));
    bindings.insert("firmware_version", JsonValue::from_str(c.firmware_version.as_str()));
    bindings.insert("is_blinkable", JsonValue::Bool(true));
    let mut name = owned(c.device_id.as_str());
    name.append(" (");
    name.append(c.device_type.as_str());
    name.append(")");
    let entries = vec![
        (owned("name"), JsonValue::String(name)),
        (owned("module_type"), JsonValue::from_str("monitoring")),
        (owned("bus_topic"), JsonValue::from_str(c.device_id.as_str())),
        (owned("template"), JsonValue::String(select_template(c))),
        (owned("bindings"), bindings),
    ];
    proof {
        lemma_entries_model(entries@, 5);
        assert(entries_model(entries@, 5) =~= match config_doc(*c) {
            Json::Obj(e) => e,
            _ => Seq::empty(),
        });
    }
    JsonValue::Object(entries)
}

/// A sample telemetry message of a device, as a document.
pub fn sample_payload_doc(c: &DeviceCapabilities) -> (r: JsonValue)
    ensures
        r@ == sample_doc(*c),
{
    let mut values = JsonValue::new_object();
    let mut i: usize = 0;
    while i < c.sensors.len()
        invariant
            i <= c.sensors@.len(),
            values@ == Json::Obj(sample_values(c.sensors@.take(i as int))),
        decreases c.sensors.len() - i,
    {
        let v = match &c.sensors[i].min_value {
            Some(n) => n.copy(),
            None => JsonNumber::float_zero(),
        };
        values.insert(c.sensors[i].name.as_str(), JsonValue::Number(v));
        proof {
            let t = c.sensors@.take(i + 1);
            assert(t.drop_last() =~= c.sensors@.take(i as int));
        }
        i = i + 1;
    }
    assert(c.sensors@.take(i as int) =~= c.sensors@);
    let source = vec![
        (owned("id"), JsonValue::from_str(c.device_id.as_str())),
        (owned("transport"), JsonValue::from_str("ble")),
        (owned("address"), JsonValue::from_str("XX:XX:XX:XX:XX:XX")),
    ];
    proof {
        lemma_entries_model(source@, 3);
        assert(entries_model(source@, 3) =~= seq![
            ("id"@, Json::Str(c.device_id@)),
            ("transport"@, Json::Str("ble"@)),
            ("address"@, Json::Str("XX:XX:XX:XX:XX:XX"@)),
        ]);
    }
    let source_doc = JsonValue::Object(source);
    let ghost sm = source_doc@;
    let ghost vm = values@;
    let entries = vec![
        (owned("protocol"), JsonValue::from_str("ssp/1.0")),
        (owned("type"), JsonValue::from_str("telemetry")),
        (owned("topic"), JsonValue::from_str(c.device_id.as_str())),
        (owned("timestamp"), JsonValue::from_u64(1732377600)),
        (owned("source"), source_doc),
        (owned("payload"), values),
    ];
    proof {
        lemma_entries_model(entries@, 6);
        assert(sm == Json::Obj(
            seq![
                ("id"@, Json::Str(c.device_id@)),
                ("transport"@, Json::Str("ble"@)),
                ("address"@, Json::Str("XX:XX:XX:XX:XX:XX"@)),
            ],
        ));
        assert(entries_model(entries@, 6) =~= match sample_doc(*c) {
            Json::Obj(e) => e,
            _ => Seq::empty(),
        });
    }
    JsonValue::Object(entries)
}

/// A text as YAML comment lines.
pub fn comment_lines(text: &str) -> (r: String)
    ensures
        r@ == comment_block(text@),
{
    let lines = lines_of(text);
    let body = join_strings(&lines, "\n# ");
    concat("# ", body.as_str())
}

/// The text of a device's module file, given the sample payload as
/// `serde_json` prints it indented and the configuration as YAML.
pub fn assemble_module_config(c: &DeviceCapabilities, sample: &str, yaml: &str) -> (r: String)
    ensures
        r@ == config_file_text(*c, sample@, yaml@),
{
    let mut s = owned("# Auto-generated module for ");
    s.append(c.device_id.as_str());
    s.append("\n# Device Type: ");
    s.append(c.device_type.as_str());
    s.append("\n# Firmware: ");
    s.append(c.firmware_version.as_str());
    s.append("\n\n# Sample SSP Telemetry Payload:\n");
    let block = comment_lines(sample);
    s.append(block.as_str());
    s.append("\n\n");
    s.append(yaml);
    s
}

/// The text of a device's module file, or `None` where the configuration
/// cannot be printed as YAML.
pub fn module_config_text(c: &DeviceCapabilities) -> (r: Option<String>)
    ensures
        match yaml_text(config_doc(*c)) {
            Some(y) => r matches Some(t) && t@ == config_file_text(
                *c,
                json_pretty_text(sample_doc(*c)),
                y,
            ),
            None => r is None,
        },
{
    let config = module_config_doc(c);
    let yaml = match yaml_to_string(&config) {
        Some(y) => y,
        None => return None,
    };
    let sample = json_to_string_pretty(&sample_payload_doc(c));
    Some(assemble_module_config(c, sample.as_str(), yaml.as_str()))
}

} // verus!
