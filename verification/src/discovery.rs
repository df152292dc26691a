//! Discovery of BLE field units: which advertised devices are Survon
//! devices, what a device reports of itself, which UI template suits it,
//! and how its notification stream is cut into messages. The radio work is
//! done by the application.
use vstd::prelude::*;
use crate::bus::BusMessage;
use crate::json::{
    get_str, int_json, json_parse_result, json_text, json_to_string, parse_json, Json, JsonNumber,
    JsonValue,
};
use crate::scheduler::{
    control_command, create_control_command, opt_json, CommandPriority, CommandView, QueuedCommand,
};
use crate::text::{
    ascii_text, char_len_utf8, chars_of, contains, contains_str, frames, is_ascii_char,
    is_char_boundary, lemma_utf8_len_prefix, owned, string_of, trim, trim_vec, str_eq, utf8_len,
};

verus! {

/// The BLE service of Survon field units.
pub const SURVON_SERVICE_UUID: &'static str = "6e400001-b5a3-f393-e0a9-e50e24dcca9e";

/// The characteristic written to send to a device.
pub const SURVON_TX_CHAR_UUID: &'static str = "6e400002-b5a3-f393-e0a9-e50e24dcca9e";

/// The characteristic a device notifies on.
pub const SURVON_RX_CHAR_UUID: &'static str = "6e400003-b5a3-f393-e0a9-e50e24dcca9e";

/// How long a command sent to a device may wait in its queue.
pub const COMMAND_MAX_AGE_MS: u64 = 300000;

/// A sensor of a device.
pub struct SensorCapability {
    pub name: String,
    pub unit: String,
    pub min_value: Option<JsonNumber>,
    pub max_value: Option<JsonNumber>,
}

/// An actuator of a device.
pub struct ActuatorCapability {
    pub name: String,
    /// `digital`, `analog`, `servo`, ...
    pub actuator_type: String,
}

/// What a device reports of itself at registration.
pub struct DeviceCapabilities {
    pub device_id: String,
    pub device_type: String,
    pub firmware_version: String,
    pub sensors: Vec<SensorCapability>,
    pub actuators: Vec<ActuatorCapability>,
    pub commands: Vec<String>,
}

/// The compact registration answer of a device:
/// `{"p":..,"t":..,"i":device,"s":timestamp,"d":{"dt":type,"fw":firmware,"s":[sensor keys],"a":[actuator keys]}}`.
pub struct CompactRegistration {
    pub protocol: String,
    pub msg_type: String,
    pub device_id: String,
    pub timestamp: u64,
    pub device_type: String,
    pub firmware: String,
    pub sensors: Vec<String>,
    pub actuators: Vec<String>,
}

pub open spec fn names_of(v: Seq<String>) -> Seq<Seq<char>> {
    v.map_values(|s: String| s@)
}

pub open spec fn sensor_names(v: Seq<SensorCapability>) -> Seq<Seq<char>> {
    v.map_values(|s: SensorCapability| s.name@)
}

pub open spec fn actuator_names(v: Seq<ActuatorCapability>) -> Seq<Seq<char>> {
    v.map_values(|a: ActuatorCapability| a.name@)
}

impl CompactRegistration {
    /// The capabilities the answer stands for: each sensor key a sensor of
    /// no known unit or range, each actuator key a digital actuator, and no
    /// commands.
    pub fn to_capabilities(self) -> (r: DeviceCapabilities)
        ensures
            r.device_id@ == self.device_id@,
            r.device_type@ == self.device_type@,
            r.firmware_version@ == self.firmware@,
            sensor_names(r.sensors@) == names_of(self.sensors@),
            forall|i: int|
                0 <= i < r.sensors@.len() ==> (#[trigger] r.sensors@[i]).unit@ == Seq::<char>::empty()
                    && r.sensors@[i].min_value is None && r.sensors@[i].max_value is None,
            actuator_names(r.actuators@) == names_of(self.actuators@),
            forall|i: int|
                0 <= i < r.actuators@.len() ==> (#[trigger] r.actuators@[i]).actuator_type@
                    == "digital"@,
            r.commands@.len() == 0,
    {
        let mut sensors: Vec<SensorCapability> = Vec::new();
        let mut i: usize = 0;
        while i < self.sensors.len()
            invariant
                i <= self.sensors@.len(),
                sensor_names(sensors@) == names_of(self.sensors@).take(i as int),
                forall|j: int|
                    0 <= j < sensors@.len() ==> (#[trigger] sensors@[j]).unit@ == Seq::<char>::empty()
                        && sensors@[j].min_value is None && sensors@[j].max_value is None,
            decreases self.sensors.len() - i,
        {
            let ghost before = sensors@;
            let s = SensorCapability {
                name: self.sensors[i].clone(),
                unit: String::new(),
                min_value: None,
                max_value: None,
            };
            sensors.push(s);
            assert(sensor_names(sensors@) =~= sensor_names(before).push(self.sensors@[i as int]@));
            i = i + 1;
            assert(sensor_names(sensors@) =~= names_of(self.sensors@).take(i as int));
        }
        assert(names_of(self.sensors@).take(i as int) =~= names_of(self.sensors@));
        let mut actuators: Vec<ActuatorCapability> = Vec::new();
        let mut k: usize = 0;
        while k < self.actuators.len()
            invariant
                k <= self.actuators@.len(),
                actuator_names(actuators@) == names_of(self.actuators@).take(k as int),
                forall|j: int|
                    0 <= j < actuators@.len() ==> (#[trigger] actuators@[j]).actuator_type@
                        == "digital"@,
            decreases self.actuators.len() - k,
        {
            let ghost before = actuators@;
            let a = ActuatorCapability {
                name: self.actuators[k].clone(),
                actuator_type: owned("digital"),
            };
            actuators.push(a);
            assert(actuator_names(actuators@) =~= actuator_names(before).push(
                self.actuators@[k as int]@,
            ));
            k = k + 1;
            assert(actuator_names(actuators@) =~= names_of(self.actuators@).take(k as int));
        }
        assert(names_of(self.actuators@).take(k as int) =~= names_of(self.actuators@));
        DeviceCapabilities {
            device_id: self.device_id,
            device_type: self.device_type,
            firmware_version: self.firmware,
            sensors,
            actuators,
            commands: Vec::new(),
        }
    }
}

/// A sensor of a field unit known only by its key.
fn keyed_sensor(key: &str) -> (r: SensorCapability)
    ensures
        r.name@ == key@,
        r.unit@ == Seq::<char>::empty(),
        r.min_value is None,
        r.max_value is None,
{
    SensorCapability { name: owned(key), unit: String::new(), min_value: None, max_value: None }
}

/// What is assumed of a field unit that registers by its first telemetry:
/// a `field_unit` of unknown firmware with sensors `a`, `b` and `c`, no
/// actuator and no command.
pub fn telemetry_capabilities(device_id: &str) -> (r: DeviceCapabilities)
    ensures
        r.device_id@ == device_id@,
        r.device_type@ == "field_unit"@,
        r.firmware_version@ == "unknown"@,
        sensor_names(r.sensors@) == seq!["a"@, "b"@, "c"@],
        forall|i: int|
            0 <= i < r.sensors@.len() ==> (#[trigger] r.sensors@[i]).unit@ == Seq::<char>::empty()
                && r.sensors@[i].min_value is None && r.sensors@[i].max_value is None,
        r.actuators@.len() == 0,
        r.commands@.len() == 0,
{
    let sensors = vec![keyed_sensor("a"), keyed_sensor("b"), keyed_sensor("c")];
    assert(sensor_names(sensors@) =~= seq!["a"@, "b"@, "c"@]);
    DeviceCapabilities {
        device_id: owned(device_id),
        device_type: owned("field_unit"),
        firmware_version: owned("unknown"),
        sensors,
        actuators: Vec::new(),
        commands: Vec::new(),
    }
}

/// The device id (`i`) of a telemetry line, by which a device registers.
pub fn telemetry_device_id(line: &str) -> (r: Option<String>)
    ensures
        match json_parse_result(line@) {
            Some(v) => match get_str(v, "i"@) {
                Some(d) => r matches Some(x) && x@ == d,
                None => r is None,
            },
            None => r is None,
        },
{
    match parse_json(line) {
        Some(v) => match v.get("i") {
            Some(d) => match d.as_str() {
                Some(s) => Some(owned(s)),
                None => None,
            },
            None => None,
        },
        None => None,
    }
}

/// The name a device advertises, `Unknown` where it advertises none.
pub fn advertised_name(local_name: Option<String>) -> (r: String)
    ensures
        r@ == match local_name {
            Some(n) => n@,
            None => "Unknown"@,
        },
{
    match local_name {
        Some(n) => n,
        None => owned("Unknown"),
    }
}

/// A Survon device advertises a name holding `Survon` or `Field Unit`.
pub fn is_survon_device_name(name: &str) -> (r: bool)
    ensures
        r == (contains(name@, "Survon"@) || contains(name@, "Field Unit"@)),
{
    contains_str(name, "Survon") || contains_str(name, "Field Unit")
}

/// What a scan does with a Survon device it has found, by what the device
/// store knows of it.
#[derive(Clone, Copy, Debug, PartialEq, Eq, Structural)]
pub enum ScanAction {
    /// A trusted device is registered.
    Register,
    /// A device seen for the first time, and not trusted, is announced so
    /// that the user decides whether to trust it.
    AskTrust,
    /// A device seen before and not trusted is left alone.
    Ignore,
}

pub open spec fn scan_action_for(is_new: bool, is_trusted: bool) -> ScanAction {
    if is_trusted {
        ScanAction::Register
    } else if is_new {
        ScanAction::AskTrust
    } else {
        ScanAction::Ignore
    }
}

pub fn scan_action(is_new: bool, is_trusted: bool) -> (r: ScanAction)
    ensures
        r == scan_action_for(is_new, is_trusted),
{
    if is_trusted {
        ScanAction::Register
    } else if is_new {
        ScanAction::AskTrust
    } else {
        ScanAction::Ignore
    }
}

/// The payload announcing a new device: its address, name and signal
/// strength, marked new and awaiting a trust decision.
pub open spec fn discovered_doc(address: Seq<char>, name: Seq<char>, rssi: i16) -> Json {
    Json::Obj(
        seq![
            ("mac_address"@, Json::Str(address)),
            ("name"@, Json::Str(name)),
            ("rssi"@, int_json(rssi as i64)),
            ("is_new"@, Json::Bool(true)),
            ("requires_trust_decision"@, Json::Bool(true)),
        ],
    )
}

/// The `device_discovered` message from `discovery_manager` that asks the
/// user to trust a new device.
pub fn device_discovered_event(address: &str, name: &str, rssi: i16) -> (r: BusMessage)
    ensures
        r.topic@ == "device_discovered"@,
        r.payload@ == json_text(discovered_doc(address@, name@, rssi)),
        r.source@ == "discovery_manager"@,
{
    let entries = vec![
        (owned("mac_address"), JsonValue::from_str(address)),
        (owned("name"), JsonValue::from_str(name)),
        (owned("rssi"), JsonValue::from_i64(rssi as i64)),
        (owned("is_new"), JsonValue::from_bool(true)),
        (owned("requires_trust_decision"), JsonValue::from_bool(true)),
    ];
    proof {
        crate::json::lemma_entries_model(entries@, 5);
        assert(crate::json::entries_model(entries@, 5) =~= match discovered_doc(
            address@,
            name@,
            rssi,
        ) {
            Json::Obj(e) => e,
            _ => Seq::empty(),
        });
    }
    let doc = JsonValue::Object(entries);
    BusMessage::new(owned("device_discovered"), json_to_string(&doc), owned("discovery_manager"))
}

/// The UI template for a device: a toggle switch for a device with
/// actuators; a status badge for several sensors; a gauge for one sensor
/// with a known maximum; a status badge otherwise.
pub open spec fn template_for(c: DeviceCapabilities) -> Seq<char> {
    if c.actuators@.len() > 0 {
        "toggle_switch"@
    } else if c.sensors@.len() > 1 {
        "status_badge_card"@
    } else if c.sensors@.len() == 1 && c.sensors@[0].max_value is Some {
        "gauge_card"@
    } else {
        "status_badge_card"@
    }
}

pub fn select_template(capabilities: &DeviceCapabilities) -> (r: String)
    ensures
        r@ == template_for(*capabilities),
{
    if capabilities.actuators.len() > 0 {
        return owned("toggle_switch");
    }
    if capabilities.sensors.len() > 1 {
        return owned("status_badge_card");
    }
    if capabilities.sensors.len() == 1 {
        if capabilities.sensors[0].max_value.is_some() {
            return owned("gauge_card");
        }
    }
    owned("status_badge_card")
}

/// The queued form of a command for a device: a control command with the
/// current UTC time, queued at `now`, dropped after five minutes.
pub fn command_for_device(
    device_id: &str,
    action: &str,
    payload: Option<JsonValue>,
    priority: CommandPriority,
    now: u64,
) -> (r: QueuedCommand)
    ensures
        r.device_id@ == device_id@,
        exists|t: u64| r.command@ == control_command(device_id@, action@, opt_json(payload), t),
        r.priority == priority,
        r.queued_at == now,
        r.max_age == Some(COMMAND_MAX_AGE_MS),
{
    let command = create_control_command(device_id, action, payload);
    QueuedCommand {
        device_id: owned(device_id),
        command,
        priority,
        queued_at: now,
        max_age: Some(COMMAND_MAX_AGE_MS),
    }
}

// ---------------------------------------------------------------------------
// Cutting a notification stream into messages
// ---------------------------------------------------------------------------

/// How long a partial message may wait for its next chunk: a chunk that
/// arrives four or more whole seconds after the last one starts afresh.
pub const CHUNK_GAP_MS: u64 = 4000;

/// The messages among lines: each line trimmed, keeping those that are not
/// empty and start with `{`.
pub open spec fn accepted(ls: Seq<Seq<char>>) -> Seq<Seq<char>>
    decreases ls.len(),
{
    if ls.len() == 0 {
        Seq::empty()
    } else {
        let rest = accepted(ls.drop_last());
        let t = trim(ls.last());
        if t.len() > 0 && t[0] == '{' {
            rest.push(t)
        } else {
            rest
        }
    }
}

/// Every message handed out is a trimmed line: it is not empty, starts with
/// `{`, does not end with white space, and trimming it changes nothing.
pub proof fn lemma_accepted_trimmed(ls: Seq<Seq<char>>)
    ensures
        forall|i: int|
            0 <= i < accepted(ls).len() ==> {
                let m = #[trigger] accepted(ls)[i];
                &&& m.len() > 0
                &&& m[0] == '{'
                &&& !crate::text::is_white(m.last())
                &&& trim(m) == m
            },
    decreases ls.len(),
{
    if ls.len() > 0 {
        lemma_accepted_trimmed(ls.drop_last());
        crate::text::lemma_trim_edges(ls.last());
        let rest = accepted(ls.drop_last());
        let t = trim(ls.last());
        if t.len() > 0 && t[0] == '{' {
            assert forall|i: int| 0 <= i < accepted(ls).len() implies {
                let m = #[trigger] accepted(ls)[i];
                &&& m.len() > 0
                &&& m[0] == '{'
                &&& !crate::text::is_white(m.last())
                &&& trim(m) == m
            } by {
                assert(accepted(ls) == rest.push(t));
                if i < rest.len() {
                    assert(accepted(ls)[i] == rest[i]);
                }
            }
        }
    }
}

/// Messages are kept line by line.
pub proof fn lemma_accepted_append(a: Seq<Seq<char>>, b: Seq<Seq<char>>)
    ensures
        accepted(a + b) == accepted(a) + accepted(b),
    decreases b.len(),
{
    if b.len() == 0 {
        assert(a + b =~= a);
        assert(accepted(a) + accepted(b) =~= accepted(a));
    } else {
        lemma_accepted_append(a, b.drop_last());
        assert((a + b).drop_last() =~= a + b.drop_last());
        assert((a + b).last() == b.last());
        let t = trim(b.last());
        if t.len() > 0 && t[0] == '{' {
            assert(accepted(a) + accepted(b) =~= (accepted(a) + accepted(b.drop_last())).push(t));
        } else {
            assert(accepted(a) + accepted(b) =~= accepted(a) + accepted(b.drop_last()));
        }
    }
}

/// Cutting a text is cutting its first part, then the rest of that part
/// followed by the second.
pub proof fn lemma_frames_append(x: Seq<char>, y: Seq<char>)
    ensures
        frames(x + y).0 == frames(x).0 + frames(frames(x).1 + y).0,
        frames(x + y).1 == frames(frames(x).1 + y).1,
    decreases y.len(),
{
    if y.len() == 0 {
        assert(x + y =~= x);
        assert(frames(x).1 + y =~= frames(x).1);
        lemma_frames_rest_clean(x);
        lemma_frames_rest(frames(x).1);
        assert(frames(x).0 + Seq::<Seq<char>>::empty() =~= frames(x).0);
    } else {
        let y0 = y.drop_last();
        lemma_frames_append(x, y0);
        assert((x + y).drop_last() =~= x + y0);
        assert((frames(x).1 + y).drop_last() =~= frames(x).1 + y0);
        assert((x + y).last() == y.last());
        assert((frames(x).1 + y).last() == y.last());
        let z = frames(frames(x).1 + y0).0;
        if y.last() == '\n' {
            assert(frames(x).0 + z.push(frames(frames(x).1 + y0).1) =~= (frames(x).0 + z).push(
                frames(frames(x).1 + y0).1,
            ));
        }
    }
}

/// A text without line breaks is all rest.
pub proof fn lemma_frames_rest(r: Seq<char>)
    requires
        forall|i: int| 0 <= i < r.len() ==> r[i] != '\n',
    ensures
        frames(r).0 == Seq::<Seq<char>>::empty(),
        frames(r).1 == r,
    decreases r.len(),
{
    if r.len() > 0 {
        lemma_frames_rest(r.drop_last());
        assert(r.drop_last().push(r.last()) =~= r);
    }
}

/// The rest never holds a line break.
pub proof fn lemma_frames_rest_clean(b: Seq<char>)
    ensures
        forall|i: int| 0 <= i < frames(b).1.len() ==> frames(b).1[i] != '\n',
    decreases b.len(),
{
    if b.len() > 0 {
        lemma_frames_rest_clean(b.drop_last());
        let cur = frames(b.drop_last()).1;
        if b.last() != '\n' {
            assert forall|i: int| 0 <= i < cur.push(b.last()).len() implies cur.push(b.last())[i]
                != '\n' by {
                if i < cur.len() {
                    assert(cur.push(b.last())[i] == cur[i]);
                }
            }
        }
    }
}

/// The partial message of a device's notification stream.
pub struct NotificationBuffer {
    buffer: Vec<char>,
    last_chunk_at: u64,
}

impl NotificationBuffer {
    /// The text received since the last complete message.
    pub closed spec fn pending(&self) -> Seq<char> {
        self.buffer@
    }

    /// When the last chunk arrived.
    pub closed spec fn last_chunk_at(&self) -> u64 {
        self.last_chunk_at
    }

    /// The pending text never holds a line break.
    pub closed spec fn wf(&self) -> bool {
        forall|i: int| 0 <= i < self.buffer@.len() ==> self.buffer@[i] != '\n'
    }

    /// An empty buffer for a stream opened at `now`.
    pub fn new(now: u64) -> (r: Self)
        ensures
            r.wf(),
            r.pending() == Seq::<char>::empty(),
            r.last_chunk_at() == now,
    {
        NotificationBuffer { buffer: Vec::new(), last_chunk_at: now }
    }

    /// The text a chunk arriving at `now` continues: nothing, where the
    /// last chunk is four or more seconds old.
    pub open spec fn continued(&self, now: u64) -> Seq<char> {
        if crate::scheduler::elapsed(now, self.last_chunk_at()) >= CHUNK_GAP_MS {
            Seq::empty()
        } else {
            self.pending()
        }
    }

    /// Takes in a chunk of the stream and returns the complete messages it
    /// finishes, in order.
    pub fn push_chunk(&mut self, chunk: &str, now: u64) -> (r: Vec<String>)
        requires
            old(self).wf(),
        ensures
            final(self).wf(),
            ({
                let (ls, rest) = frames(old(self).continued(now) + chunk@);
                &&& r@.map_values(|s: String| s@) == accepted(ls)
                &&& final(self).pending() == rest
            }),
            final(self).last_chunk_at() == now,
    {
        let waited = if now >= self.last_chunk_at {
            now - self.last_chunk_at
        } else {
            0
        };
        let mut all: Vec<char> = if waited >= CHUNK_GAP_MS {
            Vec::new()
        } else {
            let mut v: Vec<char> = Vec::new();
            let mut j: usize = 0;
            while j < self.buffer.len()
                invariant
                    j <= self.buffer@.len(),
                    v@ == self.buffer@.take(j as int),
                decreases self.buffer.len() - j,
            {
                v.push(self.buffer[j]);
                j = j + 1;
                assert(v@ =~= self.buffer@.take(j as int));
            }
            assert(self.buffer@.take(j as int) =~= self.buffer@);
            v
        };
        let ghost base = all@;
        assert(base == self.continued(now));
        let c = chars_of(chunk);
        let mut k: usize = 0;
        while k < c.len()
            invariant
                k <= c@.len(),
                c@ == chunk@,
                all@ == base + c@.take(k as int),
            decreases c.len() - k,
        {
            all.push(c[k]);
            k = k + 1;
            assert(all@ =~= base + c@.take(k as int));
        }
        assert(c@.take(k as int) =~= c@);
        let mut out: Vec<String> = Vec::new();
        let mut cur: Vec<char> = Vec::new();
        let mut i: usize = 0;
        while i < all.len()
            invariant
                i <= all@.len(),
                frames(all@.take(i as int)).1 == cur@,
                out@.map_values(|s: String| s@) == accepted(frames(all@.take(i as int)).0),
            decreases all.len() - i,
        {
            let ghost prev = all@.take(i as int);
            assert(all@.take(i + 1).drop_last() =~= prev);
            if all[i] == '\n' {
                let t = trim_vec(&cur);
                let ghost before = out@;
                proof {
                    let ls = frames(prev).0;
                    assert(frames(all@.take(i + 1)).0 == ls.push(cur@));
                    assert(ls.push(cur@).drop_last() =~= ls);
                    assert(ls.push(cur@).last() == cur@);
                }
                if t.len() > 0 && t[0] == '{' {
                    out.push(string_of(&t));
                    assert(out@.map_values(|s: String| s@) =~= before.map_values(|s: String| s@).push(
                        t@,
                    ));
                }
                cur = Vec::new();
            } else {
                cur.push(all[i]);
            }
            i = i + 1;
        }
        assert(all@.take(i as int) =~= all@);
        proof {
            lemma_frames_rest_clean(all@);
        }
        self.buffer = cur;
        self.last_chunk_at = now;
        out
    }

    /// Drops the partial message, as when the stream stays silent too long.
    pub fn clear(&mut self)
        ensures
            final(self).wf(),
            final(self).pending() == Seq::<char>::empty(),
            final(self).last_chunk_at() == old(self).last_chunk_at(),
    {
        self.buffer = Vec::new();
    }

    /// The number of characters waiting for the end of their message.
    pub fn pending_len(&self) -> (r: usize)
        ensures
            r == self.pending().len(),
    {
        self.buffer.len()
    }
}

/// How a stream is cut does not depend on where its chunks break: taking in
/// `x` and then `y` (with no long pause between them) yields the messages
/// that taking in `x + y` at once yields, and leaves the same rest.
pub proof fn lemma_chunking_invisible(p: Seq<char>, x: Seq<char>, y: Seq<char>)
    ensures
        ({
            let (l1, r1) = frames(p + x);
            let (l2, r2) = frames(r1 + y);
            let (l, r) = frames(p + (x + y));
            &&& accepted(l1) + accepted(l2) == accepted(l)
            &&& r2 == r
        }),
{
    assert(p + (x + y) =~= (p + x) + y);
    lemma_frames_append(p + x, y);
    lemma_accepted_append(frames(p + x).0, frames(frames(p + x).1 + y).0);
}

// ---------------------------------------------------------------------------
// One JSON object out of a buffer
// ---------------------------------------------------------------------------

/// The index of the first `{`, if any.
pub open spec fn first_brace(b: Seq<char>) -> Option<int>
    decreases b.len(),
{
    if b.len() == 0 {
        None
    } else if b[0] == '{' {
        Some(0)
    } else {
        match first_brace(b.drop_first()) {
            Some(i) => Some(i + 1),
            None => None,
        }
    }
}

/// Scanning `s` with brace depth `depth`: the index of the `}` that brings
/// the depth back to zero, if any.
pub open spec fn closing_index(s: Seq<char>, depth: int) -> Option<int>
    decreases s.len(),
{
    if s.len() == 0 {
        None
    } else {
        let d = if s[0] == '{' {
            depth + 1
        } else if s[0] == '}' {
            depth - 1
        } else {
            depth
        };
        if s[0] == '}' && d == 0 {
            Some(0)
        } else {
            match closing_index(s.drop_first(), d) {
                Some(j) => Some(j + 1),
                None => None,
            }
        }
    }
}

/// The first balanced object of a buffer and the text after it.
pub open spec fn one_json_message(b: Seq<char>) -> Result<(Seq<char>, Seq<char>), Seq<char>> {
    match first_brace(b) {
        None => Err("No JSON start found"@),
        Some(start) => match closing_index(b.subrange(start, b.len() as int), 0) {
            None => Err("No matching closing brace"@),
            Some(i) => {
                let end = start + i + 1;
                Ok((b.subrange(start, end), b.subrange(end, b.len() as int)))
            },
        },
    }
}

proof fn lemma_first_brace(b: Seq<char>, i: int)
    requires
        0 <= i <= b.len(),
        forall|j: int| 0 <= j < i ==> b[j] != '{',
    ensures
        i < b.len() && b[i] == '{' ==> first_brace(b) == Some(i),
        i == b.len() ==> first_brace(b) is None,
    decreases i,
{
    if i > 0 {
        let r = b.drop_first();
        assert forall|j: int| 0 <= j < i - 1 implies r[j] != '{' by {
            assert(r[j] == b[j + 1]);
        }
        lemma_first_brace(r, i - 1);
    }
}

proof fn lemma_closing_step(s: Seq<char>, depth: int)
    requires
        s.len() > 0,
    ensures
        ({
            let d = if s[0] == '{' {
                depth + 1
            } else if s[0] == '}' {
                depth - 1
            } else {
                depth
            };
            closing_index(s, depth) == if s[0] == '}' && d == 0 {
                Some(0int)
            } else {
                match closing_index(s.drop_first(), d) {
                    Some(j) => Some(j + 1),
                    None => None,
                }
            }
        }),
{
}

/// What a character adds to the brace depth.
pub open spec fn brace_weight(c: char) -> int {
    if c == '{' {
        1
    } else if c == '}' {
        -1
    } else {
        0
    }
}

/// The brace depth a text leaves: its `{` less its `}`.
pub open spec fn balance(s: Seq<char>) -> int
    decreases s.len(),
{
    if s.len() == 0 {
        0
    } else {
        brace_weight(s[0]) + balance(s.drop_first())
    }
}

/// A text holds no `{`.
pub open spec fn no_brace(p: Seq<char>) -> bool {
    forall|i: int| 0 <= i < p.len() ==> p[i] != '{'
}

/// A balanced object: it opens with `{`, closes its braces at its last
/// character, and not before.
pub open spec fn balanced_object(j: Seq<char>) -> bool {
    &&& j.len() > 0
    &&& j[0] == '{'
    &&& balance(j) == 0
    &&& forall|m: int| 1 <= m < j.len() ==> #[trigger] balance(j.take(m)) > 0
}

proof fn lemma_closing_depth(s: Seq<char>, d: int)
    requires
        d >= 1,
    ensures
        closing_index(s, d) matches Some(i) ==> {
            &&& 0 <= i < s.len()
            &&& d + balance(s.take(i + 1)) == 0
            &&& forall|m: int| 0 <= m <= i ==> d + #[trigger] balance(s.take(m)) > 0
        },
        closing_index(s, d) is None ==> forall|m: int|
            0 <= m <= s.len() ==> d + #[trigger] balance(s.take(m)) > 0,
    decreases s.len(),
{
    assert(balance(s.take(0)) == 0) by {
        assert(s.take(0).len() == 0);
    }
    if s.len() > 0 {
        let t = s.drop_first();
        let nd = d + brace_weight(s[0]);
        assert forall|m: int| 0 <= m < s.len() implies #[trigger] balance(s.take(m + 1)) == brace_weight(
            s[0],
        ) + balance(t.take(m)) by {
            assert(s.take(m + 1).drop_first() =~= t.take(m));
        }
        if s[0] == '}' && nd == 0 {
        } else {
            lemma_closing_depth(t, nd);
            assert forall|m: int| 1 <= m <= s.len() implies d + #[trigger] balance(s.take(m))
                == nd + balance(t.take(m - 1)) by {
                assert(balance(s.take((m - 1) + 1)) == brace_weight(s[0]) + balance(t.take(m - 1)));
            }
            match closing_index(t, nd) {
                Some(j) => {
                    assert(closing_index(s, d) == Some(j + 1));
                    assert forall|m: int| 0 <= m <= j + 1 implies d + #[trigger] balance(s.take(m))
                        > 0 by {
                        if m >= 1 {
                            assert(d + balance(s.take(m)) == nd + balance(t.take(m - 1)));
                        }
                    }
                    assert(d + balance(s.take(j + 2)) == nd + balance(t.take(j + 1)));
                },
                None => {
                    assert forall|m: int| 0 <= m <= s.len() implies d + #[trigger] balance(
                        s.take(m),
                    ) > 0 by {
                        if m >= 1 {
                            assert(d + balance(s.take(m)) == nd + balance(t.take(m - 1)));
                        }
                    }
                },
            }
        }
    }
}

proof fn lemma_first_brace_found(b: Seq<char>)
    ensures
        first_brace(b) matches Some(f) ==> 0 <= f < b.len() && b[f] == '{' && forall|i: int|
            0 <= i < f ==> b[i] != '{',
        first_brace(b) is None ==> no_brace(b),
    decreases b.len(),
{
    if b.len() > 0 && b[0] != '{' {
        let t = b.drop_first();
        lemma_first_brace_found(t);
        assert forall|i: int| 1 <= i < b.len() implies b[i] == t[i - 1] by {}
    }
}

/// The object taken out of a buffer is its first balanced object: the
/// buffer is a text without `{`, then a balanced object, then the rest;
/// and where the buffer splits so, that split is the one taken. There is
/// no start where the buffer has no `{`, and no closing brace where every
/// text from the first `{` on leaves braces open.
pub proof fn lemma_one_json_message_first_object(
    b: Seq<char>,
    p: Seq<char>,
    j: Seq<char>,
    r: Seq<char>,
)
    ensures
        one_json_message(b) matches Ok((m, rest)) ==> {
            let k = b.len() - m.len() - rest.len();
            &&& 0 <= k
            &&& b == b.take(k) + m + rest
            &&& no_brace(b.take(k))
            &&& balanced_object(m)
        },
        one_json_message(b) == Err::<(Seq<char>, Seq<char>), Seq<char>>("No JSON start found"@)
            <==> no_brace(b),
        first_brace(b) is Some && one_json_message(b) is Err ==> forall|m: int|
            first_brace(b).unwrap() < m <= b.len() ==> #[trigger] balance(
                b.subrange(first_brace(b).unwrap(), m),
            ) > 0,
        b == p + j + r && no_brace(p) && balanced_object(j) ==> one_json_message(b) == Ok::<
            (Seq<char>, Seq<char>),
            Seq<char>,
        >((j, r)),
{
    reveal_strlit("No JSON start found");
    reveal_strlit("No matching closing brace");
    assert("No JSON start found"@.len() != "No matching closing brace"@.len());
    lemma_first_brace_found(b);
    let f: int = match first_brace(b) {
        Some(i) => i,
        None => b.len() as int,
    };
    if f < b.len() {
        let s = b.subrange(f, b.len() as int);
        let t = s.drop_first();
        assert(s[0] == '{');
        lemma_closing_step(s, 0);
        lemma_closing_depth(t, 1);
        assert forall|m: int| 0 <= m < t.len() + 1 implies #[trigger] balance(s.take(m + 1)) == 1
            + balance(t.take(m)) by {
            assert(s.take(m + 1).drop_first() =~= t.take(m));
        }
        assert forall|m: int| f < m <= b.len() implies #[trigger] balance(b.subrange(f, m)) == 1
            + balance(t.take(m - f - 1)) by {
            assert(b.subrange(f, m) =~= s.take(m - f));
            assert(balance(s.take((m - f - 1) + 1)) == 1 + balance(t.take(m - f - 1)));
        }
        match closing_index(t, 1) {
            Some(i) => {
                let end = f + i + 2;
                let m = b.subrange(f, end);
                assert(b =~= b.take(f) + m + b.subrange(end, b.len() as int));
                assert(balance(m) == 0) by {
                    assert(balance(b.subrange(f, end)) == 1 + balance(t.take(i + 1)));
                }
                assert forall|q: int| 1 <= q < m.len() implies #[trigger] balance(m.take(q)) > 0 by {
                    assert(m.take(q) =~= b.subrange(f, f + q));
                    assert(balance(b.subrange(f, f + q)) == 1 + balance(t.take(q - 1)));
                }
                if b == p + j + r && no_brace(p) && balanced_object(j) {
                    assert(p.len() == f) by {
                        if p.len() < f {
                            assert(b[p.len() as int] == j[0]);
                        } else if p.len() > f {
                            assert(b[f] == p[f]);
                        }
                    }
                    if j.len() < m.len() {
                        assert(j =~= m.take(j.len() as int));
                    } else if j.len() > m.len() {
                        assert(m =~= j.take(m.len() as int));
                    }
                    assert(j =~= m);
                    assert(r =~= b.subrange(end, b.len() as int));
                }
            },
            None => {
                if b == p + j + r && no_brace(p) && balanced_object(j) {
                    assert(p.len() == f) by {
                        if p.len() < f {
                            assert(b[p.len() as int] == j[0]);
                        } else if p.len() > f {
                            assert(b[f] == p[f]);
                        }
                    }
                    assert(b.subrange(f, f + j.len()) =~= j);
                    assert(balance(b.subrange(f, f + j.len())) > 0);
                }
            },
        }
    } else {
        assert(b.take(0) =~= Seq::<char>::empty());
        if b == p + j + r && no_brace(p) && balanced_object(j) {
            assert(b[p.len() as int] == j[0]);
        }
    }
}

/// The number of characters whose UTF-8 form takes up the first `e` bytes.
pub open spec fn chars_up_to_byte(b: Seq<char>, e: nat) -> int {
    choose|q: int| 0 <= q <= b.len() && #[trigger] utf8_len(b.take(q)) == e
}

/// The byte offset where an object is cut off: the byte offset of the first
/// `{`, plus the number of characters from it up to and including the `}`
/// that closes it. For an object of one-byte characters that is the end of
/// the object; each longer character moves it that much short of the end.
pub open spec fn cut_byte(b: Seq<char>) -> Option<nat> {
    match first_brace(b) {
        None => None,
        Some(p) => match closing_index(b.subrange(p, b.len() as int), 0) {
            None => None,
            Some(i) => Some((utf8_len(b.take(p)) + i + 1) as nat),
        },
    }
}

/// The cut falls at a character boundary (where it does not, the slice
/// that takes the object out panics).
pub open spec fn cut_at_boundary(b: Seq<char>) -> bool {
    match cut_byte(b) {
        Some(e) => is_char_boundary(b, e),
        None => true,
    }
}

/// What is taken out of a buffer: from the first `{` to the cut, and the
/// text after the cut; or why there is nothing to take.
pub open spec fn extracted_message(b: Seq<char>) -> Result<(Seq<char>, Seq<char>), Seq<char>> {
    match first_brace(b) {
        None => Err("No JSON start found"@),
        Some(p) => match cut_byte(b) {
            None => Err("No matching closing brace"@),
            Some(e) => {
                let q = chars_up_to_byte(b, e);
                Ok((b.subrange(p, q), b.subrange(q, b.len() as int)))
            },
        },
    }
}

proof fn lemma_ascii_utf8_len(s: Seq<char>, k: int)
    requires
        ascii_text(s),
        0 <= k <= s.len(),
    ensures
        utf8_len(s.take(k)) == k,
    decreases k,
{
    if k > 0 {
        lemma_ascii_utf8_len(s, k - 1);
        assert(s.take(k).drop_last() =~= s.take(k - 1));
        assert(is_ascii_char(s[k - 1]));
    }
}

proof fn lemma_chars_up_to_byte(b: Seq<char>, q: int)
    requires
        0 <= q <= b.len(),
    ensures
        chars_up_to_byte(b, utf8_len(b.take(q))) == q,
{
    let e = utf8_len(b.take(q));
    let c = chars_up_to_byte(b, e);
    assert(utf8_len(b.take(q)) == e);
    if c < q {
        lemma_utf8_len_prefix(b, c, q);
    } else if c > q {
        lemma_utf8_len_prefix(b, q, c);
    }
}

/// On an ASCII buffer the cut is the end of the first balanced object: what
/// is taken out is that object and the rest.
pub proof fn lemma_extracted_ascii(b: Seq<char>)
    requires
        ascii_text(b),
    ensures
        cut_at_boundary(b),
        extracted_message(b) == one_json_message(b),
{
    lemma_first_brace_found(b);
    if let Some(p) = first_brace(b) {
        if let Some(i) = closing_index(b.subrange(p, b.len() as int), 0) {
            lemma_closing_depth_bound(b.subrange(p, b.len() as int), 0);
            lemma_ascii_utf8_len(b, p);
            lemma_ascii_utf8_len(b, p + i + 1);
            lemma_chars_up_to_byte(b, p + i + 1);
        }
    }
}

proof fn lemma_closing_depth_bound(s: Seq<char>, d: int)
    ensures
        closing_index(s, d) matches Some(i) ==> 0 <= i < s.len(),
    decreases s.len(),
{
    if s.len() > 0 {
        let nd = if s[0] == '{' {
            d + 1
        } else if s[0] == '}' {
            d - 1
        } else {
            d
        };
        lemma_closing_depth_bound(s.drop_first(), nd);
    }
}

/// Takes the first JSON object (by braces) out of a buffer: the object and
/// the text after it, or why there is none. The end is reckoned as the byte
/// offset of the first `{` plus the number of characters up to the closing
/// `}`, so an object holding characters of more than one byte is cut short
/// by that many bytes ([`extracted_message`]); on an ASCII buffer the first
/// balanced object is taken ([`lemma_extracted_ascii`]).
pub fn extract_one_json_message(buffer: &str) -> (r: Result<(String, String), String>)
    requires
        utf8_len(buffer@) <= usize::MAX,
        cut_at_boundary(buffer@),
    ensures
        match extracted_message(buffer@) {
            Ok((m, rest)) => r matches Ok((a, b)) && a@ == m && b@ == rest,
            Err(e) => r matches Err(x) && x@ == e,
        },
{
    let v = chars_of(buffer);
    let mut start: usize = 0;
    let mut start_byte: usize = 0;
    while start < v.len() && v[start] != '{'
        invariant
            start <= v@.len(),
            v@ == buffer@,
            utf8_len(v@) <= usize::MAX,
            start_byte == utf8_len(v@.take(start as int)),
            forall|j: int| 0 <= j < start ==> v@[j] != '{',
        decreases v.len() - start,
    {
        proof {
            lemma_utf8_len_prefix(v@, start + 1, v@.len() as int);
            assert(v@.take(start + 1).drop_last() =~= v@.take(start as int));
            assert(v@.take(v@.len() as int) =~= v@);
        }
        start_byte = start_byte + char_len_utf8(v[start]);
        start = start + 1;
    }
    proof {
        lemma_first_brace(v@, start as int);
    }
    if start == v.len() {
        return Err(owned("No JSON start found"));
    }
    let ghost s0 = v@.subrange(start as int, v@.len() as int);
    let mut depth: usize = 0;
    let mut k: usize = start;
    while k < v.len()
        invariant
            start <= k <= v@.len(),
            start < v@.len(),
            v@[start as int] == '{',
            v@ == buffer@,
            utf8_len(v@) <= usize::MAX,
            start_byte == utf8_len(v@.take(start as int)),
            cut_at_boundary(buffer@),
            s0 == v@.subrange(start as int, v@.len() as int),
            first_brace(v@) == Some(start as int),
            k == start ==> depth == 0,
            k > start ==> 1 <= depth <= k - start,
            closing_index(s0, 0) == match closing_index(v@.subrange(k as int, v@.len() as int), depth as int) {
                Some(j) => Some(j + (k - start)),
                None => None,
            },
        decreases v.len() - k,
    {
        let ghost rest = v@.subrange(k as int, v@.len() as int);
        proof {
            lemma_closing_step(rest, depth as int);
            assert(rest[0] == v@[k as int]);
            assert(rest.drop_first() =~= v@.subrange(k + 1, v@.len() as int));
        }
        let c = v[k];
        if c == '{' {
            depth = depth + 1;
        } else if c == '}' {
            depth = depth - 1;
            if depth == 0 {
                assert(closing_index(rest, depth + 1) == Some(0int));
                assert(closing_index(s0, 0) == Some(k - start));
                assert(first_brace(buffer@) == Some(start as int));
                proof {
                    lemma_utf8_len_prefix(v@, start as int, k + 1);
                    lemma_utf8_len_prefix(v@, k + 1, v@.len() as int);
                    assert(v@.take(v@.len() as int) =~= v@);
                }
                let end_byte = start_byte + (k - start) + 1;
                assert(cut_byte(buffer@) == Some(end_byte as nat));
                let q = crate::text::chars_before_byte(&v, end_byte);
                proof {
                    lemma_chars_up_to_byte(v@, q as int);
                    if q <= start {
                        lemma_utf8_len_prefix(v@, q as int, start as int);
                    }
                }
                let m = slice_vec_to_string(&v, start, q);
                let after = slice_vec_to_string(&v, q, v.len());
                return Ok((m, after));
            }
        }
        k = k + 1;
    }
    proof {
        assert(v@.subrange(k as int, v@.len() as int).len() == 0);
    }
    Err(owned("No matching closing brace"))
}

fn slice_vec_to_string(v: &Vec<char>, start: usize, end: usize) -> (r: String)
    requires
        start <= end <= v.len(),
    ensures
        r@ == v@.subrange(start as int, end as int),
{
    crate::text::substring(v, start, end)
}

} // verus!
