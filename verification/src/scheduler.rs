//! The BLE command scheduler: commands for field devices wait in per-device
//! queues, ordered by priority, until the device advertises that its
//! command window is open.
//!
//! Times are milliseconds on a monotonic clock that the caller reads; spans
//! given in the telemetry are whole seconds. The scheduler decides; the
//! caller sends, sleeps and publishes the events it is handed.
use vstd::prelude::*;
use vstd::hash_map::StringHashMap;
use crate::bus::BusMessage;
use crate::json::{
    get_str, get_u64, json_get, json_insert, json_text, json_to_string, Json, JsonNum, JsonValue,
};
use crate::text::{owned, str_eq};

verus! {

/// How long before a command window opens it counts as imminent.
pub const IMMINENT_MS: u64 = 5000;

/// How long a schedule may go without an update before it is stale.
pub const STALE_MS: u64 = 300000;

/// How urgent a command is.
#[derive(Clone, Copy, Debug, PartialEq, Eq, Structural)]
pub enum CommandPriority {
    Low,
    Normal,
    High,
    /// Sent at once, without waiting for a command window.
    Critical,
}

pub open spec fn rank(p: CommandPriority) -> int {
    match p {
        CommandPriority::Low => 0,
        CommandPriority::Normal => 1,
        CommandPriority::High => 2,
        CommandPriority::Critical => 3,
    }
}

/// The name of a priority as events report it.
pub open spec fn priority_name(p: CommandPriority) -> Seq<char> {
    match p {
        CommandPriority::Low => "Low"@,
        CommandPriority::Normal => "Normal"@,
        CommandPriority::High => "High"@,
        CommandPriority::Critical => "Critical"@,
    }
}

impl CommandPriority {
    /// The level of the priority: 0 for low up to 3 for critical.
    pub fn level(&self) -> (r: u8)
        ensures
            r == rank(*self),
    {
        match self {
            CommandPriority::Low => 0,
            CommandPriority::Normal => 1,
            CommandPriority::High => 2,
            CommandPriority::Critical => 3,
        }
    }

    pub fn name(&self) -> (r: String)
        ensures
            r@ == priority_name(*self),
    {
        match self {
            CommandPriority::Low => owned("Low"),
            CommandPriority::Normal => owned("Normal"),
            CommandPriority::High => owned("High"),
            CommandPriority::Critical => owned("Critical"),
        }
    }
}

/// Whether a device is sending data or listening for commands.
#[derive(Clone, Copy, Debug, PartialEq, Eq, Structural)]
pub enum DeviceMode {
    Data,
    Cmd,
}

/// A command waiting for its device.
pub struct QueuedCommand {
    pub device_id: String,
    pub command: JsonValue,
    pub priority: CommandPriority,
    /// When it was queued.
    pub queued_at: u64,
    /// How long it may wait before it is dropped, if it expires at all.
    pub max_age: Option<u64>,
}

pub struct CommandView {
    pub device_id: Seq<char>,
    pub command: Json,
    pub priority: CommandPriority,
    pub queued_at: u64,
    pub max_age: Option<u64>,
}

impl View for QueuedCommand {
    type V = CommandView;

    open spec fn view(&self) -> CommandView {
        CommandView {
            device_id: self.device_id@,
            command: self.command@,
            priority: self.priority,
            queued_at: self.queued_at,
            max_age: self.max_age,
        }
    }
}

impl Clone for QueuedCommand {
    fn clone(&self) -> (r: Self)
        ensures
            r@ == self@,
    {
        QueuedCommand {
            device_id: self.device_id.clone(),
            command: self.command.copy(),
            priority: self.priority,
            queued_at: self.queued_at,
            max_age: self.max_age,
        }
    }
}

/// When a device's next command window opens, as its telemetry reports it.
pub struct DeviceSchedule {
    pub device_id: String,
    pub current_mode: DeviceMode,
    /// When the next command window opens, if known.
    pub cmd_window_opens_at: Option<u64>,
    /// How long the window stays open, in seconds.
    pub cmd_window_duration: u64,
    pub last_updated: u64,
}

pub struct ScheduleView {
    pub device_id: Seq<char>,
    pub current_mode: DeviceMode,
    pub cmd_window_opens_at: Option<u64>,
    pub cmd_window_duration: u64,
    pub last_updated: u64,
}

impl View for DeviceSchedule {
    type V = ScheduleView;

    open spec fn view(&self) -> ScheduleView {
        ScheduleView {
            device_id: self.device_id@,
            current_mode: self.current_mode,
            cmd_window_opens_at: self.cmd_window_opens_at,
            cmd_window_duration: self.cmd_window_duration,
            last_updated: self.last_updated,
        }
    }
}

/// `later - earlier`, or zero where `later` is not later.
pub open spec fn elapsed(later: u64, earlier: u64) -> u64 {
    if later >= earlier {
        (later - earlier) as u64
    } else {
        0
    }
}

/// The window opens less than five seconds from now.
pub open spec fn window_imminent(s: ScheduleView, now: u64) -> bool {
    match s.cmd_window_opens_at {
        Some(t) => t > now && t - now < IMMINENT_MS,
        None => false,
    }
}

/// How long until the window opens; none while in the window, or where the
/// opening is unknown or past.
pub open spec fn time_until_window(s: ScheduleView, now: u64) -> Option<u64> {
    if s.current_mode == DeviceMode::Cmd {
        None
    } else {
        match s.cmd_window_opens_at {
            Some(t) => if t > now {
                Some((t - now) as u64)
            } else {
                None
            },
            None => None,
        }
    }
}

/// A device in its command window has no wait for it, whatever opening
/// time is recorded; a device sending data waits until the recorded opening
/// while that lies ahead, and has no known wait otherwise.
pub proof fn lemma_time_until_window(s: ScheduleView, now: u64)
    ensures
        s.current_mode == DeviceMode::Cmd ==> time_until_window(s, now) is None,
        s.current_mode == DeviceMode::Data ==> match s.cmd_window_opens_at {
            Some(t) => if t > now {
                time_until_window(s, now) == Some((t - now) as u64)
            } else {
                time_until_window(s, now) is None
            },
            None => time_until_window(s, now) is None,
        },
{
}

impl DeviceSchedule {
    /// The device is listening for commands.
    pub fn is_in_cmd_window(&self) -> (r: bool)
        ensures
            r == (self.current_mode == DeviceMode::Cmd),
    {
        match self.current_mode {
            DeviceMode::Cmd => true,
            DeviceMode::Data => false,
        }
    }

    /// The command window opens within the next five seconds.
    pub fn is_cmd_window_imminent(&self, now: u64) -> (r: bool)
        ensures
            r == window_imminent(self@, now),
    {
        match self.cmd_window_opens_at {
            Some(t) => t > now && t - now < IMMINENT_MS,
            None => false,
        }
    }

    /// Time until the command window opens.
    pub fn time_until_cmd_window(&self, now: u64) -> (r: Option<u64>)
        ensures
            r == time_until_window(self@, now),
    {
        if self.is_in_cmd_window() {
            return None;
        }
        match self.cmd_window_opens_at {
            Some(t) => if t > now {
                Some(t - now)
            } else {
                None
            },
            None => None,
        }
    }

    pub fn clone(&self) -> (r: Self)
        ensures
            r@ == self@,
    {
        DeviceSchedule {
            device_id: self.device_id.clone(),
            current_mode: self.current_mode,
            cmd_window_opens_at: self.cmd_window_opens_at,
            cmd_window_duration: self.cmd_window_duration,
            last_updated: self.last_updated,
        }
    }
}

// ---------------------------------------------------------------------------
// Events
// ---------------------------------------------------------------------------

/// An event for the bus: its type, the device, and details that are merged
/// into the payload object.
pub struct SchedulerEvent {
    pub event_type: String,
    pub device_id: String,
    pub details: JsonValue,
}

/// Sets each member of `details` in `acc`, in order.
pub open spec fn merge_entries(
    acc: Seq<(Seq<char>, Json)>,
    details: Seq<(Seq<char>, Json)>,
) -> Seq<(Seq<char>, Json)>
    decreases details.len(),
{
    if details.len() == 0 {
        acc
    } else {
        merge_entries(json_insert(acc, details[0].0, details[0].1), details.drop_first())
    }
}

/// The payload of an event: `{"event": type, "device_id": id}` with the
/// members of the details set in it (details that are not an object add
/// nothing).
pub open spec fn event_payload(event_type: Seq<char>, device_id: Seq<char>, details: Json) -> Json {
    let base = seq![("event"@, Json::Str(event_type)), ("device_id"@, Json::Str(device_id))];
    match details {
        Json::Obj(d) => Json::Obj(merge_entries(base, d)),
        _ => Json::Obj(base),
    }
}

pub open spec fn obj1(k: Seq<char>, v: Json) -> Json {
    Json::Obj(seq![(k, v)])
}

pub open spec fn num(n: u64) -> Json {
    Json::Num(JsonNum::PosInt(n))
}

/// The `payload.action` of a command, or `unknown`.
pub open spec fn command_action(command: Json) -> Seq<char> {
    match json_get(command, "payload"@) {
        Some(p) => match get_str(p, "action"@) {
            Some(a) => a,
            None => "unknown"@,
        },
        None => "unknown"@,
    }
}

fn action_of(command: &JsonValue) -> (r: String)
    ensures
        r@ == command_action(command@),
{
    match command.get("payload") {
        Some(p) => match p.get("action") {
            Some(a) => match a.as_str() {
                Some(s) => owned(s),
                None => owned("unknown"),
            },
            None => owned("unknown"),
        },
        None => owned("unknown"),
    }
}

/// An object with one member.
fn object1(key: &str, val: JsonValue) -> (r: JsonValue)
    ensures
        r@ == obj1(key@, val@),
{
    let mut o = JsonValue::new_object();
    let ghost vm = val@;
    o.insert(key, val);
    assert(json_insert(Seq::empty(), key@, vm) =~= seq![(key@, vm)]);
    o
}

impl SchedulerEvent {
    pub fn new(event_type: &str, device_id: &str, details: JsonValue) -> (r: SchedulerEvent)
        ensures
            r.event_type@ == event_type@,
            r.device_id@ == device_id@,
            r.details@ == details@,
    {
        SchedulerEvent { event_type: owned(event_type), device_id: owned(device_id), details }
    }

    /// The payload object of the event.
    pub fn payload(&self) -> (r: JsonValue)
        ensures
            r@ == event_payload(self.event_type@, self.device_id@, self.details@),
    {
        let mut o = JsonValue::new_object();
        o.insert("event", JsonValue::from_str(self.event_type.as_str()));
        o.insert("device_id", JsonValue::from_str(self.device_id.as_str()));
        proof {
            reveal_strlit("event");
            reveal_strlit("device_id");
            crate::json::lemma_insert_new_key(Seq::empty(), "event"@, Json::Str(self.event_type@));
            assert(Seq::<(Seq<char>, Json)>::empty().push(("event"@, Json::Str(self.event_type@))) =~= seq![
                ("event"@, Json::Str(self.event_type@)),
            ]);
            let one = seq![("event"@, Json::Str(self.event_type@))];
            assert(one[0].0 != "device_id"@) by {
                assert(one[0].0.len() != "device_id"@.len());
            }
            crate::json::lemma_insert_new_key(one, "device_id"@, Json::Str(self.device_id@));
            assert(json_insert(
                seq![("event"@, Json::Str(self.event_type@))],
                "device_id"@,
                Json::Str(self.device_id@),
            ) =~= seq![
                ("event"@, Json::Str(self.event_type@)),
                ("device_id"@, Json::Str(self.device_id@)),
            ]);
        }
        let ghost base = o.obj_entries();
        match &self.details {
            JsonValue::Object(d) => {
                proof {
                    crate::json::lemma_entry_keys(d@);
                }
                let ghost dm = crate::json::entries_model(d@, d@.len());
                let mut i: usize = 0;
                while i < d.len()
                    invariant
                        i <= d.len(),
                        dm == crate::json::entries_model(d@, d@.len()),
                        dm.len() == d@.len(),
                        forall|j: int|
                            0 <= j < d@.len() ==> #[trigger] dm[j] == (
                                d@[j].0@,
                                d@[j].1@,
                            ),
                        o@ == Json::Obj(merge_entries(base, dm.take(i as int))),
                        o@ is Obj,
                    decreases d.len() - i,
                {
                    let ghost before = o.obj_entries();
                    o.insert(d[i].0.as_str(), d[i].1.copy());
                    proof {
                        lemma_merge_push(base, dm.take(i as int), dm[i as int]);
                        assert(dm.take(i + 1) =~= dm.take(i as int).push(dm[i as int]));
                    }
                    i = i + 1;
                }
                assert(dm.take(i as int) =~= dm);
            },
            _ => {},
        }
        o
    }

    /// The bus message that announces the event, on `scheduler_event`.
    pub fn to_bus_message(&self) -> (r: BusMessage)
        ensures
            r.topic@ == "scheduler_event"@,
            r.payload@ == json_text(event_payload(self.event_type@, self.device_id@, self.details@)),
            r.source@ == "ble_scheduler"@,
    {
        let p = self.payload();
        BusMessage::new(owned("scheduler_event"), json_to_string(&p), owned("ble_scheduler"))
    }
}

/// Merging one more member is inserting it after the others.
pub proof fn lemma_merge_push(
    acc: Seq<(Seq<char>, Json)>,
    details: Seq<(Seq<char>, Json)>,
    e: (Seq<char>, Json),
)
    ensures
        merge_entries(acc, details.push(e)) == json_insert(merge_entries(acc, details), e.0, e.1),
    decreases details.len(),
{
    if details.len() == 0 {
        reveal_with_fuel(merge_entries, 2);
        assert(details.push(e).drop_first() =~= Seq::<(Seq<char>, Json)>::empty());
    } else {
        assert(details.push(e).drop_first() =~= details.drop_first().push(e));
        lemma_merge_push(json_insert(acc, details[0].0, details[0].1), details.drop_first(), e);
    }
}

/// The event that a command was sent: `command_sent` with its action.
pub fn command_sent_event(device_id: &str, command: &JsonValue) -> (r: SchedulerEvent)
    ensures
        r.event_type@ == "command_sent"@,
        r.device_id@ == device_id@,
        r.details@ == obj1("action"@, Json::Str(command_action(command@))),
{
    let a = action_of(command);
    SchedulerEvent::new("command_sent", device_id, object1("action", JsonValue::String(a)))
}

/// The event that sending failed: `error` with the error text.
pub fn error_event(device_id: &str, error: &str) -> (r: SchedulerEvent)
    ensures
        r.event_type@ == "error"@,
        r.device_id@ == device_id@,
        r.details@ == obj1("error"@, Json::Str(error@)),
{
    SchedulerEvent::new("error", device_id, object1("error", JsonValue::from_str(error)))
}


/// An object with two members under different keys.
fn object2(k1: &str, v1: JsonValue, k2: &str, v2: JsonValue) -> (r: JsonValue)
    requires
        k1@ != k2@,
    ensures
        r@ == Json::Obj(seq![(k1@, v1@), (k2@, v2@)]),
{
    let ghost (m1, m2) = (v1@, v2@);
    let mut o = object1(k1, v1);
    o.insert(k2, v2);
    proof {
        crate::json::lemma_insert_new_key(seq![(k1@, m1)], k2@, m2);
        assert(seq![(k1@, m1)].push((k2@, m2)) =~= seq![(k1@, m1), (k2@, m2)]);
    }
    o
}

/// An object with three members under different keys.
fn object3(k1: &str, v1: JsonValue, k2: &str, v2: JsonValue, k3: &str, v3: JsonValue) -> (r:
    JsonValue)
    requires
        k1@ != k2@,
        k1@ != k3@,
        k2@ != k3@,
    ensures
        r@ == Json::Obj(seq![(k1@, v1@), (k2@, v2@), (k3@, v3@)]),
{
    let ghost (m1, m2, m3) = (v1@, v2@, v3@);
    let mut o = object2(k1, v1, k2, v2);
    o.insert(k3, v3);
    proof {
        let e = seq![(k1@, m1), (k2@, m2)];
        assert(e[0].0 != k3@ && e[1].0 != k3@);
        crate::json::lemma_insert_new_key(e, k3@, m3);
        assert(e.push((k3@, m3)) =~= seq![(k1@, m1), (k2@, m2), (k3@, m3)]);
    }
    o
}

// ---------------------------------------------------------------------------
// Queues
// ---------------------------------------------------------------------------

pub open spec fn view_queue(q: Seq<QueuedCommand>) -> Seq<CommandView> {
    q.map_values(|c: QueuedCommand| c@)
}

/// Highest priority first.
pub open spec fn by_priority(q: Seq<CommandView>) -> bool {
    forall|i: int, j: int| 0 <= i < j < q.len() ==> rank(q[i].priority) >= rank(q[j].priority)
}

/// Where a command of priority `p` goes in a queue: after the leading
/// commands of priority `p` or higher.
pub open spec fn insert_position(q: Seq<CommandView>, p: CommandPriority) -> int
    decreases q.len(),
{
    if q.len() == 0 {
        0
    } else if rank(q[0].priority) >= rank(p) {
        1 + insert_position(q.drop_first(), p)
    } else {
        0
    }
}

/// A queue with one more command, kept in order of priority; a command goes
/// behind those of its own priority that were queued before it (as the
/// stable sort by priority, highest first, places it).
pub open spec fn enqueue(q: Seq<CommandView>, c: CommandView) -> Seq<CommandView> {
    q.insert(insert_position(q, c.priority), c)
}

/// The command has waited longer than it may.
pub open spec fn expired(c: CommandView, now: u64) -> bool {
    match c.max_age {
        Some(a) => elapsed(now, c.queued_at) > a,
        None => false,
    }
}

pub open spec fn not_expired(now: u64) -> spec_fn(CommandView) -> bool {
    |c: CommandView| !expired(c, now)
}

/// `insert_position` is the length of the prefix of commands of priority
/// `p` or higher.
pub proof fn lemma_insert_position(q: Seq<CommandView>, p: CommandPriority, k: int)
    requires
        0 <= k <= q.len(),
        forall|i: int| 0 <= i < k ==> rank(#[trigger] q[i].priority) >= rank(p),
        k == q.len() || rank(q[k].priority) < rank(p),
    ensures
        insert_position(q, p) == k,
    decreases k,
{
    if k > 0 {
        let r = q.drop_first();
        assert forall|i: int| 0 <= i < k - 1 implies rank(#[trigger] r[i].priority) >= rank(p) by {
            assert(r[i] == q[i + 1]);
        }
        lemma_insert_position(r, p, k - 1);
    }
}

/// Queueing keeps a queue in order of priority.
pub proof fn lemma_enqueue_by_priority(q: Seq<CommandView>, c: CommandView, k: int)
    requires
        by_priority(q),
        0 <= k <= q.len(),
        forall|i: int| 0 <= i < k ==> rank(#[trigger] q[i].priority) >= rank(c.priority),
        k == q.len() || rank(q[k].priority) < rank(c.priority),
    ensures
        enqueue(q, c) == q.insert(k, c),
        by_priority(q.insert(k, c)),
{
    lemma_insert_position(q, c.priority, k);
    let r = q.insert(k, c);
    assert forall|i: int, j: int| 0 <= i < j < r.len() implies rank(r[i].priority) >= rank(
        r[j].priority,
    ) by {
        if j < k {
        } else if j == k {
            assert(rank(q[i].priority) >= rank(c.priority));
        } else if i == k {
            assert(r[j] == q[j - 1]);
            assert(rank(q[k].priority) >= rank(q[j - 1].priority));
        } else if i < k {
            assert(r[j] == q[j - 1]);
        } else {
            assert(r[j] == q[j - 1]);
            assert(r[i] == q[i - 1]);
        }
    }
}

/// Queues stay in order of priority, whatever is queued: the order law of
/// the scheduler.
pub proof fn lemma_enqueue_keeps_order(q: Seq<CommandView>, c: CommandView)
    requires
        by_priority(q),
    ensures
        by_priority(enqueue(q, c)),
        enqueue(q, c).len() == q.len() + 1,
        enqueue(q, c).to_multiset() == q.to_multiset().insert(c),
{
    let k = insert_position(q, c.priority);
    lemma_insert_position_bounds(q, c.priority);
    lemma_enqueue_by_priority(q, c, k);
    vstd::seq_lib::to_multiset_insert(q, k, c);
}

/// The prefix that `insert_position` measures.
pub proof fn lemma_insert_position_bounds(q: Seq<CommandView>, p: CommandPriority)
    ensures
        0 <= insert_position(q, p) <= q.len(),
        forall|i: int|
            0 <= i < insert_position(q, p) ==> rank(#[trigger] q[i].priority) >= rank(p),
        insert_position(q, p) == q.len() || rank(q[insert_position(q, p)].priority) < rank(p),
    decreases q.len(),
{
    if q.len() > 0 && rank(q[0].priority) >= rank(p) {
        let r = q.drop_first();
        lemma_insert_position_bounds(r, p);
        assert forall|i: int|
            0 <= i < insert_position(q, p) implies rank(#[trigger] q[i].priority) >= rank(p) by {
            if i > 0 {
                assert(q[i] == r[i - 1]);
            }
        }
        if insert_position(q, p) < q.len() {
            assert(q[insert_position(q, p)] == r[insert_position(r, p)]);
        }
    }
}

pub proof fn lemma_filter_push<A>(s: Seq<A>, pred: spec_fn(A) -> bool, e: A)
    ensures
        pred(e) ==> s.push(e).filter(pred) == s.filter(pred).push(e),
        !pred(e) ==> s.push(e).filter(pred) == s.filter(pred),
{
    reveal(Seq::filter);
    assert(s.push(e).drop_last() =~= s);
}

proof fn lemma_filter_by_priority(s: Seq<CommandView>, now: u64)
    requires
        by_priority(s),
    ensures
        by_priority(s.filter(not_expired(now))),
    decreases s.len(),
{
    if s.len() > 0 {
        let init = s.drop_last();
        let last = s.last();
        let pred = not_expired(now);
        assert(s == init.push(last));
        lemma_filter_by_priority(init, now);
        lemma_filter_push(init, pred, last);
        if pred(last) {
            let f = init.filter(pred);
            assert forall|i: int| 0 <= i < f.len() implies rank(#[trigger] f[i].priority) >= rank(
                last.priority,
            ) by {
                assert(f.contains(f[i]));
                init.lemma_filter_contains_rev(pred, f[i]);
                let j = choose|j: int| 0 <= j < init.len() && init[j] == f[i];
                assert(s[j] == init[j]);
            }
            let g = f.push(last);
            assert forall|i: int, j: int| 0 <= i < j < g.len() implies rank(g[i].priority) >= rank(
                g[j].priority,
            ) by {
                if j == f.len() {
                    assert(g[i] == f[i]);
                } else {
                    assert(g[i] == f[i] && g[j] == f[j]);
                }
            }
        }
    }
}

/// A command queued for a device, below critical priority, is in the next
/// batch handed out for that device exactly when it has not expired by then;
/// the batch keeps the order of priority.
pub proof fn lemma_queued_command_handed_out(q: Seq<CommandView>, c: CommandView, now: u64)
    requires
        by_priority(q),
    ensures
        enqueue(q, c).filter(not_expired(now)).contains(c) <==> !expired(c, now),
        by_priority(enqueue(q, c).filter(not_expired(now))),
{
    let e = enqueue(q, c);
    let pred = not_expired(now);
    lemma_enqueue_keeps_order(q, c);
    lemma_insert_position_bounds(q, c.priority);
    let k = insert_position(q, c.priority);
    assert(e[k] == c);
    if pred(c) {
        e.lemma_filter_contains(pred, k);
    }
    if e.filter(pred).contains(c) {
        let i = choose|i: int| 0 <= i < e.filter(pred).len() && e.filter(pred)[i] == c;
        e.lemma_filter_pred(pred, i);
    }
    lemma_filter_by_priority(e, now);
}

/// The commands handed out when a device's command window opens.
pub struct CommandBatch {
    pub device_id: String,
    /// How many commands were queued.
    pub original_count: usize,
    /// How many of them had expired and were dropped.
    pub expired_count: usize,
    /// The others, highest priority first.
    pub commands: Vec<QueuedCommand>,
}

impl CommandBatch {
    /// `batch_start` with the number of queued commands.
    pub fn start_event(&self) -> (r: SchedulerEvent)
        ensures
            r.event_type@ == "batch_start"@,
            r.device_id@ == self.device_id@,
            r.details@ == obj1("count"@, num(self.original_count as u64)),
    {
        SchedulerEvent::new(
            "batch_start",
            self.device_id.as_str(),
            object1("count", JsonValue::from_u64(self.original_count as u64)),
        )
    }

    /// `commands_expired` with the number dropped, where any were.
    pub fn expired_event(&self) -> (r: Option<SchedulerEvent>)
        ensures
            self.expired_count == 0 <==> r is None,
            r matches Some(e) ==> e.event_type@ == "commands_expired"@ && e.device_id@
                == self.device_id@ && e.details@ == obj1("count"@, num(self.expired_count as u64)),
    {
        if self.expired_count > 0 {
            Some(
                SchedulerEvent::new(
                    "commands_expired",
                    self.device_id.as_str(),
                    object1("count", JsonValue::from_u64(self.expired_count as u64)),
                ),
            )
        } else {
            None
        }
    }

    /// `batch_complete` with the number of commands sent or tried.
    pub fn complete_event(&self) -> (r: SchedulerEvent)
        requires
            self.expired_count <= self.original_count,
        ensures
            r.event_type@ == "batch_complete"@,
            r.device_id@ == self.device_id@,
            r.details@ == obj1(
                "count"@,
                num((self.original_count - self.expired_count) as u64),
            ),
    {
        SchedulerEvent::new(
            "batch_complete",
            self.device_id.as_str(),
            object1("count", JsonValue::from_u64((self.original_count - self.expired_count) as u64)),
        )
    }
}

/// What queueing a command asks of the caller.
pub enum QueueOutcome {
    /// Send this critical command at once, and publish the event.
    SendNow { command: QueuedCommand, event: SchedulerEvent },
    /// The command waits in its queue, now this long; publish the event.
    Queued { queue_size: usize, event: SchedulerEvent },
}

/// What a telemetry update asks of the caller.
pub enum ScheduleOutcome {
    /// The telemetry reports no mode: nothing changed.
    NoModeInfo,
    /// The device listens now: publish the event, then send the batch, if
    /// any.
    WindowOpen { event: SchedulerEvent, batch: Option<CommandBatch> },
    /// The window opens within five seconds: publish the event.
    WindowImminent { event: SchedulerEvent },
    /// The window opens later: publish the event.
    WindowScheduled { event: SchedulerEvent },
    /// No window is known.
    NoWindowKnown,
}

/// The state of a device's queue and schedule.
pub struct QueueStatus {
    pub device_id: String,
    pub queued_commands: usize,
    pub current_mode: DeviceMode,
    pub time_until_cmd_window: Option<u64>,
}

/// The mode that telemetry metadata reports, if it reports one.
pub open spec fn reported_mode(m: Json) -> Option<DeviceMode> {
    match get_str(m, "mode"@) {
        Some(s) => if s == "cmd"@ {
            Some(DeviceMode::Cmd)
        } else if s == "data"@ {
            Some(DeviceMode::Data)
        } else {
            None
        },
        None => None,
    }
}

/// Seconds until the window opens, 0 where not reported.
pub open spec fn cmd_in_secs(m: Json) -> u64 {
    match get_u64(m, "cmd_in"@) {
        Some(n) => n,
        None => 0,
    }
}

/// Seconds the window stays open, 10 where not reported.
pub open spec fn cmd_dur_secs(m: Json) -> u64 {
    match get_u64(m, "cmd_dur"@) {
        Some(n) => n,
        None => 10,
    }
}

/// The schedule that metadata reporting `mode` gives at time `now`.
pub open spec fn schedule_from(device_id: Seq<char>, mode: DeviceMode, m: Json, now: u64) -> ScheduleView {
    ScheduleView {
        device_id,
        current_mode: mode,
        cmd_window_opens_at: if cmd_in_secs(m) > 0 {
            Some((now + cmd_in_secs(m) * 1000) as u64)
        } else {
            None
        },
        cmd_window_duration: cmd_dur_secs(m),
        last_updated: now,
    }
}

/// A copy of a queue.
fn copy_queue(q: &Vec<QueuedCommand>) -> (r: Vec<QueuedCommand>)
    ensures
        view_queue(r@) == view_queue(q@),
{
    let mut r: Vec<QueuedCommand> = Vec::new();
    let mut i: usize = 0;
    while i < q.len()
        invariant
            i <= q.len(),
            view_queue(r@) == view_queue(q@).take(i as int),
        decreases q.len() - i,
    {
        let c = q[i].clone();
        let ghost before = r@;
        r.push(c);
        assert(r@ == before.push(c));
        i = i + 1;
        assert(view_queue(r@) =~= view_queue(q@).take(i as int)) by {
            assert(view_queue(r@) =~= view_queue(before).push(c@));
        }
    }
    assert(view_queue(q@).take(i as int) =~= view_queue(q@));
    r
}

/// The schedule has not been updated for more than five minutes.
pub open spec fn stale(s: ScheduleView, now: u64) -> bool {
    elapsed(now, s.last_updated) > STALE_MS
}

/// Among the first `upto` ids there is `d`, whose schedule in `m` is stale
/// exactly when `is_stale`.
pub open spec fn seen_among(
    ids: Seq<String>,
    upto: int,
    d: Seq<char>,
    m: Map<Seq<char>, DeviceSchedule>,
    now: u64,
    is_stale: bool,
) -> bool {
    exists|j: int| 0 <= j < upto && #[trigger] ids[j]@ == d && stale(m[ids[j]@]@, now) == is_stale
}

/// Queues and schedules of all devices.
pub struct BleCommandScheduler {
    command_queues: StringHashMap<Vec<QueuedCommand>>,
    device_schedules: StringHashMap<DeviceSchedule>,
    schedule_ids: Vec<String>,
}

impl BleCommandScheduler {
    /// The queue of each device that has one.
    pub closed spec fn queues(&self) -> Map<Seq<char>, Seq<CommandView>> {
        self.command_queues@.map_values(|q: Vec<QueuedCommand>| view_queue(q@))
    }

    /// The schedule of each device that has reported one.
    pub closed spec fn schedules(&self) -> Map<Seq<char>, ScheduleView> {
        self.device_schedules@.map_values(|s: DeviceSchedule| s@)
    }

    /// Every queue is in order of priority and holds no critical command.
    pub open spec fn queues_ordered(&self) -> bool {
        forall|d: Seq<char>|
            #[trigger] self.queues().contains_key(d) ==> by_priority(self.queues()[d]) && forall|
                i: int,
            |
                0 <= i < self.queues()[d].len() ==> #[trigger] self.queues()[d][i].priority
                    != CommandPriority::Critical
    }

    pub closed spec fn ids_match(&self) -> bool {
        &&& forall|i: int, j: int|
            0 <= i < j < self.schedule_ids@.len() ==> self.schedule_ids@[i]@
                != self.schedule_ids@[j]@
        &&& forall|d: Seq<char>|
            #[trigger] self.device_schedules@.contains_key(d) <==> exists|i: int|
                0 <= i < self.schedule_ids@.len() && self.schedule_ids@[i]@ == d
    }

    pub open spec fn wf(&self) -> bool {
        self.queues_ordered() && self.ids_match()
    }

    /// A scheduler with no queue and no schedule.
    pub fn new() -> (r: Self)
        ensures
            r.wf(),
            r.queues() == Map::<Seq<char>, Seq<CommandView>>::empty(),
            r.schedules() == Map::<Seq<char>, ScheduleView>::empty(),
    {
        let r = BleCommandScheduler {
            command_queues: StringHashMap::new(),
            device_schedules: StringHashMap::new(),
            schedule_ids: Vec::new(),
        };
        assert(r.queues() =~= Map::<Seq<char>, Seq<CommandView>>::empty());
        assert(r.schedules() =~= Map::<Seq<char>, ScheduleView>::empty());
        r
    }

    /// The queue of a device; empty where it has none.
    pub open spec fn queue_or_empty(&self, d: Seq<char>) -> Seq<CommandView> {
        if self.queues().contains_key(d) {
            self.queues()[d]
        } else {
            Seq::empty()
        }
    }

    /// Queues a command, stamped with `now`. A critical command does not
    /// wait: the caller is to send it at once. Any other joins its device's
    /// queue behind the commands of its priority or higher.
    pub fn queue_command(&mut self, command: QueuedCommand, now: u64) -> (r: QueueOutcome)
        requires
            old(self).wf(),
        ensures
            final(self).wf(),
            final(self).schedules() == old(self).schedules(),
            ({
                let c = CommandView { queued_at: now, ..command@ };
                let d = command@.device_id;
                if command.priority == CommandPriority::Critical {
                    &&& final(self).queues() == old(self).queues()
                    &&& r matches QueueOutcome::SendNow { command: sent, event }
                    &&& sent@ == c
                    &&& event.event_type@ == "command_sent_critical"@
                    &&& event.device_id@ == d
                    &&& event.details@ == Json::Obj(
                        seq![
                            ("priority"@, Json::Str("CRITICAL"@)),
                            ("action"@, Json::Str(command_action(c.command))),
                        ],
                    )
                } else {
                    let q = enqueue(old(self).queue_or_empty(d), c);
                    &&& final(self).queues() == old(self).queues().insert(d, q)
                    &&& r matches QueueOutcome::Queued { queue_size, event }
                    &&& queue_size == q.len()
                    &&& event.event_type@ == "command_queued"@
                    &&& event.device_id@ == d
                    &&& event.details@ == Json::Obj(
                        seq![
                            ("priority"@, Json::Str(priority_name(c.priority))),
                            ("action"@, Json::Str(command_action(c.command))),
                            ("queue_size"@, num(q.len() as u64)),
                        ],
                    )
                }
            }),
    {
        let mut command = command;
        command.queued_at = now;
        let device_id = command.device_id.clone();
        let action = action_of(&command.command);
        proof {
            reveal_strlit("priority");
            reveal_strlit("action");
            reveal_strlit("queue_size");
            assert("priority"@.len() == 8 && "action"@.len() == 6 && "queue_size"@.len() == 10);
            assert("priority"@ != "action"@);
            assert("priority"@ != "queue_size"@);
            assert("action"@ != "queue_size"@);
        }
        if let CommandPriority::Critical = command.priority {
            let event = SchedulerEvent::new(
                "command_sent_critical",
                device_id.as_str(),
                object2(
                    "priority",
                    JsonValue::from_str("CRITICAL"),
                    "action",
                    JsonValue::String(action),
                ),
            );
            return QueueOutcome::SendNow { command, event };
        }
        let ghost c = command@;
        let ghost old_q = self.queue_or_empty(device_id@);
        let mut queue: Vec<QueuedCommand> = match self.command_queues.get(device_id.as_str()) {
            Some(q) => copy_queue(q),
            None => Vec::new(),
        };
        assert(view_queue(queue@) == old_q);
        let level = command.priority.level();
        let mut k: usize = 0;
        while k < queue.len() && queue[k].priority.level() >= level
            invariant
                k <= queue.len(),
                level == rank(c.priority),
                forall|i: int| 0 <= i < k ==> rank(#[trigger] queue@[i].priority) >= rank(c.priority),
            decreases queue.len() - k,
        {
            k = k + 1;
        }
        proof {
            assert(by_priority(old_q));
            assert forall|i: int| 0 <= i < k implies rank(#[trigger] old_q[i].priority) >= rank(
                c.priority,
            ) by {
                assert(old_q[i] == queue@[i]@);
            }
            if k < queue.len() {
                assert(old_q[k as int] == queue@[k as int]@);
            }
            lemma_enqueue_by_priority(old_q, c, k as int);
        }
        let pname = command.priority.name();
        queue.insert(k, command);
        let size = queue.len();
        proof {
            assert(view_queue(queue@) =~= old_q.insert(k as int, c));
        }
        let ghost pre = *self;
        self.command_queues.insert(device_id.clone(), queue);
        proof {
            assert(self.queues() =~= pre.queues().insert(device_id@, old_q.insert(k as int, c)));
            assert(self.device_schedules == pre.device_schedules);
            assert(self.schedule_ids == pre.schedule_ids);
            assert(pre.ids_match());
            assert(self.ids_match());
            assert forall|d: Seq<char>| #[trigger] self.queues().contains_key(d) implies by_priority(
                self.queues()[d],
            ) && forall|i: int|
                0 <= i < self.queues()[d].len() ==> #[trigger] self.queues()[d][i].priority
                    != CommandPriority::Critical by {
                if d != device_id@ {
                    assert(pre.queues().contains_key(d));
                } else {
                    let nq = old_q.insert(k as int, c);
                    assert forall|i: int| 0 <= i < nq.len() implies #[trigger] nq[i].priority
                        != CommandPriority::Critical by {
                        if i < k {
                            assert(nq[i] == old_q[i]);
                        } else if i > k {
                            assert(nq[i] == old_q[i - 1]);
                        }
                    }
                }
            }
        }
        let event = SchedulerEvent::new(
            "command_queued",
            device_id.as_str(),
            object3(
                "priority",
                JsonValue::String(pname),
                "action",
                JsonValue::String(action),
                "queue_size",
                JsonValue::from_u64(size as u64),
            ),
        );
        QueueOutcome::Queued { queue_size: size, event }
    }

    /// The batch a device gets when its window opens: with no queue, or an
    /// empty one, nothing changes and there is no batch; otherwise the queue
    /// is emptied and the batch holds its commands that have not expired, in
    /// queue order.
    pub open spec fn took_batch(
        &self,
        post: &Self,
        d: Seq<char>,
        now: u64,
        r: Option<CommandBatch>,
    ) -> bool {
        if !self.queues().contains_key(d) || self.queues()[d].len() == 0 {
            &&& r is None
            &&& post.queues() == self.queues()
        } else {
            let q = self.queues()[d];
            &&& r matches Some(b)
            &&& b.device_id@ == d
            &&& view_queue(b.commands@) == q.filter(not_expired(now))
            &&& b.original_count == q.len()
            &&& b.expired_count == q.len() - b.commands@.len()
            &&& post.queues() == self.queues().insert(d, Seq::empty())
        }
    }

    /// Hands out the queued commands of a device whose command window is
    /// open, dropping those that have expired.
    pub fn take_queued_commands(&mut self, device_id: &str, now: u64) -> (r: Option<CommandBatch>)
        requires
            old(self).wf(),
        ensures
            final(self).wf(),
            final(self).schedules() == old(self).schedules(),
            old(self).took_batch(final(self), device_id@, now, r),
    {
        let ghost pre = *self;
        let q = match self.command_queues.get(device_id) {
            Some(q) => q,
            None => return None,
        };
        if q.len() == 0 {
            return None;
        }
        let ghost qv = view_queue(q@);
        assert(qv == pre.queues()[device_id@]);
        let original_count = q.len();
        let mut kept: Vec<QueuedCommand> = Vec::new();
        let mut i: usize = 0;
        while i < q.len()
            invariant
                i <= q.len(),
                qv == view_queue(q@),
                view_queue(kept@) == qv.take(i as int).filter(not_expired(now)),
                kept@.len() <= i,
            decreases q.len() - i,
        {
            let c = &q[i];
            let is_expired = match c.max_age {
                Some(a) => {
                    let waited = if now >= c.queued_at {
                        now - c.queued_at
                    } else {
                        0
                    };
                    waited > a
                },
                None => false,
            };
            proof {
                assert(qv.take(i + 1) =~= qv.take(i as int).push(qv[i as int]));
                lemma_filter_push(qv.take(i as int), not_expired(now), qv[i as int]);
                qv.take(i as int).lemma_filter_len(not_expired(now));
            }
            if !is_expired {
                let ghost before = kept@;
                kept.push(c.clone());
                assert(view_queue(kept@) =~= view_queue(before).push(qv[i as int]));
            }
            i = i + 1;
        }
        assert(qv.take(i as int) =~= qv);
        let expired_count = original_count - kept.len();
        let emptied: Vec<QueuedCommand> = Vec::new();
        assert(view_queue(emptied@) =~= Seq::<CommandView>::empty());
        self.command_queues.insert(owned(device_id), emptied);
        proof {
            assert(self.queues() =~= pre.queues().insert(device_id@, Seq::empty()));
            assert(self.device_schedules == pre.device_schedules);
            assert(self.schedule_ids == pre.schedule_ids);
            assert(pre.ids_match());
            assert(self.ids_match());
            assert forall|d: Seq<char>| #[trigger] self.queues().contains_key(d) implies by_priority(
                self.queues()[d],
            ) && forall|j: int|
                0 <= j < self.queues()[d].len() ==> #[trigger] self.queues()[d][j].priority
                    != CommandPriority::Critical by {
                if d != device_id@ {
                    assert(pre.queues().contains_key(d));
                }
            }
        }
        Some(
            CommandBatch {
                device_id: owned(device_id),
                original_count,
                expired_count,
                commands: kept,
            },
        )
    }

    /// Sets the schedule of a device.
    fn set_schedule(&mut self, device_id: &str, schedule: DeviceSchedule)
        requires
            old(self).wf(),
        ensures
            final(self).wf(),
            final(self).queues() == old(self).queues(),
            final(self).schedules() == old(self).schedules().insert(device_id@, schedule@),
    {
        let ghost pre = *self;
        let ghost sv = schedule@;
        let known = self.device_schedules.contains_key(device_id);
        self.device_schedules.insert(owned(device_id), schedule);
        if !known {
            let ghost ids0 = self.schedule_ids@;
            self.schedule_ids.push(owned(device_id));
            proof {
                assert forall|i: int| 0 <= i < ids0.len() implies ids0[i]@ != device_id@ by {
                    assert(pre.device_schedules@.contains_key(ids0[i]@));
                }
                assert(self.schedule_ids@[ids0.len() as int]@ == device_id@);
                assert forall|d: Seq<char>| #[trigger] self.device_schedules@.contains_key(d) implies exists|
                    i: int,
                | 0 <= i < self.schedule_ids@.len() && self.schedule_ids@[i]@ == d by {
                    if d != device_id@ {
                        assert(pre.device_schedules@.contains_key(d));
                        let i = choose|i: int| 0 <= i < ids0.len() && ids0[i]@ == d;
                        assert(self.schedule_ids@[i] == ids0[i]);
                    }
                }
                assert forall|d: Seq<char>| (exists|i: int|
                    0 <= i < self.schedule_ids@.len() && self.schedule_ids@[i]@
                        == d) implies #[trigger] self.device_schedules@.contains_key(d) by {
                    let i = choose|i: int|
                        0 <= i < self.schedule_ids@.len() && self.schedule_ids@[i]@ == d;
                    if i < ids0.len() {
                        assert(self.schedule_ids@[i] == ids0[i]);
                        assert(pre.device_schedules@.contains_key(d));
                    }
                }
            }
        } else {
            proof {
                assert forall|d: Seq<char>| #[trigger] self.device_schedules@.contains_key(d) <==> exists|
                    i: int,
                | 0 <= i < self.schedule_ids@.len() && self.schedule_ids@[i]@ == d by {
                    assert(pre.device_schedules@.contains_key(d) <==> exists|i: int|
                        0 <= i < pre.schedule_ids@.len() && pre.schedule_ids@[i]@ == d);
                }
            }
        }
        proof {
            assert(self.schedules() =~= pre.schedules().insert(device_id@, sv));
            assert(self.command_queues == pre.command_queues);
            assert(self.queues() == pre.queues());
            assert(pre.queues_ordered());
        }
    }

    /// Takes in the schedule metadata of a device's telemetry, e.g.
    /// `{"mode": "data", "cmd_in": 285, "cmd_dur": 10}`, at time `now`.
    /// Metadata without a mode changes nothing. Otherwise the device's
    /// schedule is replaced, and: in the command window, the queued commands
    /// are handed out; with the window less than five seconds away, it is
    /// announced as imminent; with a later opening known, it is announced as
    /// scheduled.
    pub fn update_schedule_from_telemetry(
        &mut self,
        device_id: &str,
        metadata: &JsonValue,
        now: u64,
    ) -> (r: ScheduleOutcome)
        requires
            old(self).wf(),
            reported_mode(metadata@) is Some ==> now + cmd_in_secs(metadata@) * 1000 <= u64::MAX,
        ensures
            final(self).wf(),
            match reported_mode(metadata@) {
                None => {
                    &&& r is NoModeInfo
                    &&& final(self).queues() == old(self).queues()
                    &&& final(self).schedules() == old(self).schedules()
                },
                Some(mode) => {
                    let s = schedule_from(device_id@, mode, metadata@, now);
                    let m = metadata@;
                    &&& final(self).schedules() == old(self).schedules().insert(device_id@, s)
                    &&& if mode == DeviceMode::Cmd {
                        &&& r matches ScheduleOutcome::WindowOpen { event, batch }
                        &&& event.event_type@ == "cmd_window_open"@
                        &&& event.device_id@ == device_id@
                        &&& event.details@ == obj1("duration"@, num(cmd_dur_secs(m)))
                        &&& old(self).took_batch(final(self), device_id@, now, batch)
                    } else {
                        &&& final(self).queues() == old(self).queues()
                        &&& if window_imminent(s, now) {
                            &&& r matches ScheduleOutcome::WindowImminent { event }
                            &&& event.event_type@ == "cmd_window_imminent"@
                            &&& event.device_id@ == device_id@
                            &&& event.details@ == obj1("seconds"@, num(cmd_in_secs(m)))
                        } else if time_until_window(s, now) is Some {
                            &&& r matches ScheduleOutcome::WindowScheduled { event }
                            &&& event.event_type@ == "cmd_window_scheduled"@
                            &&& event.device_id@ == device_id@
                            &&& event.details@ == obj1(
                                "seconds"@,
                                num((time_until_window(s, now).unwrap() / 1000) as u64),
                            )
                        } else {
                            r is NoWindowKnown
                        }
                    }
                },
            },
    {
        let mode = match metadata.get("mode") {
            Some(v) => match v.as_str() {
                Some(s) => {
                    if str_eq(s, "cmd") {
                        DeviceMode::Cmd
                    } else if str_eq(s, "data") {
                        DeviceMode::Data
                    } else {
                        return ScheduleOutcome::NoModeInfo;
                    }
                },
                None => return ScheduleOutcome::NoModeInfo,
            },
            None => return ScheduleOutcome::NoModeInfo,
        };
        let cmd_in_secs: u64 = match metadata.get("cmd_in") {
            Some(v) => match v.as_u64() {
                Some(n) => n,
                None => 0,
            },
            None => 0,
        };
        let cmd_dur_secs: u64 = match metadata.get("cmd_dur") {
            Some(v) => match v.as_u64() {
                Some(n) => n,
                None => 10,
            },
            None => 10,
        };
        let opens_at = if cmd_in_secs > 0 {
            Some(now + cmd_in_secs * 1000)
        } else {
            None
        };
        let schedule = DeviceSchedule {
            device_id: owned(device_id),
            current_mode: mode,
            cmd_window_opens_at: opens_at,
            cmd_window_duration: cmd_dur_secs,
            last_updated: now,
        };
        let in_window = schedule.is_in_cmd_window();
        let imminent = schedule.is_cmd_window_imminent(now);
        let until = schedule.time_until_cmd_window(now);
        self.set_schedule(device_id, schedule);
        if in_window {
            let event = SchedulerEvent::new(
                "cmd_window_open",
                device_id,
                object1("duration", JsonValue::from_u64(cmd_dur_secs)),
            );
            let batch = self.take_queued_commands(device_id, now);
            ScheduleOutcome::WindowOpen { event, batch }
        } else if imminent {
            let event = SchedulerEvent::new(
                "cmd_window_imminent",
                device_id,
                object1("seconds", JsonValue::from_u64(cmd_in_secs)),
            );
            ScheduleOutcome::WindowImminent { event }
        } else {
            match until {
                Some(t) => {
                    let event = SchedulerEvent::new(
                        "cmd_window_scheduled",
                        device_id,
                        object1("seconds", JsonValue::from_u64(t / 1000)),
                    );
                    ScheduleOutcome::WindowScheduled { event }
                },
                None => ScheduleOutcome::NoWindowKnown,
            }
        }
    }

    /// Whether the telemetry metadata can be taken in at time `now`: where it
    /// reports a mode, the opening of the window it announces is a time
    /// that can be told (the original clock overflows otherwise).
    pub fn schedule_fits(metadata: &JsonValue, now: u64) -> (r: bool)
        ensures
            r == (reported_mode(metadata@) is Some ==> now + cmd_in_secs(metadata@) * 1000
                <= u64::MAX),
    {
        let has_mode = match metadata.get("mode") {
            Some(v) => match v.as_str() {
                Some(s) => str_eq(s, "cmd") || str_eq(s, "data"),
                None => false,
            },
            None => false,
        };
        if !has_mode {
            return true;
        }
        let cmd_in: u64 = match metadata.get("cmd_in") {
            Some(v) => match v.as_u64() {
                Some(n) => n,
                None => 0,
            },
            None => 0,
        };
        cmd_in <= (u64::MAX - now) / 1000
    }

    /// The queue and schedule of a device; none unless it has both.
    pub fn get_queue_status(&self, device_id: &str, now: u64) -> (r: Option<QueueStatus>)
        ensures
            r is Some <==> self.queues().contains_key(device_id@) && self.schedules().contains_key(
                device_id@,
            ),
            r matches Some(st) ==> {
                &&& st.device_id@ == device_id@
                &&& st.queued_commands == self.queues()[device_id@].len()
                &&& st.current_mode == self.schedules()[device_id@].current_mode
                &&& st.time_until_cmd_window == time_until_window(
                    self.schedules()[device_id@],
                    now,
                )
            },
    {
        let queue = match self.command_queues.get(device_id) {
            Some(q) => q,
            None => return None,
        };
        let schedule = match self.device_schedules.get(device_id) {
            Some(s) => s,
            None => return None,
        };
        Some(
            QueueStatus {
                device_id: owned(device_id),
                queued_commands: queue.len(),
                current_mode: schedule.current_mode,
                time_until_cmd_window: schedule.time_until_cmd_window(now),
            },
        )
    }

    /// The schedule of a device, if it has one.
    pub fn device_schedule(&self, device_id: &str) -> (r: Option<&DeviceSchedule>)
        ensures
            r is Some <==> self.schedules().contains_key(device_id@),
            r matches Some(s) ==> s@ == self.schedules()[device_id@],
    {
        self.device_schedules.get(device_id)
    }

    /// The queue of a device, if it has one.
    pub fn device_queue(&self, device_id: &str) -> (r: Option<&Vec<QueuedCommand>>)
        ensures
            r is Some <==> self.queues().contains_key(device_id@),
            r matches Some(q) ==> view_queue(q@) == self.queues()[device_id@],
    {
        self.command_queues.get(device_id)
    }

    /// Drops the schedules not updated in the last five minutes, and returns
    /// the devices whose schedule was dropped.
    #[verifier::rlimit(60)]
    pub fn prune_stale_schedules(&mut self, now: u64) -> (removed: Vec<String>)
        requires
            old(self).wf(),
        ensures
            final(self).wf(),
            final(self).queues() == old(self).queues(),
            forall|d: Seq<char>|
                #[trigger] final(self).schedules().contains_key(d) <==> old(
                    self,
                ).schedules().contains_key(d) && !stale(old(self).schedules()[d], now),
            forall|d: Seq<char>|
                #[trigger] final(self).schedules().contains_key(d) ==> final(self).schedules()[d]
                    == old(self).schedules()[d],
            forall|d: Seq<char>|
                (exists|i: int| 0 <= i < removed@.len() && #[trigger] removed@[i]@ == d)
                    <==> old(self).schedules().contains_key(d) && stale(
                    old(self).schedules()[d],
                    now,
                ),
    {
        let ghost pre = *self;
        let ghost m0 = self.device_schedules@;
        let mut old_ids: Vec<String> = Vec::new();
        std::mem::swap(&mut old_ids, &mut self.schedule_ids);
        let mut removed: Vec<String> = Vec::new();
        let mut i: usize = 0;
        while i < old_ids.len()
            invariant
                i <= old_ids.len(),
                self.command_queues == pre.command_queues,
                old_ids@ == pre.schedule_ids@,
                pre.ids_match(),
                forall|d: Seq<char>|
                    #[trigger] self.device_schedules@.contains_key(d) ==> m0.contains_key(d)
                        && self.device_schedules@[d] == m0[d],
                forall|j: int|
                    0 <= j < i ==> (self.device_schedules@.contains_key(#[trigger] old_ids@[j]@)
                        <==> !stale(m0[old_ids@[j]@]@, now)),
                forall|j: int|
                    i <= j < old_ids@.len() ==> self.device_schedules@.contains_key(
                        #[trigger] old_ids@[j]@,
                    ),
                forall|k: int|
                    0 <= k < self.schedule_ids@.len() ==> seen_among(
                        old_ids@,
                        i as int,
                        #[trigger] self.schedule_ids@[k]@,
                        m0,
                        now,
                        false,
                    ),
                forall|j: int|
                    #![trigger old_ids@[j]]
                    0 <= j < i && !stale(m0[old_ids@[j]@]@, now) ==> exists|k: int|
                        0 <= k < self.schedule_ids@.len() && #[trigger] self.schedule_ids@[k]@
                            == old_ids@[j]@,
                forall|k1: int, k2: int|
                    0 <= k1 < k2 < self.schedule_ids@.len() ==> self.schedule_ids@[k1]@
                        != self.schedule_ids@[k2]@,
                forall|k: int|
                    0 <= k < removed@.len() ==> seen_among(
                        old_ids@,
                        i as int,
                        #[trigger] removed@[k]@,
                        m0,
                        now,
                        true,
                    ),
                forall|j: int|
                    #![trigger old_ids@[j]]
                    0 <= j < i && stale(m0[old_ids@[j]@]@, now) ==> exists|k: int|
                        0 <= k < removed@.len() && #[trigger] removed@[k]@ == old_ids@[j]@,
            decreases old_ids.len() - i,
        {
            let id = &old_ids[i];
            proof {
                assert(m0.contains_key(old_ids@[i as int]@));
            }
            let last = match self.device_schedules.get(id.as_str()) {
                Some(s) => s.last_updated,
                None => 0,
            };
            let waited = if now >= last {
                now - last
            } else {
                0
            };
            let ghost ids_before = self.schedule_ids@;
            let ghost removed_before = removed@;
            assert(self.device_schedules@.contains_key(old_ids@[i as int]@));
            assert((waited > STALE_MS) == stale(m0[old_ids@[i as int]@]@, now));
            if waited > STALE_MS {
                self.device_schedules.remove(id.as_str());
                removed.push(id.clone());
            } else {
                self.schedule_ids.push(id.clone());
                proof {
                    assert forall|k: int| 0 <= k < ids_before.len() implies ids_before[k]@
                        != old_ids@[i as int]@ by {
                        assert(seen_among(old_ids@, i as int, ids_before[k]@, m0, now, false));
                        let j = choose|j: int|
                            0 <= j < i && #[trigger] old_ids@[j]@ == ids_before[k]@ && stale(
                                m0[old_ids@[j]@]@,
                                now,
                            ) == false;
                        assert(old_ids@[j]@ != old_ids@[i as int]@);
                    }
                }
            }
            proof {
                assert forall|k: int| 0 <= k < self.schedule_ids@.len() implies seen_among(
                    old_ids@,
                    i + 1,
                    #[trigger] self.schedule_ids@[k]@,
                    m0,
                    now,
                    false,
                ) by {
                    if k < ids_before.len() {
                        assert(self.schedule_ids@[k] == ids_before[k]);
                        assert(seen_among(old_ids@, i as int, ids_before[k]@, m0, now, false));
                    } else {
                        assert(old_ids@[i as int]@ == self.schedule_ids@[k]@);
                    }
                }
                assert forall|j: int| #![trigger old_ids@[j]] 0 <= j < i + 1 && !stale(m0[old_ids@[j]@]@, now) implies exists|
                    k: int,
                | 0 <= k < self.schedule_ids@.len() && #[trigger] self.schedule_ids@[k]@
                    == old_ids@[j]@ by {
                    if j < i {
                        let k = choose|k: int|
                            0 <= k < ids_before.len() && #[trigger] ids_before[k]@ == old_ids@[j]@;
                        assert(self.schedule_ids@[k] == ids_before[k]);
                    } else {
                        assert(self.schedule_ids@[ids_before.len() as int]@ == old_ids@[j]@);
                    }
                }
                assert forall|k: int| 0 <= k < removed@.len() implies seen_among(
                    old_ids@,
                    i + 1,
                    #[trigger] removed@[k]@,
                    m0,
                    now,
                    true,
                ) by {
                    if k < removed_before.len() {
                        assert(removed@[k] == removed_before[k]);
                        assert(seen_among(old_ids@, i as int, removed_before[k]@, m0, now, true));
                    } else {
                        assert(old_ids@[i as int]@ == removed@[k]@);
                    }
                }
                assert forall|j: int| #![trigger old_ids@[j]] 0 <= j < i + 1 && stale(m0[old_ids@[j]@]@, now) implies exists|
                    k: int,
                | 0 <= k < removed@.len() && #[trigger] removed@[k]@ == old_ids@[j]@ by {
                    if j < i {
                        let k = choose|k: int|
                            0 <= k < removed_before.len() && #[trigger] removed_before[k]@
                                == old_ids@[j]@;
                        assert(removed@[k] == removed_before[k]);
                    } else {
                        assert(removed@[removed_before.len() as int]@ == old_ids@[j]@);
                    }
                }
                assert forall|j: int| i + 1 <= j < old_ids@.len() implies self.device_schedules@.contains_key(
                    #[trigger] old_ids@[j]@,
                ) by {
                    assert(old_ids@[j]@ != old_ids@[i as int]@);
                }
            }
            i = i + 1;
        }
        proof {
            assert forall|d: Seq<char>| #[trigger] self.device_schedules@.contains_key(d) <==> exists|
                k: int,
            | 0 <= k < self.schedule_ids@.len() && self.schedule_ids@[k]@ == d by {
                if self.device_schedules@.contains_key(d) {
                    assert(m0.contains_key(d));
                    let j = choose|j: int| 0 <= j < old_ids@.len() && old_ids@[j]@ == d;
                    assert(self.device_schedules@.contains_key(old_ids@[j]@));
                }
                if exists|k: int| 0 <= k < self.schedule_ids@.len() && self.schedule_ids@[k]@ == d {
                    let k = choose|k: int| 0 <= k < self.schedule_ids@.len() && self.schedule_ids@[k]@ == d;
                    assert(seen_among(old_ids@, i as int, self.schedule_ids@[k]@, m0, now, false));
                }
            }
            assert(self.queues() == pre.queues());
            assert(pre.queues_ordered());
            assert forall|d: Seq<char>|
                #[trigger] self.schedules().contains_key(d) <==> pre.schedules().contains_key(d)
                    && !stale(pre.schedules()[d], now) by {
                if m0.contains_key(d) {
                    let j = choose|j: int| 0 <= j < old_ids@.len() && old_ids@[j]@ == d;
                    assert(self.device_schedules@.contains_key(old_ids@[j]@) <==> !stale(
                        m0[old_ids@[j]@]@,
                        now,
                    ));
                }
            }
            assert forall|d: Seq<char>|
                (exists|k: int| 0 <= k < removed@.len() && #[trigger] removed@[k]@ == d)
                    <==> pre.schedules().contains_key(d) && stale(pre.schedules()[d], now) by {
                if exists|k: int| 0 <= k < removed@.len() && #[trigger] removed@[k]@ == d {
                    let k = choose|k: int| 0 <= k < removed@.len() && #[trigger] removed@[k]@ == d;
                    assert(seen_among(old_ids@, i as int, removed@[k]@, m0, now, true));
                }
                if m0.contains_key(d) && stale(m0[d]@, now) {
                    let j = choose|j: int| 0 <= j < old_ids@.len() && old_ids@[j]@ == d;
                    assert(stale(m0[old_ids@[j]@]@, now));
                }
            }
        }
        removed
    }
}


// ---------------------------------------------------------------------------
// Helpers for the discovery manager
// ---------------------------------------------------------------------------

/// The schedule metadata of a telemetry document: its member `m`.
pub fn extract_schedule_metadata(telemetry: &JsonValue) -> (r: Option<JsonValue>)
    ensures
        r is None <==> json_get(telemetry@, "m"@) is None,
        r matches Some(v) ==> json_get(telemetry@, "m"@) == Some(v@),
{
    match telemetry.get("m") {
        Some(v) => Some(v.copy()),
        None => None,
    }
}

/// A control command in SSP form:
/// `{"protocol":"ssp/1.0","type":"control","topic":device,"timestamp":t,
/// "payload":{"action":action,"data":payload}}`, with `null` for no payload.
pub open spec fn control_command(
    device_id: Seq<char>,
    action: Seq<char>,
    payload: Option<Json>,
    timestamp: u64,
) -> Json {
    let data = match payload {
        Some(p) => p,
        None => Json::Null,
    };
    let body = Json::Obj(seq![("action"@, Json::Str(action)), ("data"@, data)]);
    Json::Obj(
        seq![
            ("protocol"@, Json::Str("ssp/1.0"@)),
            ("type"@, Json::Str("control"@)),
            ("topic"@, Json::Str(device_id)),
            ("timestamp"@, num(timestamp)),
            ("payload"@, body),
        ],
    )
}

pub open spec fn opt_json(p: Option<JsonValue>) -> Option<Json> {
    match p {
        Some(v) => Some(v@),
        None => None,
    }
}

/// The control command stamped with `timestamp`.
pub fn control_command_at(
    device_id: &str,
    action: &str,
    payload: Option<JsonValue>,
    timestamp: u64,
) -> (r: JsonValue)
    ensures
        r@ == control_command(device_id@, action@, opt_json(payload), timestamp),
{
    proof {
        reveal_strlit("protocol");
        reveal_strlit("type");
        reveal_strlit("topic");
        reveal_strlit("timestamp");
        reveal_strlit("payload");
        reveal_strlit("action");
        reveal_strlit("data");
        assert("protocol"@.len() == 8 && "type"@.len() == 4 && "topic"@.len() == 5);
        assert("timestamp"@.len() == 9 && "payload"@.len() == 7);
        assert("action"@.len() == 6 && "data"@.len() == 4);
    }
    let ghost pm = opt_json(payload);
    let data = match payload {
        Some(p) => p,
        None => JsonValue::Null,
    };
    assert(data@ == match pm {
        Some(p) => p,
        None => Json::Null,
    });
    let inner = object2("action", JsonValue::from_str(action), "data", data);
    let ghost innerm = inner@;
    let mut o = object3(
        "protocol",
        JsonValue::from_str("ssp/1.0"),
        "type",
        JsonValue::from_str("control"),
        "topic",
        JsonValue::from_str(device_id),
    );
    let ghost e3 = o.obj_entries();
    o.insert("timestamp", JsonValue::from_u64(timestamp));
    proof {
        crate::json::lemma_insert_new_key(e3, "timestamp"@, num(timestamp));
    }
    let ghost e4 = o.obj_entries();
    o.insert("payload", inner);
    proof {
        crate::json::lemma_insert_new_key(e4, "payload"@, innerm);
        assert(o@ == Json::Obj(e4.push(("payload"@, innerm))));
        assert(e4 == e3.push(("timestamp"@, num(timestamp))));
        let want = seq![
            ("protocol"@, Json::Str("ssp/1.0"@)),
            ("type"@, Json::Str("control"@)),
            ("topic"@, Json::Str(device_id@)),
            ("timestamp"@, num(timestamp)),
            ("payload"@, innerm),
        ];
        assert(e4.push(("payload"@, innerm)) =~= want);
        let dm = match pm {
            Some(p) => p,
            None => Json::Null,
        };
        assert(innerm == Json::Obj(seq![("action"@, Json::Str(action@)), ("data"@, dm)]));
        assert(o@ == Json::Obj(want));
        assert(control_command(device_id@, action@, pm, timestamp) == Json::Obj(want));
    }
    o
}

/// The control command stamped with the current UTC time, in seconds since
/// the Unix epoch.
pub fn create_control_command(device_id: &str, action: &str, payload: Option<JsonValue>) -> (r:
    JsonValue)
    ensures
        exists|t: u64| r@ == control_command(device_id@, action@, opt_json(payload), t),
{
    let now = crate::clock::utc_now_timestamp();
    control_command_at(device_id, action, payload, now as u64)
}
} // verus!
