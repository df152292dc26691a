use survon::json::parse_json;
use survon::scheduler::{
    BleCommandScheduler, CommandPriority, DeviceMode, QueueOutcome, QueuedCommand,
    ScheduleOutcome,
};

fn command(device: &str, text: &str, priority: CommandPriority, at: u64) -> QueuedCommand {
    QueuedCommand {
        device_id: device.to_string(),
        command: parse_json(text).unwrap(),
        priority,
        queued_at: at,
        max_age: None,
    }
}

#[test]
fn test_schedule_parsing() {
    let mut scheduler = BleCommandScheduler::new();
    let metadata = parse_json(r#"{"mode": "data", "cmd_in": 285, "cmd_dur": 10}"#).unwrap();
    let now = 1_000_000u64;
    scheduler.update_schedule_from_telemetry("test_device", &metadata, now);
    let schedule = scheduler.device_schedule("test_device").unwrap();
    assert_eq!(schedule.current_mode, DeviceMode::Data);
    assert!(schedule.time_until_cmd_window(now).is_some());
}

#[test]
fn test_command_queueing() {
    let mut scheduler = BleCommandScheduler::new();
    let cmd = command("test_device", r#"{"action": "ping"}"#, CommandPriority::Normal, 0);
    scheduler.queue_command(cmd, 0);
    let queue = scheduler.device_queue("test_device").unwrap();
    assert_eq!(queue.len(), 1);
}

#[test]
fn test_priority_sorting() {
    let mut scheduler = BleCommandScheduler::new();
    scheduler.queue_command(command("test", r#"{"action": "low"}"#, CommandPriority::Low, 0), 0);
    scheduler.queue_command(command("test", r#"{"action": "high"}"#, CommandPriority::High, 0), 0);
    let queue = scheduler.device_queue("test").unwrap();
    assert_eq!(queue[0].priority, CommandPriority::High);
    assert_eq!(queue[1].priority, CommandPriority::Low);
}

#[test]
fn schedule_window_time_is_exact() {
    let mut scheduler = BleCommandScheduler::new();
    let metadata = parse_json(r#"{"mode": "data", "cmd_in": 285, "cmd_dur": 10}"#).unwrap();
    scheduler.update_schedule_from_telemetry("dev", &metadata, 1_000);
    let schedule = scheduler.device_schedule("dev").unwrap();
    assert_eq!(schedule.cmd_window_opens_at, Some(1_000 + 285_000));
    assert_eq!(schedule.cmd_window_duration, 10);
    assert_eq!(schedule.time_until_cmd_window(2_000), Some(284_000));
    assert!(!schedule.is_in_cmd_window());
    assert!(!schedule.is_cmd_window_imminent(2_000));
    assert!(schedule.is_cmd_window_imminent(1_000 + 281_000));
}

#[test]
fn metadata_without_mode_changes_nothing() {
    let mut scheduler = BleCommandScheduler::new();
    let metadata = parse_json(r#"{"cmd_in": 5}"#).unwrap();
    let outcome = scheduler.update_schedule_from_telemetry("dev", &metadata, 0);
    assert!(matches!(outcome, ScheduleOutcome::NoModeInfo));
    assert!(scheduler.device_schedule("dev").is_none());
}

#[test]
fn cmd_mode_hands_out_the_queue_in_priority_order() {
    let mut scheduler = BleCommandScheduler::new();
    scheduler.queue_command(command("dev", r#"{"action": "a"}"#, CommandPriority::Low, 0), 0);
    scheduler.queue_command(command("dev", r#"{"action": "b"}"#, CommandPriority::High, 0), 0);
    scheduler.queue_command(command("dev", r#"{"action": "c"}"#, CommandPriority::Normal, 0), 0);
    let metadata = parse_json(r#"{"mode": "cmd", "cmd_dur": 7}"#).unwrap();
    let outcome = scheduler.update_schedule_from_telemetry("dev", &metadata, 10);
    match outcome {
        ScheduleOutcome::WindowOpen { event, batch } => {
            assert_eq!(event.event_type, "cmd_window_open");
            let batch = batch.unwrap();
            let order: Vec<CommandPriority> = batch.commands.iter().map(|c| c.priority).collect();
            assert_eq!(
                order,
                vec![CommandPriority::High, CommandPriority::Normal, CommandPriority::Low]
            );
        }
        _ => panic!("the command window should be open"),
    }
    assert_eq!(scheduler.device_queue("dev").map(|q| q.len()).unwrap_or(0), 0);
}

#[test]
fn expired_commands_are_dropped_when_taken() {
    let mut scheduler = BleCommandScheduler::new();
    let mut old = command("dev", r#"{"action": "old"}"#, CommandPriority::Normal, 0);
    old.max_age = Some(1_000);
    scheduler.queue_command(old, 0);
    scheduler.queue_command(command("dev", r#"{"action": "new"}"#, CommandPriority::Normal, 0), 0);
    let batch = scheduler.take_queued_commands("dev", 5_000).unwrap();
    assert_eq!(batch.commands.len(), 1);
    assert_eq!(batch.expired_count, 1);
    assert!(batch.expired_event().is_some());
}

#[test]
fn queue_status_reports_priorities() {
    let mut scheduler = BleCommandScheduler::new();
    scheduler.queue_command(command("dev", r#"{"action": "a"}"#, CommandPriority::High, 0), 0);
    assert!(scheduler.get_queue_status("dev", 0).is_none());
    let metadata = parse_json(r#"{"mode": "data", "cmd_in": 60}"#).unwrap();
    scheduler.update_schedule_from_telemetry("dev", &metadata, 0);
    let status = scheduler.get_queue_status("dev", 1_000).unwrap();
    assert_eq!(status.queued_commands, 1);
    assert_eq!(status.current_mode, DeviceMode::Data);
    assert_eq!(status.time_until_cmd_window, Some(59_000));
    assert!(scheduler.get_queue_status("other", 0).is_none());
}

#[test]
fn stale_schedules_are_pruned() {
    let mut scheduler = BleCommandScheduler::new();
    let metadata = parse_json(r#"{"mode": "data", "cmd_in": 1, "cmd_dur": 1}"#).unwrap();
    scheduler.update_schedule_from_telemetry("old", &metadata, 0);
    scheduler.update_schedule_from_telemetry("fresh", &metadata, 400_000);
    let removed = scheduler.prune_stale_schedules(400_001);
    assert_eq!(removed, vec!["old".to_string()]);
    assert!(scheduler.device_schedule("old").is_none());
    assert!(scheduler.device_schedule("fresh").is_some());
}

#[test]
fn queueing_outside_the_window_waits() {
    let mut scheduler = BleCommandScheduler::new();
    let outcome =
        scheduler.queue_command(command("dev", r#"{"action": "x"}"#, CommandPriority::Low, 0), 0);
    assert!(!matches!(outcome, QueueOutcome::SendNow { .. }));
}

#[test]
fn critical_commands_are_sent_at_once() {
    let mut scheduler = BleCommandScheduler::new();
    let outcome = scheduler
        .queue_command(command("dev", r#"{"action": "stop"}"#, CommandPriority::Critical, 0), 3);
    match outcome {
        QueueOutcome::SendNow { command, event } => {
            assert_eq!(command.queued_at, 3);
            assert_eq!(event.event_type, "command_sent_critical");
        }
        _ => panic!("a critical command does not wait"),
    }
    assert!(scheduler.device_queue("dev").is_none());
}

#[test]
fn priority_levels() {
    assert_eq!(CommandPriority::Low.level(), 0);
    assert_eq!(CommandPriority::Critical.level(), 3);
    assert_eq!(CommandPriority::High.name(), "High");
}
