use layermind::config::Config;
use layermind::tui::{
    format_duration, AppState, EventLevel, Focus, HeaterReading, Key, KeyAction, PollResult, PolledStatus,
    DiagnosticAction, DiagnosticResult, DiagnosticStep, PrintStatsReading, PrinterObjects, PrinterSnapshot, ToolheadReading,
};

#[test]
fn new_state_is_disconnected_on_the_printer_panel() {
    let app = AppState::new(Config::default());
    assert!(app.focus == Focus::Printer);
    assert_eq!(app.status_text(), "disconnected");
    assert!(app.events.is_empty());
}

#[test]
fn event_log_keeps_the_newest_hundred() {
    let mut app = AppState::new(Config::default());
    for i in 0..150 {
        app.add_event(format!("event {i}"), EventLevel::Info);
    }
    assert_eq!(app.events.len(), 100);
    assert_eq!(app.events[0].message, "event 50");
    assert_eq!(app.events[99].message, "event 149");
    assert_eq!(app.event_scroll, 99);
}

#[test]
fn keys_drive_focus_scroll_and_actions() {
    let mut app = AppState::new(Config::default());
    assert!(app.handle_key(Key::Char('q')) == KeyAction::Quit);
    assert!(app.handle_key(Key::Char('d')) == KeyAction::Diagnose);
    assert!(app.handle_key(Key::Char('m')) == KeyAction::ShowMachine);
    app.show_machine = true;
    assert!(app.handle_key(Key::Char('M')) == KeyAction::Continue);
    assert!(!app.show_machine);

    app.handle_key(Key::Tab);
    assert!(app.focus == Focus::Temps);
    app.handle_key(Key::Tab);
    assert!(app.focus == Focus::Events);

    for i in 0..3 {
        app.add_event(format!("e{i}"), EventLevel::Warning);
    }
    assert_eq!(app.event_scroll, 2);
    app.handle_key(Key::Down);
    assert_eq!(app.event_scroll, 2);
    app.handle_key(Key::Up);
    app.handle_key(Key::Up);
    app.handle_key(Key::Up);
    assert_eq!(app.event_scroll, 0);
    app.handle_key(Key::Down);
    assert_eq!(app.event_scroll, 1);

    app.handle_key(Key::Tab);
    app.handle_key(Key::Tab);
    assert!(app.focus == Focus::Printer);
    app.handle_key(Key::Up);
    assert_eq!(app.event_scroll, 1);
}

#[test]
fn status_follows_the_connection() {
    let mut app = AppState::new(Config::default());
    app.connecting = true;
    assert_eq!(app.status_text(), "connecting");
    app.connecting = false;
    app.connected = true;
    app.printer.state = "printing".into();
    assert_eq!(app.status_text(), "printing");
}

#[test]
fn durations_read_as_hours_minutes_seconds() {
    assert_eq!(format_duration(0), " 0:00");
    assert_eq!(format_duration(59), " 0:59");
    assert_eq!(format_duration(61), " 1:01");
    assert_eq!(format_duration(3_725), "01:02:05");
    assert_eq!(format_duration(5_025), "01:23:45");
    assert_eq!(format_duration(360_000), "100:00:00");
}

fn objects(state: &str, progress: i64) -> PrinterObjects {
    PrinterObjects {
        extruder: Some(HeaterReading { temperature_milli: 215_000, target_milli: 215_000 }),
        heater_bed: Some(HeaterReading { temperature_milli: 60_000, target_milli: 60_000 }),
        toolhead: Some(ToolheadReading { position_milli: vec![Some(10_000), None, Some(5_000)], homed_axes: "xyz".into() }),
        fan_milli: Some(1000),
        print_stats: Some(PrintStatsReading { state: state.into(), filename: Some("part.gcode".into()), print_duration_ms: 42_000 }),
        progress_milli: Some(progress),
        speed_milli: None,
    }
}

fn reply(state: &str, progress: i64) -> PollResult {
    PollResult::Status(PolledStatus {
        hostname: Some("voron".into()),
        klipper_version: Some("/home/pi/klipper".into()),
        moonraker_version: Some("v0.9".into()),
        objects: Some(objects(state, progress)),
    })
}

#[test]
fn first_reply_connects_and_fills_the_snapshot() {
    let mut app = AppState::new(Config::default());
    app.connecting = true;
    app.printer.position_milli = [1, 2, 3, 4];
    app.apply_poll(reply("standby", 0), 1_000);
    assert!(app.connected);
    assert!(!app.connecting);
    assert_eq!(app.last_refresh, Some(1_000));
    assert_eq!(app.events.len(), 1);
    assert_eq!(app.events[0].message, "Connected to Moonraker");
    assert_eq!(app.printer.hostname.as_deref(), Some("voron"));
    assert_eq!(app.printer.state, "standby");
    assert_eq!(app.printer.extruder_temp_milli, 215_000);
    assert_eq!(app.printer.bed_target_milli, 60_000);
    assert_eq!(app.printer.position_milli, [10_000, 2, 5_000, 4]);
    assert_eq!(app.printer.homed_axes, "xyz");
    assert_eq!(app.printer.print_elapsed_ms, 42_000);
    assert_eq!(app.status_text(), "standby");
}

#[test]
fn print_state_changes_are_logged() {
    let mut app = AppState::new(Config::default());
    app.apply_poll(reply("standby", 0), 1);
    app.apply_poll(reply("printing", 0), 2);
    assert_eq!(app.events.last().unwrap().message, "Print started");
    app.apply_poll(reply("printing", 5), 3);
    assert_eq!(app.events.len(), 2);
    app.apply_poll(reply("complete", 1000), 4);
    assert_eq!(app.events.last().unwrap().message, "Print completed");
    app.apply_poll(reply("printing", 0), 5);
    app.apply_poll(reply("error", 0), 6);
    let last = app.events.last().unwrap();
    assert_eq!(last.message, "Print failed");
    assert!(last.level == EventLevel::Error);
}

#[test]
fn progress_moves_only_beyond_a_hundredth() {
    let mut app = AppState::new(Config::default());
    app.apply_poll(reply("printing", 500), 1);
    assert_eq!(app.printer.print_progress_milli, 500);
    app.apply_poll(reply("printing", 508), 2);
    assert_eq!(app.printer.print_progress_milli, 500);
    app.apply_poll(reply("printing", 511), 3);
    assert_eq!(app.printer.print_progress_milli, 511);
}

#[test]
fn losing_the_printer_disconnects_once() {
    let mut app = AppState::new(Config::default());
    app.apply_poll(reply("standby", 0), 1);
    app.apply_poll(PollResult::Unreachable("connection refused".into()), 2);
    assert!(!app.connected);
    assert_eq!(app.connection_error.as_deref(), Some("connection refused"));
    assert_eq!(app.events.last().unwrap().message, "Disconnected: connection refused");
    let n = app.events.len();
    app.apply_poll(PollResult::Unreachable("again".into()), 3);
    assert_eq!(app.events.len(), n);
    assert_eq!(app.connection_error.as_deref(), Some("connection refused"));
    assert_eq!(app.last_refresh, Some(1));
}

#[test]
fn a_reply_without_status_keeps_the_readings() {
    let mut app = AppState::new(Config::default());
    app.apply_poll(reply("printing", 250), 1);
    app.apply_poll(
        PollResult::Status(PolledStatus { hostname: None, klipper_version: None, moonraker_version: None, objects: None }),
        2,
    );
    assert_eq!(app.printer.hostname, None);
    assert_eq!(app.printer.state, "printing");
    assert_eq!(app.printer.print_progress_milli, 250);
    assert_eq!(app.last_refresh, Some(2));
}

#[test]
fn objects_alone_read_into_a_fresh_snapshot() {
    let snap = PrinterSnapshot::from_objects(objects("printing", 420));
    assert_eq!(snap.state, "printing");
    assert_eq!(snap.print_filename.as_deref(), Some("part.gcode"));
    assert_eq!(snap.print_progress_milli, 420);
    assert_eq!(snap.position_milli, [10_000, 0, 5_000, 0]);
    assert_eq!(snap.hostname, None);
    let none = PrinterSnapshot::from_objects(PrinterObjects {
        extruder: None,
        heater_bed: None,
        toolhead: None,
        fan_milli: None,
        print_stats: None,
        progress_milli: Some(3),
        speed_milli: None,
    });
    assert_eq!(none.state, "");
    assert_eq!(none.print_progress_milli, 3);
}

#[test]
fn a_poll_takes_the_active_print_from_the_reply() {
    let mut app = AppState::new(Config::default());
    assert_eq!(app.printer.print_filename, None);
    app.apply_poll(
        PollResult::Status(PolledStatus {
            hostname: None,
            klipper_version: None,
            moonraker_version: None,
            objects: Some(PrinterObjects {
                extruder: None,
                heater_bed: None,
                toolhead: None,
                fan_milli: None,
                print_stats: Some(PrintStatsReading {
                    state: "printing".into(),
                    filename: Some("benchy.gcode".into()),
                    print_duration_ms: 5_025_000,
                }),
                progress_milli: None,
                speed_milli: None,
            }),
        }),
        1,
    );
    assert!(app.connected);
    assert_eq!(app.printer.state, "printing");
    assert_eq!(app.printer.print_elapsed_ms, 5_025_000);
    assert_eq!(app.printer.print_filename.as_deref(), Some("benchy.gcode"));
}

#[test]
fn diagnostic_steps_update_the_state_and_log() {
    let mut app = AppState::new(Config::default());
    app.apply_diagnostic(DiagnosticStep::Started);
    assert!(app.running_diagnostic);
    assert_eq!(app.events.last().unwrap().message, "Running AI diagnostic...");
    app.apply_diagnostic(DiagnosticStep::Failed("timeout".into()));
    assert!(!app.running_diagnostic);
    assert_eq!(app.diagnostic_error.as_deref(), Some("timeout"));
    assert_eq!(app.events.last().unwrap().message, "Diagnostic failed: timeout");
    app.apply_diagnostic(DiagnosticStep::Started);
    assert_eq!(app.diagnostic_error, None);
    app.apply_diagnostic(DiagnosticStep::Completed(DiagnosticResult {
        summary: "Retune PID".into(),
        confidence_milli: 800,
        actions: vec![DiagnosticAction { description: "Run PID_CALIBRATE".into(), suggested_command: None }],
    }));
    assert!(!app.running_diagnostic);
    assert_eq!(app.diagnostic_error, None);
    let r = app.diagnostic_result.as_ref().unwrap();
    assert_eq!(r.summary, "Retune PID");
    assert_eq!(r.confidence_milli, 800);
    assert_eq!(r.actions.len(), 1);
    assert_eq!(app.events.last().unwrap().message, "Diagnostic complete");
    app.apply_diagnostic(DiagnosticStep::ProviderUnavailable("no key".into()));
    assert_eq!(app.diagnostic_error.as_deref(), Some("Failed to create AI provider: no key"));
    app.apply_diagnostic(DiagnosticStep::PrinterUnreachable("refused".into()));
    assert_eq!(app.diagnostic_error.as_deref(), Some("Moonraker query failed: refused"));
    assert_eq!(app.events.last().unwrap().message, "Moonraker error: refused");
}
