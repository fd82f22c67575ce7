//! The terminal interface's state: the printer snapshot it shows, its
//! event log and which panel has focus.

use vstd::prelude::*;
use vstd::string::*;

use crate::config::Config;
use crate::machine::MachineProfile;
use crate::text::{decimal, opt_text, str_eq};

verus! {

/// How many events the log keeps.
pub const MAX_EVENTS: usize = 100;

/// How serious a logged event is.
#[derive(PartialEq, Eq, Structural, Clone, Copy)]
pub enum EventLevel {
    Info,
    Warning,
    Error,
}

/// Which panel has keyboard focus.
#[derive(PartialEq, Eq, Structural, Clone, Copy)]
pub enum Focus {
    Printer,
    Temps,
    Events,
    Recs,
}

/// A key press the interface reacts to.
#[derive(PartialEq, Eq, Structural, Clone, Copy)]
pub enum Key {
    Char(char),
    Tab,
    Up,
    Down,
    Other,
}

/// What the interface loop does after a key press.
#[derive(PartialEq, Eq, Structural, Clone, Copy)]
pub enum KeyAction {
    /// Leave the interface.
    Quit,
    /// Start an AI diagnostic.
    Diagnose,
    /// Load and show the machine's details.
    ShowMachine,
    /// Keep going.
    Continue,
}

/// The panel after `f` in Tab order.
pub open spec fn next_focus(f: Focus) -> Focus {
    match f {
        Focus::Printer => Focus::Temps,
        Focus::Temps => Focus::Events,
        Focus::Events => Focus::Recs,
        Focus::Recs => Focus::Printer,
    }
}

/// What a key asks the loop to do: `q` quits, `d` diagnoses, `m` shows
/// the machine.
pub open spec fn key_action(k: Key) -> KeyAction {
    match k {
        Key::Char('q') => KeyAction::Quit,
        Key::Char('d') => KeyAction::Diagnose,
        Key::Char('m') => KeyAction::ShowMachine,
        _ => KeyAction::Continue,
    }
}

/// The event log's scroll position after a key: Up and Down move it
/// within the log while the log has the focus.
pub open spec fn scrolled(focus: Focus, scroll: usize, len: nat, k: Key) -> usize {
    if focus != Focus::Events {
        scroll
    } else {
        match k {
            Key::Up => if len == 0 {
                scroll
            } else if scroll == 0 {
                0
            } else {
                (scroll - 1) as usize
            },
            Key::Down => {
                let last: int = if len == 0 { 0 } else { len - 1 };
                if scroll + 1 < last { (scroll + 1) as usize } else { last as usize }
            },
            _ => scroll,
        }
    }
}

/// One line of the event log.
pub struct TimelineEntry {
    pub message: String,
    pub level: EventLevel,
}

/// What polling reported about the printer. Temperatures, speeds and
/// positions are in thousandths, progress in thousandths of the whole,
/// times in milliseconds.
pub struct PrinterSnapshot {
    pub hostname: Option<String>,
    pub klipper_version: Option<String>,
    pub moonraker_version: Option<String>,
    pub state: String,
    pub print_filename: Option<String>,
    pub print_progress_milli: i64,
    pub print_elapsed_ms: i64,
    pub print_remaining_ms: Option<i64>,
    pub current_layer: Option<u32>,
    pub total_layers: Option<u32>,
    pub extruder_temp_milli: i64,
    pub extruder_target_milli: i64,
    pub bed_temp_milli: i64,
    pub bed_target_milli: i64,
    pub fan_speed_milli: i64,
    pub position_milli: [i64; 4],
    pub speed_milli: i64,
    pub homed_axes: String,
}

/// A snapshot that knows nothing yet: no names, versions or file, an
/// empty state and homed axes, every reading zero.
pub open spec fn blank_snapshot(s: PrinterSnapshot) -> bool {
    &&& s.state@ == Seq::<char>::empty()
    &&& s.homed_axes@ == Seq::<char>::empty()
    &&& s.hostname is None
    &&& s.klipper_version is None
    &&& s.moonraker_version is None
    &&& s.print_filename is None
    &&& s.print_remaining_ms is None
    &&& s.current_layer is None
    &&& s.total_layers is None
    &&& s.print_progress_milli == 0
    &&& s.print_elapsed_ms == 0
    &&& s.extruder_temp_milli == 0
    &&& s.extruder_target_milli == 0
    &&& s.bed_temp_milli == 0
    &&& s.bed_target_milli == 0
    &&& s.fan_speed_milli == 0
    &&& s.speed_milli == 0
    &&& forall|k: int| 0 <= k < 4 ==> #[trigger] s.position_milli@[k] == 0
}

impl PrinterSnapshot {
    /// Nothing known yet.
    pub fn empty() -> (s: Self)
        ensures
            blank_snapshot(s),
    {
        proof {
            reveal_strlit("");
        }
        PrinterSnapshot {
            hostname: None,
            klipper_version: None,
            moonraker_version: None,
            state: String::new(),
            print_filename: None,
            print_progress_milli: 0,
            print_elapsed_ms: 0,
            print_remaining_ms: None,
            current_layer: None,
            total_layers: None,
            extruder_temp_milli: 0,
            extruder_target_milli: 0,
            bed_temp_milli: 0,
            bed_target_milli: 0,
            fan_speed_milli: 0,
            position_milli: [0, 0, 0, 0],
            speed_milli: 0,
            homed_axes: String::new(),
        }
    }
}

/// The interface's state.
pub struct AppState {
    pub config: Config,
    pub printer: PrinterSnapshot,
    pub events: Vec<TimelineEntry>,
    pub focus: Focus,
    pub event_scroll: usize,
    pub connected: bool,
    pub connecting: bool,
    pub connection_error: Option<String>,
    pub last_refresh: Option<i64>,
    pub machine_profile: Option<MachineProfile>,
    pub show_machine: bool,
    pub running_diagnostic: bool,
    pub diagnostic_error: Option<String>,
    /// The result of the last diagnosis that completed.
    pub diagnostic_result: Option<DiagnosticResult>,
}

/// A heater's reading, in thousandths of a degree.
pub struct HeaterReading {
    pub temperature_milli: i64,
    pub target_milli: i64,
}

/// The toolhead part of a status reply.
pub struct ToolheadReading {
    /// The first (at most four) coordinates of the reported position, in
    /// thousandths; `None` where an entry was not a number. Empty when
    /// the reply gave no position list.
    pub position_milli: Vec<Option<i64>>,
    /// The homed axes, empty when the reply left them out.
    pub homed_axes: String,
}

/// The print statistics of a status reply; a poll takes the state, the
/// file name and the elapsed time from them.
pub struct PrintStatsReading {
    /// The print state, `unknown` when the reply left it out.
    pub state: String,
    /// The file being printed, when the reply named one.
    pub filename: Option<String>,
    pub print_duration_ms: i64,
}

/// The printer objects of a status reply, each absent when the reply
/// left it out. Speeds and fan power are in thousandths, progress in
/// thousandths of the whole.
pub struct PrinterObjects {
    pub extruder: Option<HeaterReading>,
    pub heater_bed: Option<HeaterReading>,
    pub toolhead: Option<ToolheadReading>,
    pub fan_milli: Option<i64>,
    pub print_stats: Option<PrintStatsReading>,
    pub progress_milli: Option<i64>,
    pub speed_milli: Option<i64>,
}

/// What a successful query of the printer reported.
pub struct PolledStatus {
    pub hostname: Option<String>,
    pub klipper_version: Option<String>,
    pub moonraker_version: Option<String>,
    /// `None` when the reply carried no status at all.
    pub objects: Option<PrinterObjects>,
}

/// The outcome of one poll of the printer.
pub enum PollResult {
    /// The query failed, with the error's text.
    Unreachable(String),
    Status(PolledStatus),
}

/// The event log as messages and levels.
pub open spec fn log_view(events: Seq<TimelineEntry>) -> Seq<(Seq<char>, EventLevel)> {
    events.map_values(|e: TimelineEntry| (e.message@, e.level))
}

/// The log after one message: appended, the oldest dropped beyond 100.
pub open spec fn log_after(log: Seq<(Seq<char>, EventLevel)>, message: Seq<char>, level: EventLevel) -> Seq<(Seq<char>, EventLevel)> {
    let a = log.push((message, level));
    if a.len() > MAX_EVENTS { a.drop_first() } else { a }
}

/// The log after several messages, in order.
pub open spec fn log_all(log: Seq<(Seq<char>, EventLevel)>, msgs: Seq<(Seq<char>, EventLevel)>) -> Seq<(Seq<char>, EventLevel)>
    decreases msgs.len(),
{
    if msgs.len() == 0 {
        log
    } else {
        log_all(log_after(log, msgs[0].0, msgs[0].1), msgs.drop_first())
    }
}

/// Adding a message to the log is `log_after` on its view.
pub proof fn lemma_logged_view(old: Seq<TimelineEntry>, new: Seq<TimelineEntry>, message: Seq<char>, level: EventLevel)
    requires
        logged(old, new, message, level),
    ensures
        log_view(new) == log_after(log_view(old), message, level),
{
    let a = log_view(old).push((message, level));
    let expected = if a.len() > MAX_EVENTS { a.drop_first() } else { a };
    assert forall|i: int| 0 <= i < new.len() implies #[trigger] log_view(new)[i] == expected[i] by {
        if i < new.len() - 1 {
            assert(new[i] == new.drop_last()[i]);
            if old.len() + 1 > MAX_EVENTS {
                assert(old.drop_first()[i] == old[i + 1]);
            }
        }
    }
    assert(log_view(new) =~= expected);
}

/// The event logged when the print state changes from `old` to `new`:
/// a start, a completion or a failure; none for other changes.
pub open spec fn state_messages(old: Seq<char>, new: Seq<char>) -> Seq<(Seq<char>, EventLevel)> {
    if new == old {
        Seq::empty()
    } else if old != "printing"@ && new == "printing"@ {
        seq![("Print started"@, EventLevel::Info)]
    } else if old == "printing"@ && new == "complete"@ {
        seq![("Print completed"@, EventLevel::Info)]
    } else if old == "printing"@ && new == "error"@ {
        seq![("Print failed"@, EventLevel::Error)]
    } else {
        Seq::empty()
    }
}

/// The events a set of printer objects logs against the shown state.
pub open spec fn object_messages(old_state: Seq<char>, o: PrinterObjects) -> Seq<(Seq<char>, EventLevel)> {
    match o.print_stats {
        Some(ps) => state_messages(old_state, ps.state@),
        None => Seq::empty(),
    }
}

/// The events a status reply logs against the shown state.
pub open spec fn status_messages(old_state: Seq<char>, st: PolledStatus) -> Seq<(Seq<char>, EventLevel)> {
    match st.objects {
        Some(o) => object_messages(old_state, o),
        None => Seq::empty(),
    }
}

/// The events one poll logs, in order: losing or gaining the
/// connection, then a change of the print state.
pub open spec fn poll_messages(old: AppState, polled: PollResult) -> Seq<(Seq<char>, EventLevel)> {
    match polled {
        PollResult::Unreachable(e) => if old.connected {
            seq![("Disconnected: "@ + e@, EventLevel::Error)]
        } else {
            Seq::empty()
        },
        PollResult::Status(st) => {
            let connect = if old.connected {
                Seq::empty()
            } else {
                seq![("Connected to Moonraker"@, EventLevel::Info)]
            };
            connect + status_messages(old.printer.state@, st)
        },
    }
}

/// A position coordinate after a toolhead reading: the reported value
/// where there is one among the first four, else the old one.
pub open spec fn position_after(old: Seq<i64>, pos: Seq<Option<i64>>, k: int) -> i64 {
    if k < pos.len() && pos[k] is Some { pos[k]->0 } else { old[k] }
}

/// The progress shown after a reading: the new value when it moved by
/// more than a hundredth (10 thousandths), else the old one.
pub open spec fn progress_after(old: i64, new: Option<i64>) -> i64 {
    match new {
        Some(p) => if p - old > 10 || old - p > 10 { p } else { old },
        None => old,
    }
}

/// The fields of a snapshot that no poll touches.
pub open spec fn untouched_same(old: PrinterSnapshot, new: PrinterSnapshot) -> bool {
    &&& new.print_remaining_ms == old.print_remaining_ms
    &&& new.current_layer == old.current_layer
    &&& new.total_layers == old.total_layers
}

/// The snapshot after the printer objects of a reply: each reported
/// object replaces what it covers, the others stay.
pub open spec fn objects_applied(old: PrinterSnapshot, new: PrinterSnapshot, o: PrinterObjects) -> bool {
    &&& untouched_same(old, new)
    &&& match o.extruder {
        Some(h) => new.extruder_temp_milli == h.temperature_milli && new.extruder_target_milli == h.target_milli,
        None => new.extruder_temp_milli == old.extruder_temp_milli && new.extruder_target_milli == old.extruder_target_milli,
    }
    &&& match o.heater_bed {
        Some(h) => new.bed_temp_milli == h.temperature_milli && new.bed_target_milli == h.target_milli,
        None => new.bed_temp_milli == old.bed_temp_milli && new.bed_target_milli == old.bed_target_milli,
    }
    &&& match o.toolhead {
        Some(t) => (forall|k: int| 0 <= k < 4 ==> #[trigger] new.position_milli@[k] == position_after(old.position_milli@, t.position_milli@, k))
            && new.homed_axes == t.homed_axes,
        None => new.position_milli == old.position_milli && new.homed_axes == old.homed_axes,
    }
    &&& new.fan_speed_milli == match o.fan_milli {
        Some(f) => f,
        None => old.fan_speed_milli,
    }
    &&& match o.print_stats {
        Some(ps) => new.state@ == ps.state@ && new.print_filename == ps.filename && new.print_elapsed_ms == ps.print_duration_ms,
        None => new.state == old.state && new.print_filename == old.print_filename && new.print_elapsed_ms == old.print_elapsed_ms,
    }
    &&& new.print_progress_milli == progress_after(old.print_progress_milli, o.progress_milli)
    &&& new.speed_milli == match o.speed_milli {
        Some(v) => v,
        None => old.speed_milli,
    }
}

/// The snapshot after a status reply: names and versions as reported,
/// readings from the printer objects when the reply had them.
pub open spec fn status_applied(old: PrinterSnapshot, new: PrinterSnapshot, st: PolledStatus) -> bool {
    &&& new.hostname == st.hostname
    &&& new.klipper_version == st.klipper_version
    &&& new.moonraker_version == st.moonraker_version
    &&& match st.objects {
        Some(o) => objects_applied(old, new, o),
        None => {
            &&& untouched_same(old, new)
            &&& new.print_filename == old.print_filename
            &&& new.state == old.state
            &&& new.print_progress_milli == old.print_progress_milli
            &&& new.print_elapsed_ms == old.print_elapsed_ms
            &&& new.extruder_temp_milli == old.extruder_temp_milli
            &&& new.extruder_target_milli == old.extruder_target_milli
            &&& new.bed_temp_milli == old.bed_temp_milli
            &&& new.bed_target_milli == old.bed_target_milli
            &&& new.fan_speed_milli == old.fan_speed_milli
            &&& new.position_milli == old.position_milli
            &&& new.speed_milli == old.speed_milli
            &&& new.homed_axes == old.homed_axes
        },
    }
}

/// The state after one poll: the log gains the poll's messages; an
/// unreachable printer drops a live connection with the error; a reply
/// makes the state connected, stamps the refresh time and updates the
/// printer snapshot; nothing else changes.
pub open spec fn poll_applied(old: AppState, new: AppState, polled: PollResult, now_ms: i64) -> bool {
    let msgs = poll_messages(old, polled);
    &&& log_view(new.events@) == log_all(log_view(old.events@), msgs)
    &&& new.event_scroll == if msgs.len() > 0 { (new.events@.len() - 1) as usize } else { old.event_scroll }
    &&& new.focus == old.focus
    &&& new.config == old.config
    &&& new.machine_profile == old.machine_profile
    &&& new.show_machine == old.show_machine
    &&& new.running_diagnostic == old.running_diagnostic
    &&& new.diagnostic_error == old.diagnostic_error
    &&& new.diagnostic_result == old.diagnostic_result
    &&& match polled {
        PollResult::Unreachable(e) => {
            &&& !new.connected
            &&& new.connecting == old.connecting
            &&& new.connection_error == if old.connected { Some(e) } else { old.connection_error }
            &&& new.last_refresh == old.last_refresh
            &&& new.printer == old.printer
        },
        PollResult::Status(st) => {
            &&& new.connected
            &&& new.connecting == if old.connected { old.connecting } else { false }
            &&& new.connection_error == if old.connected { old.connection_error } else { None }
            &&& new.last_refresh == Some(now_ms)
            &&& status_applied(old.printer, new.printer, st)
        },
    }
}

/// The log after adding a message: appended, the oldest dropped beyond
/// 100.
pub open spec fn logged(old: Seq<TimelineEntry>, new: Seq<TimelineEntry>, message: Seq<char>, level: EventLevel) -> bool {
    let appended_len = old.len() + 1;
    &&& new.len() == if appended_len > MAX_EVENTS { old.len() } else { appended_len }
    &&& new.last().message@ == message && new.last().level == level
    &&& new.drop_last() == if appended_len > MAX_EVENTS { old.drop_first() } else { old }
}

/// The event log never grows past its limit: logging into a log within
/// the limit leaves it within the limit.
pub proof fn lemma_log_stays_bounded(old: Seq<TimelineEntry>, new: Seq<TimelineEntry>, message: Seq<char>, level: EventLevel)
    requires
        old.len() <= MAX_EVENTS,
        logged(old, new, message, level),
    ensures
        new.len() <= MAX_EVENTS,
{
}

impl AppState {
    /// A disconnected state focused on the printer panel.
    pub fn new(config: Config) -> (s: Self)
        ensures
            s.events@.len() == 0,
            s.focus == Focus::Printer,
            s.event_scroll == 0,
            !s.connected,
            !s.connecting,
            s.connection_error is None,
            s.last_refresh is None,
            s.machine_profile is None,
            !s.show_machine,
            !s.running_diagnostic,
            s.diagnostic_error is None,
            s.diagnostic_result is None,
            s.config == config,
            blank_snapshot(s.printer),
    {
        AppState {
            config,
            printer: PrinterSnapshot::empty(),
            events: Vec::new(),
            focus: Focus::Printer,
            event_scroll: 0,
            connected: false,
            connecting: false,
            connection_error: None,
            last_refresh: None,
            machine_profile: None,
            show_machine: false,
            running_diagnostic: false,
            diagnostic_error: None,
            diagnostic_result: None,
        }
    }

    /// Logs a message, keeping the newest 100, and scrolls to it.
    pub fn add_event(&mut self, message: String, level: EventLevel)
        ensures
            logged(old(self).events@, final(self).events@, message@, level),
            final(self).event_scroll == final(self).events@.len() - 1,
            final(self).focus == old(self).focus,
            final(self).connected == old(self).connected,
            final(self).connecting == old(self).connecting,
            final(self).connection_error == old(self).connection_error,
            final(self).last_refresh == old(self).last_refresh,
            final(self).printer == old(self).printer,
            final(self).config == old(self).config,
            final(self).machine_profile == old(self).machine_profile,
            final(self).show_machine == old(self).show_machine,
            final(self).running_diagnostic == old(self).running_diagnostic,
            final(self).diagnostic_error == old(self).diagnostic_error,
            final(self).diagnostic_result == old(self).diagnostic_result,
    {
        let ghost before = self.events@;
        let ghost msg = message@;
        self.events.push(TimelineEntry { message, level });
        if self.events.len() > MAX_EVENTS {
            self.events.remove(0);
            assert(self.events@.drop_last() =~= before.drop_first());
        } else {
            assert(self.events@.drop_last() =~= before);
        }
        self.event_scroll = self.events.len() - 1;
    }

    /// Reacts to a key press: Tab moves the focus to the next panel, Up
    /// and Down scroll the event log when it has the focus, `M` hides the
    /// machine's details; the returned action says whether to quit,
    /// diagnose or load the machine's details.
    pub fn handle_key(&mut self, key: Key) -> (a: KeyAction)
        requires
            key == Key::Down && old(self).focus == Focus::Events ==> old(self).event_scroll < usize::MAX,
        ensures
            a == key_action(key),
            final(self).focus == if key == Key::Tab {
                next_focus(old(self).focus)
            } else {
                old(self).focus
            },
            final(self).event_scroll == scrolled(old(self).focus, old(self).event_scroll, old(self).events@.len(), key),
            final(self).show_machine == if key == Key::Char('M') {
                false
            } else {
                old(self).show_machine
            },
            final(self).events@ == old(self).events@,
            final(self).connected == old(self).connected,
            final(self).connecting == old(self).connecting,
            final(self).running_diagnostic == old(self).running_diagnostic,
    {
        match key {
            Key::Char(c) => {
                if c == 'q' {
                    return KeyAction::Quit;
                } else if c == 'd' {
                    return KeyAction::Diagnose;
                } else if c == 'm' {
                    return KeyAction::ShowMachine;
                } else if c == 'M' {
                    self.show_machine = false;
                }
            },
            Key::Tab => {
                self.focus = match self.focus {
                    Focus::Printer => Focus::Temps,
                    Focus::Temps => Focus::Events,
                    Focus::Events => Focus::Recs,
                    Focus::Recs => Focus::Printer,
                };
            },
            Key::Up => {
                if self.focus == Focus::Events && self.events.len() > 0 {
                    self.event_scroll = self.event_scroll.saturating_sub(1);
                }
            },
            Key::Down => {
                if self.focus == Focus::Events {
                    let last: usize = self.events.len().saturating_sub(1);
                    let next: usize = self.event_scroll + 1;
                    self.event_scroll = if next < last { next } else { last };
                }
            },
            Key::Other => {},
        }
        KeyAction::Continue
    }

    /// "connecting", "disconnected", or the printer's state.
    pub fn status_text(&self) -> (s: &str)
        ensures
            s@ == if self.connecting {
                "connecting"@
            } else if !self.connected {
                "disconnected"@
            } else {
                self.printer.state@
            },
    {
        if self.connecting {
            "connecting"
        } else if !self.connected {
            "disconnected"
        } else {
            self.printer.state.as_str()
        }
    }
}

/// A position coordinate after a toolhead reading.
fn coordinate_after(old: i64, pos: &Vec<Option<i64>>, k: usize) -> (v: i64)
    requires
        k < 4,
    ensures
        v == (if k < pos@.len() && pos@[k as int] is Some { pos@[k as int]->0 } else { old }),
{
    if k < pos.len() {
        match pos[k] {
            Some(x) => x,
            None => old,
        }
    } else {
        old
    }
}

impl PrinterSnapshot {
    /// Takes the printer objects of a reply; returns the event a change
    /// of print state logs, if any.
    pub fn take_objects(&mut self, o: PrinterObjects) -> (ev: Option<(String, EventLevel)>)
        ensures
            objects_applied(*old(self), *final(self), o),
            final(self).hostname == old(self).hostname,
            final(self).klipper_version == old(self).klipper_version,
            final(self).moonraker_version == old(self).moonraker_version,
            match ev {
                Some(e) => seq![(e.0@, e.1)],
                None => Seq::empty(),
            } == object_messages(old(self).state@, o),
    {
        proof {
            reveal_strlit("printing");
            reveal_strlit("complete");
            reveal_strlit("error");
        }
        match o.extruder {
            Some(h) => {
                self.extruder_temp_milli = h.temperature_milli;
                self.extruder_target_milli = h.target_milli;
            },
            None => {},
        }
        match o.heater_bed {
            Some(h) => {
                self.bed_temp_milli = h.temperature_milli;
                self.bed_target_milli = h.target_milli;
            },
            None => {},
        }
        match o.toolhead {
            Some(t) => {
                let p = self.position_milli;
                let np: [i64; 4] = [
                    coordinate_after(p[0], &t.position_milli, 0),
                    coordinate_after(p[1], &t.position_milli, 1),
                    coordinate_after(p[2], &t.position_milli, 2),
                    coordinate_after(p[3], &t.position_milli, 3),
                ];
                self.position_milli = np;
                self.homed_axes = t.homed_axes;
            },
            None => {},
        }
        match o.fan_milli {
            Some(f) => {
                self.fan_speed_milli = f;
            },
            None => {},
        }
        let mut ev: Option<(String, EventLevel)> = None;
        match o.print_stats {
            Some(ps) => {
                if !(ps.state == self.state) {
                    let was_printing = str_eq(&self.state, "printing");
                    let now_printing = str_eq(&ps.state, "printing");
                    if !was_printing && now_printing {
                        ev = Some((String::from_str("Print started"), EventLevel::Info));
                    } else if was_printing && str_eq(&ps.state, "complete") {
                        ev = Some((String::from_str("Print completed"), EventLevel::Info));
                    } else if was_printing && str_eq(&ps.state, "error") {
                        ev = Some((String::from_str("Print failed"), EventLevel::Error));
                    }
                    self.state = ps.state;
                }
                self.print_filename = ps.filename;
                self.print_elapsed_ms = ps.print_duration_ms;
            },
            None => {},
        }
        match o.progress_milli {
            Some(p) => {
                let d: i128 = (p as i128) - (self.print_progress_milli as i128);
                if d > 10 || d < -10 {
                    self.print_progress_milli = p;
                }
            },
            None => {},
        }
        match o.speed_milli {
            Some(v) => {
                self.speed_milli = v;
            },
            None => {},
        }
        ev
    }
}

impl AppState {
    /// Applies one poll of the printer: an unreachable printer drops a
    /// live connection and logs why; a reply (re)connects, stamps the
    /// refresh time, and updates the snapshot, logging print starts,
    /// completions and failures.
    pub fn apply_poll(&mut self, polled: PollResult, now_ms: i64)
        ensures
            poll_applied(*old(self), *final(self), polled, now_ms),
    {
        proof {
            reveal_strlit("Disconnected: ");
            reveal_strlit("Connected to Moonraker");
            reveal_with_fuel(log_all, 3);
        }
        let ghost start = *self;
        match polled {
            PollResult::Unreachable(e) => {
                if self.connected {
                    self.connected = false;
                    let msg = String::from_str("Disconnected: ").concat(e.as_str());
                    self.connection_error = Some(e);
                    let ghost before = self.events@;
                    self.add_event(msg, EventLevel::Error);
                    proof {
                        lemma_logged_view(before, self.events@, msg@, EventLevel::Error);
                        assert(poll_messages(start, polled).drop_first() =~= Seq::<(Seq<char>, EventLevel)>::empty());
                    }
                }
            },
            PollResult::Status(st) => {
                let ghost msgs = poll_messages(start, polled);
                let ghost mid_log = log_view(self.events@);
                if !self.connected {
                    self.connected = true;
                    self.connecting = false;
                    self.connection_error = None;
                    let ghost before = self.events@;
                    self.add_event(String::from_str("Connected to Moonraker"), EventLevel::Info);
                    proof {
                        lemma_logged_view(before, self.events@, "Connected to Moonraker"@, EventLevel::Info);
                        mid_log = log_view(self.events@);
                    }
                }
                self.last_refresh = Some(now_ms);
                self.printer.hostname = st.hostname;
                self.printer.klipper_version = st.klipper_version;
                self.printer.moonraker_version = st.moonraker_version;
                let ghost tail = status_messages(start.printer.state@, st);
                match st.objects {
                    Some(o) => {
                        let ev = self.printer.take_objects(o);
                        match ev {
                            Some(e) => {
                                let ghost before = self.events@;
                                self.add_event(e.0, e.1);
                                proof {
                                    lemma_logged_view(before, self.events@, e.0@, e.1);
                                }
                            },
                            None => {},
                        }
                    },
                    None => {},
                }
                proof {
                    let connect: Seq<(Seq<char>, EventLevel)> = if start.connected {
                        Seq::empty()
                    } else {
                        seq![("Connected to Moonraker"@, EventLevel::Info)]
                    };
                    assert(msgs == connect + tail);
                    assert(tail.len() <= 1);
                    if connect.len() == 0 {
                        assert(msgs =~= tail);
                        if tail.len() == 1 {
                            assert(tail.drop_first() =~= Seq::<(Seq<char>, EventLevel)>::empty());
                        }
                    } else {
                        assert(msgs.drop_first() =~= tail);
                        if tail.len() == 1 {
                            assert(tail.drop_first() =~= Seq::<(Seq<char>, EventLevel)>::empty());
                        }
                    }
                }
            },
        }
    }
}

/// A snapshot read from printer objects alone, with no earlier state:
/// every reported object fills what it covers (the print statistics
/// also the file name; the progress whatever its size), the rest stays
/// as in an empty snapshot.
pub open spec fn parsed_objects(snap: PrinterSnapshot, o: PrinterObjects) -> bool {
    &&& snap.hostname is None && snap.klipper_version is None && snap.moonraker_version is None
    &&& snap.print_remaining_ms is None && snap.current_layer is None && snap.total_layers is None
    &&& match o.extruder {
        Some(h) => snap.extruder_temp_milli == h.temperature_milli && snap.extruder_target_milli == h.target_milli,
        None => snap.extruder_temp_milli == 0 && snap.extruder_target_milli == 0,
    }
    &&& match o.heater_bed {
        Some(h) => snap.bed_temp_milli == h.temperature_milli && snap.bed_target_milli == h.target_milli,
        None => snap.bed_temp_milli == 0 && snap.bed_target_milli == 0,
    }
    &&& match o.toolhead {
        Some(t) => (forall|k: int| 0 <= k < 4 ==> #[trigger] snap.position_milli@[k] == position_after(seq![0i64, 0, 0, 0], t.position_milli@, k))
            && snap.homed_axes == t.homed_axes,
        None => (forall|k: int| 0 <= k < 4 ==> #[trigger] snap.position_milli@[k] == 0) && snap.homed_axes@ == Seq::<char>::empty(),
    }
    &&& snap.fan_speed_milli == match o.fan_milli {
        Some(f) => f,
        None => 0,
    }
    &&& match o.print_stats {
        Some(ps) => snap.state == ps.state && snap.print_filename == ps.filename && snap.print_elapsed_ms == ps.print_duration_ms,
        None => snap.state@ == Seq::<char>::empty() && snap.print_filename is None && snap.print_elapsed_ms == 0,
    }
    &&& snap.print_progress_milli == match o.progress_milli {
        Some(p) => p,
        None => 0,
    }
    &&& snap.speed_milli == match o.speed_milli {
        Some(v) => v,
        None => 0,
    }
}

impl PrinterSnapshot {
    /// Reads a snapshot from printer objects alone.
    pub fn from_objects(o: PrinterObjects) -> (snap: Self)
        ensures
            parsed_objects(snap, o),
    {
        proof {
            reveal_strlit("");
        }
        let mut snap = PrinterSnapshot::empty();
        match o.extruder {
            Some(h) => {
                snap.extruder_temp_milli = h.temperature_milli;
                snap.extruder_target_milli = h.target_milli;
            },
            None => {},
        }
        match o.heater_bed {
            Some(h) => {
                snap.bed_temp_milli = h.temperature_milli;
                snap.bed_target_milli = h.target_milli;
            },
            None => {},
        }
        match o.toolhead {
            Some(t) => {
                let np: [i64; 4] = [
                    coordinate_after(0, &t.position_milli, 0),
                    coordinate_after(0, &t.position_milli, 1),
                    coordinate_after(0, &t.position_milli, 2),
                    coordinate_after(0, &t.position_milli, 3),
                ];
                snap.position_milli = np;
                snap.homed_axes = t.homed_axes;
            },
            None => {},
        }
        match o.fan_milli {
            Some(f) => {
                snap.fan_speed_milli = f;
            },
            None => {},
        }
        match o.print_stats {
            Some(ps) => {
                snap.state = ps.state;
                snap.print_filename = ps.filename;
                snap.print_elapsed_ms = ps.print_duration_ms;
            },
            None => {},
        }
        match o.progress_milli {
            Some(p) => {
                snap.print_progress_milli = p;
            },
            None => {},
        }
        match o.speed_milli {
            Some(v) => {
                snap.speed_milli = v;
            },
            None => {},
        }
        snap
    }
}

/// One recommended action of a diagnosis.
pub struct DiagnosticAction {
    pub description: String,
    /// A command to run, when the diagnosis names one.
    pub suggested_command: Option<String>,
}

/// The result of an AI diagnosis, as the interface shows it: the
/// summary, the confidence in thousandths and the recommended actions
/// in order.
pub struct DiagnosticResult {
    pub summary: String,
    pub confidence_milli: i64,
    pub actions: Vec<DiagnosticAction>,
}

/// A step of an AI diagnostic run from the interface.
pub enum DiagnosticStep {
    /// The diagnostic started.
    Started,
    /// It finished with a result.
    Completed(DiagnosticResult),
    /// It failed, with the error's text.
    Failed(String),
    /// No AI provider could be made, with the error's text.
    ProviderUnavailable(String),
    /// The printer could not be queried, with the error's text.
    PrinterUnreachable(String),
}

/// The message and level a diagnostic step logs.
pub open spec fn diagnostic_message(step: DiagnosticStep) -> (Seq<char>, EventLevel) {
    match step {
        DiagnosticStep::Started => ("Running AI diagnostic..."@, EventLevel::Info),
        DiagnosticStep::Completed(_) => ("Diagnostic complete"@, EventLevel::Info),
        DiagnosticStep::Failed(e) => ("Diagnostic failed: "@ + e@, EventLevel::Error),
        DiagnosticStep::ProviderUnavailable(e) => ("AI provider error: "@ + e@, EventLevel::Error),
        DiagnosticStep::PrinterUnreachable(e) => ("Moonraker error: "@ + e@, EventLevel::Error),
    }
}

/// The diagnostic error a step leaves (`None` when it clears it, the
/// old one when it keeps it).
pub open spec fn diagnostic_error_after(old: Option<Seq<char>>, step: DiagnosticStep) -> Option<Seq<char>> {
    match step {
        DiagnosticStep::Started => None,
        DiagnosticStep::Completed(_) => old,
        DiagnosticStep::Failed(e) => Some(e@),
        DiagnosticStep::ProviderUnavailable(e) => Some("Failed to create AI provider: "@ + e@),
        DiagnosticStep::PrinterUnreachable(e) => Some("Moonraker query failed: "@ + e@),
    }
}

/// Whether a diagnostic is running after a step.
pub open spec fn running_after(old: bool, step: DiagnosticStep) -> bool {
    match step {
        DiagnosticStep::Started => true,
        DiagnosticStep::Completed(_) | DiagnosticStep::Failed(_) => false,
        _ => old,
    }
}

impl AppState {
    /// Records a step of an AI diagnostic: whether one runs, its error,
    /// and the event it logs.
    pub fn apply_diagnostic(&mut self, step: DiagnosticStep)
        ensures
            log_view(final(self).events@) == log_after(
                log_view(old(self).events@),
                diagnostic_message(step).0,
                diagnostic_message(step).1,
            ),
            final(self).event_scroll == final(self).events@.len() - 1,
            final(self).running_diagnostic == running_after(old(self).running_diagnostic, step),
            opt_text(final(self).diagnostic_error) == diagnostic_error_after(opt_text(old(self).diagnostic_error), step),
            final(self).diagnostic_result == match step {
                DiagnosticStep::Completed(result) => Some(result),
                _ => old(self).diagnostic_result,
            },
            final(self).printer == old(self).printer,
            final(self).connected == old(self).connected,
            final(self).connecting == old(self).connecting,
            final(self).connection_error == old(self).connection_error,
            final(self).focus == old(self).focus,
            final(self).show_machine == old(self).show_machine,
            final(self).machine_profile == old(self).machine_profile,
    {
        proof {
            reveal_strlit("Running AI diagnostic...");
            reveal_strlit("Diagnostic complete");
            reveal_strlit("Diagnostic failed: ");
            reveal_strlit("AI provider error: ");
            reveal_strlit("Moonraker error: ");
            reveal_strlit("Failed to create AI provider: ");
            reveal_strlit("Moonraker query failed: ");
        }
        let ghost before = self.events@;
        let ghost expected = diagnostic_message(step);
        let (message, level) = match step {
            DiagnosticStep::Started => {
                self.running_diagnostic = true;
                self.diagnostic_error = None;
                (String::from_str("Running AI diagnostic..."), EventLevel::Info)
            },
            DiagnosticStep::Completed(result) => {
                self.diagnostic_result = Some(result);
                self.running_diagnostic = false;
                (String::from_str("Diagnostic complete"), EventLevel::Info)
            },
            DiagnosticStep::Failed(e) => {
                let m = String::from_str("Diagnostic failed: ").concat(e.as_str());
                self.diagnostic_error = Some(e);
                self.running_diagnostic = false;
                (m, EventLevel::Error)
            },
            DiagnosticStep::ProviderUnavailable(e) => {
                self.diagnostic_error = Some(String::from_str("Failed to create AI provider: ").concat(e.as_str()));
                (String::from_str("AI provider error: ").concat(e.as_str()), EventLevel::Error)
            },
            DiagnosticStep::PrinterUnreachable(e) => {
                self.diagnostic_error = Some(String::from_str("Moonraker query failed: ").concat(e.as_str()));
                (String::from_str("Moonraker error: ").concat(e.as_str()), EventLevel::Error)
            },
        };
        assert(message@ == expected.0 && level == expected.1);
        self.add_event(message, level);
        proof {
            lemma_logged_view(before, self.events@, expected.0, expected.1);
        }
    }
}

/// A number right-aligned in two columns.
pub open spec fn pad2(n: nat) -> Seq<char> {
    if n < 10 { seq![' '] + decimal(n) } else { decimal(n) }
}

/// A number zero-padded to two digits.
pub open spec fn zero2(n: nat) -> Seq<char> {
    if n < 10 { seq!['0'] + decimal(n) } else { decimal(n) }
}

/// `hh:mm:ss` with the hours zero-padded to two digits, or `m:ss` with
/// the minutes in two columns under an hour.
pub open spec fn duration_text(secs: nat) -> Seq<char> {
    let h = secs / 3600;
    let m = (secs % 3600) / 60;
    let s = secs % 60;
    if h > 0 {
        zero2(h) + seq![':'] + zero2(m) + seq![':'] + zero2(s)
    } else {
        pad2(m) + seq![':'] + zero2(s)
    }
}

fn pad2_text(n: u64) -> (t: String)
    ensures
        t@ == pad2(n as nat),
{
    proof {
        reveal_strlit(" ");
    }
    if n < 10 {
        String::from_str(" ").concat(crate::text::u64_to_decimal(n).as_str())
    } else {
        crate::text::u64_to_decimal(n)
    }
}

fn zero2_text(n: u64) -> (t: String)
    ensures
        t@ == zero2(n as nat),
{
    proof {
        reveal_strlit("0");
    }
    if n < 10 {
        String::from_str("0").concat(crate::text::u64_to_decimal(n).as_str())
    } else {
        crate::text::u64_to_decimal(n)
    }
}

/// Renders a duration in seconds as a clock reading.
pub fn format_duration(secs: u64) -> (t: String)
    ensures
        t@ == duration_text(secs as nat),
{
    proof {
        reveal_strlit(":");
    }
    let h = secs / 3600;
    let m = (secs % 3600) / 60;
    let s = secs % 60;
    if h > 0 {
        zero2_text(h).concat(":").concat(zero2_text(m).as_str()).concat(":").concat(zero2_text(s).as_str())
    } else {
        pad2_text(m).concat(":").concat(zero2_text(s).as_str())
    }
}

} // verus!
