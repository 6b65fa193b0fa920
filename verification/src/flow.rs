//! The power-control protocols (power cycle, power off, power on) and the
//! status query, as state machines: each state names the outside work it
//! needs next (an [`Action`]); the answer (an [`Event`]) moves it on.
//! Hub:port is always discovered from a fresh listing, never taken from the
//! caller, and a target that matches several ports is refused.
use vstd::prelude::*;
use crate::text::{bool_text, decimal, decimal_exec, to_string};
use crate::boards::{Boards, ResolvedTarget, TargetView, resolution, resolve_target_with};
use crate::error::{ErrorView, HubError, error_text, result_view};
use crate::jlink::{JlinkEmu, EmuView, emus_view, check_jlink_nickname, materialize_target, materialized, nickname_problem};
use crate::listing::{device_lookup, locate, presence_id, verify_id};
use crate::uhubctl::{power_args, set_power_with, lsusb_shows, lsusb_reports_device};
use crate::last_seen::{law_recall_after_remember, parsed_records, recalled, records_of};
use crate::text::ascii_lower;

verus! {

/// Which operation a flow carries out.
#[derive(Clone, Copy, PartialEq, Eq, Structural, Debug)]
pub enum Op {
    /// Off, hold this many seconds, on, verify the device is back.
    Cycle(u64),
    /// Off, verify the device left.
    Off,
    /// On (at the last-known place if the device is not listed), verify it is back.
    On,
    /// Where the device is and whether lsusb reports it.
    Status,
}

/// Where a flow stands: the outside work it waits for.
#[derive(Clone, Copy, PartialEq, Eq, Structural, Debug)]
pub enum Stage {
    AwaitProbes,
    AwaitListing,
    AwaitRemembered,
    AwaitPowerOff,
    AwaitOffPause,
    AwaitOffPresence,
    AwaitPowerOn,
    AwaitOnPause,
    AwaitOnPresence,
    AwaitRecall,
    AwaitStatusPresence,
    Finished,
}

/// Outside work a flow asks for.
#[derive(Debug)]
pub enum Action {
    /// Run `JLinkExe ShowEmuList`; answer with [`Event::Probes`].
    ListProbes,
    /// Run uhubctl with these arguments; answer with [`Event::Uhubctl`].
    RunUhubctl(Vec<String>),
    /// Record that the target (this key) was seen at location and port,
    /// with the device of this VID:PID; answer with [`Event::Done`].
    Remember(String, String, String, String),
    /// Look up where the target (this key) was last seen; answer with
    /// [`Event::Recalled`].
    Recall(String),
    /// Wait this many seconds; answer with [`Event::Done`].
    Sleep(u64),
    /// Run `lsusb -d` with this id; answer with [`Event::Lsusb`].
    CheckPresent(String),
    /// The flow is over, with this outcome.
    Finish(Result<String, HubError>),
}

/// The answer to an [`Action`].
#[derive(Debug)]
pub enum Event {
    /// The probes `JLinkExe` listed, or why it could not be run.
    Probes(Result<Vec<JlinkEmu>, HubError>),
    /// uhubctl's output, or why it failed.
    Uhubctl(Result<String, HubError>),
    /// The last-known location and port, and the VID:PID recorded there, if any.
    Recalled(Option<(String, String, Option<String>)>),
    /// The record was written, or the wait is over.
    Done,
    /// lsusb's standard output, or `None` when it could not be run.
    Lsusb(Option<String>),
}

/// What an `Action` holds, as character sequences.
pub enum ActionView {
    ListProbes,
    RunUhubctl(Seq<Seq<char>>),
    Remember(Seq<char>, Seq<char>, Seq<char>, Seq<char>),
    Recall(Seq<char>),
    Sleep(u64),
    CheckPresent(Seq<char>),
    Finish(Result<Seq<char>, ErrorView>),
}

/// What an `Event` holds, as character sequences.
pub enum EventView {
    Probes(Result<Seq<EmuView>, ErrorView>),
    Uhubctl(Result<Seq<char>, ErrorView>),
    Recalled(Option<(Seq<char>, Seq<char>, Option<Seq<char>>)>),
    Done,
    Lsusb(Option<Seq<char>>),
}

impl View for Action {
    type V = ActionView;

    open spec fn view(&self) -> ActionView {
        match self {
            Action::ListProbes => ActionView::ListProbes,
            Action::RunUhubctl(a) => ActionView::RunUhubctl(a.deep_view()),
            Action::Remember(k, l, p, i) => ActionView::Remember(k@, l@, p@, i@),
            Action::Recall(k) => ActionView::Recall(k@),
            Action::Sleep(s) => ActionView::Sleep(*s),
            Action::CheckPresent(i) => ActionView::CheckPresent(i@),
            Action::Finish(r) => ActionView::Finish(result_view(*r)),
        }
    }
}

impl View for Event {
    type V = EventView;

    open spec fn view(&self) -> EventView {
        match self {
            Event::Probes(r) => EventView::Probes(
                match r {
                    Ok(es) => Ok(emus_view(es@)),
                    Err(e) => Err(e@),
                },
            ),
            Event::Uhubctl(r) => EventView::Uhubctl(result_view(*r)),
            Event::Recalled(o) => EventView::Recalled(
                match o {
                    Some((l, p, i)) => Some((l@, p@, i.deep_view())),
                    None => None,
                },
            ),
            Event::Done => EventView::Done,
            Event::Lsusb(o) => EventView::Lsusb(o.deep_view()),
        }
    }
}

/// A power-control protocol in progress.
pub struct Flow {
    op: Op,
    stage: Stage,
    target: ResolvedTarget,
    listing_override: Option<String>,
    location: String,
    port: String,
    port_line: String,
    id: String,
    out: String,
    report: String,
    outcome: Result<String, HubError>,
    listing: Ghost<Seq<char>>,
}

/// What a flow holds, as character sequences.
pub struct FlowView {
    pub op: Op,
    pub stage: Stage,
    pub target: TargetView,
    pub listing_override: Option<Seq<char>>,
    pub location: Seq<char>,
    pub port: Seq<char>,
    pub port_line: Seq<char>,
    pub id: Seq<char>,
    pub out: Seq<char>,
    pub report: Seq<char>,
    pub outcome: Result<Seq<char>, ErrorView>,
    /// The listing the port was looked up in.
    pub listing: Seq<char>,
}

impl View for Flow {
    type V = FlowView;

    closed spec fn view(&self) -> FlowView {
        FlowView {
            op: self.op,
            stage: self.stage,
            target: self.target@,
            listing_override: self.listing_override.deep_view(),
            location: self.location@,
            port: self.port@,
            port_line: self.port_line@,
            id: self.id@,
            out: self.out@,
            report: self.report@,
            outcome: result_view(self.outcome),
            listing: self.listing@,
        }
    }
}

// ---------------------------------------------------------------------
// The protocol, as spec functions.

/// The target of a flow before resolution.
pub open spec fn empty_target() -> TargetView {
    TargetView {
        key: Seq::empty(),
        vidpid: Seq::empty(),
        serial: None,
        jlink_nickname: None,
    }
}

/// A flow before anything is known.
pub open spec fn blank(op: Op, listing_override: Option<Seq<char>>) -> FlowView {
    FlowView {
        op: op,
        stage: Stage::AwaitListing,
        target: empty_target(),
        listing_override: listing_override,
        location: Seq::empty(),
        port: Seq::empty(),
        port_line: Seq::empty(),
        id: Seq::empty(),
        out: Seq::empty(),
        report: Seq::empty(),
        outcome: Ok(Seq::empty()),
        listing: Seq::empty(),
    }
}

/// The flow, over with outcome `r`.
pub open spec fn finished(v: FlowView, r: Result<Seq<char>, ErrorView>) -> FlowView {
    FlowView { stage: Stage::Finished, outcome: r, ..v }
}

/// The report line of a located target: `target=KEY (ID) at LOC:PORT [LINE]`.
pub open spec fn located_line(v: FlowView) -> Seq<char> {
    "target="@ + v.target.key + " ("@ + v.id + ") at "@ + v.location + ":"@ + v.port + " ["@
        + v.port_line + "]\n"@
}

/// The outcome of a one-way power change: `target=KEY at LOC:PORT`, the
/// uhubctl output, and what lsusb reported against what was wanted.
pub open spec fn switch_report(v: FlowView, present: bool, want: Seq<char>) -> Seq<char> {
    "target="@ + v.target.key + " at "@ + v.location + ":"@ + v.port + "\n"@ + v.out
        + "\nlsusb present="@ + bool_text(present) + " (want "@ + want + ")\n"@
}

/// Once the port is looked up in a listing.
pub open spec fn after_listing(v: FlowView, listing: Seq<char>) -> FlowView {
    let v = FlowView { listing: listing, ..v };
    match device_lookup(listing, v.target.vidpid, v.target.serial) {
        Ok(f) => {
            let w = FlowView {
                location: f.location,
                port: f.port,
                port_line: f.port_line,
                id: presence_id(v.target, f),
                ..v
            };
            match v.op {
                Op::Cycle(_) => FlowView { stage: Stage::AwaitRemembered, ..w },
                Op::Off => FlowView { stage: Stage::AwaitRemembered, ..w },
                Op::On => FlowView { stage: Stage::AwaitPowerOn, ..w },
                Op::Status => FlowView { stage: Stage::AwaitStatusPresence, ..w },
            }
        },
        Err(e) => match v.op {
            Op::On => FlowView { stage: Stage::AwaitRecall, ..v },
            Op::Status => finished(
                v,
                Ok("target="@ + v.target.key + " not in listing ("@ + error_text(e) + ")\n"@),
            ),
            _ => finished(v, Err(e)),
        },
    }
}

/// Once the target's serial is known: the given listing, or a fresh one.
pub open spec fn after_target(v: FlowView) -> FlowView {
    match v.listing_override {
        Some(l) => after_listing(v, l),
        None => FlowView { stage: Stage::AwaitListing, ..v },
    }
}

/// Once the target is resolved: a SEGGER nickname is first checked and
/// then looked up among the probes, live, on every operation.
pub open spec fn with_target(v: FlowView, rt: TargetView) -> FlowView {
    let v = FlowView { target: rt, ..v };
    match rt.jlink_nickname {
        Some(n) => match nickname_problem(n) {
            Some(e) => finished(v, Err(e)),
            None => FlowView { stage: Stage::AwaitProbes, ..v },
        },
        None => after_target(v),
    }
}

/// How a flow for `op` on `target` begins.
pub open spec fn flow_start(op: Op, target: Seq<char>, boards: Map<Seq<char>, crate::boards::BoardView>, listing_override: Option<Seq<char>>) -> FlowView {
    let v = blank(op, listing_override);
    if op matches Op::Cycle(n) && !(1 <= n <= 120) {
        finished(v, Err(ErrorView::OffSecondsOutOfRange))
    } else {
        match resolution(target, boards) {
            Ok(rt) => with_target(v, rt),
            Err(e) => finished(v, Err(e)),
        }
    }
}

/// The outside work a flow waits for.
pub open spec fn pending(v: FlowView) -> ActionView {
    match v.stage {
        Stage::AwaitProbes => ActionView::ListProbes,
        Stage::AwaitListing => ActionView::RunUhubctl(Seq::empty()),
        Stage::AwaitRemembered => ActionView::Remember(v.target.key, v.location, v.port, v.id),
        Stage::AwaitPowerOff => ActionView::RunUhubctl(power_args(v.location, v.port, "off"@)),
        Stage::AwaitOffPause => ActionView::Sleep(
            match v.op {
                Op::Cycle(n) => n,
                _ => 2,
            },
        ),
        Stage::AwaitOffPresence => ActionView::CheckPresent(v.id),
        Stage::AwaitPowerOn => ActionView::RunUhubctl(power_args(v.location, v.port, "on"@)),
        Stage::AwaitOnPause => ActionView::Sleep(4),
        Stage::AwaitOnPresence => ActionView::CheckPresent(v.id),
        Stage::AwaitRecall => ActionView::Recall(v.target.key),
        Stage::AwaitStatusPresence => ActionView::CheckPresent(v.id),
        Stage::Finished => ActionView::Finish(v.outcome),
    }
}

/// Whether an event answers the work a flow waits for.
pub open spec fn fits(stage: Stage, e: EventView) -> bool {
    match stage {
        Stage::AwaitProbes => e is Probes,
        Stage::AwaitListing => e is Uhubctl,
        Stage::AwaitPowerOff => e is Uhubctl,
        Stage::AwaitPowerOn => e is Uhubctl,
        Stage::AwaitRemembered => e is Done,
        Stage::AwaitOffPause => e is Done,
        Stage::AwaitOnPause => e is Done,
        Stage::AwaitOffPresence => e is Lsusb,
        Stage::AwaitOnPresence => e is Lsusb,
        Stage::AwaitStatusPresence => e is Lsusb,
        Stage::AwaitRecall => e is Recalled,
        Stage::Finished => false,
    }
}

/// The id lsusb is asked about for a target found only in the last-known
/// record: its VID:PID, else the VID:PID recorded with the place (a raw
/// serial is not a valid `lsusb -d` argument), else nothing.
pub open spec fn recalled_id(rt: TargetView, recorded: Option<Seq<char>>) -> Seq<char> {
    if rt.vidpid.len() == 0 {
        match recorded {
            Some(v) => v,
            None => Seq::empty(),
        }
    } else {
        rt.vidpid
    }
}

/// How a flow moves on when the awaited answer comes.
pub open spec fn next(v: FlowView, e: EventView) -> FlowView {
    match (v.stage, e) {
        (Stage::AwaitProbes, EventView::Probes(r)) => match r {
            Err(err) => finished(v, Err(err)),
            Ok(emus) => match materialized(v.target, emus) {
                Ok(rt) => after_target(FlowView { target: rt, ..v }),
                Err(err) => finished(v, Err(err)),
            },
        },
        (Stage::AwaitListing, EventView::Uhubctl(r)) => match r {
            Err(err) => finished(v, Err(err)),
            Ok(l) => after_listing(v, l),
        },
        (Stage::AwaitRemembered, EventView::Done) => match v.op {
            Op::Cycle(_) => FlowView { stage: Stage::AwaitPowerOff, report: located_line(v), ..v },
            _ => FlowView { stage: Stage::AwaitPowerOff, ..v },
        },
        (Stage::AwaitPowerOff, EventView::Uhubctl(r)) => match r {
            Err(err) => finished(v, Err(err)),
            Ok(out) => match v.op {
                Op::Cycle(_) => FlowView {
                    stage: Stage::AwaitOffPause,
                    report: v.report + "--- off ---\n"@ + out + "\n"@,
                    ..v
                },
                _ => FlowView { stage: Stage::AwaitOffPause, out: out, ..v },
            },
        },
        (Stage::AwaitOffPause, EventView::Done) => FlowView { stage: Stage::AwaitOffPresence, ..v },
        (Stage::AwaitOffPresence, EventView::Lsusb(o)) => match v.op {
            Op::Cycle(n) => FlowView {
                stage: Stage::AwaitPowerOn,
                report: v.report + "after "@ + decimal(n as nat) + "s off: lsusb present="@
                    + bool_text(lsusb_shows(o)) + "\n"@,
                ..v
            },
            _ => finished(v, Ok(switch_report(v, lsusb_shows(o), "false"@))),
        },
        (Stage::AwaitPowerOn, EventView::Uhubctl(r)) => match r {
            Err(err) => finished(v, Err(err)),
            Ok(out) => match v.op {
                Op::Cycle(_) => FlowView {
                    stage: Stage::AwaitOnPause,
                    report: v.report + "--- on ---\n"@ + out + "\n"@,
                    ..v
                },
                _ => FlowView { stage: Stage::AwaitOnPause, out: out, ..v },
            },
        },
        (Stage::AwaitOnPause, EventView::Done) => FlowView { stage: Stage::AwaitOnPresence, ..v },
        (Stage::AwaitOnPresence, EventView::Lsusb(o)) => match v.op {
            Op::Cycle(_) => {
                let report = v.report + "after on + 4s: lsusb present="@ + bool_text(lsusb_shows(o))
                    + "\n"@;
                if lsusb_shows(o) {
                    finished(FlowView { report: report, ..v }, Ok(report))
                } else {
                    finished(FlowView { report: report, ..v }, Err(ErrorView::NotReEnumerated(report)))
                }
            },
            _ => finished(v, Ok(switch_report(v, lsusb_shows(o), "true"@))),
        },
        (Stage::AwaitRecall, EventView::Recalled(r)) => match r {
            Some((l, p, vid)) => FlowView {
                stage: Stage::AwaitPowerOn,
                location: l,
                port: p,
                id: recalled_id(v.target, vid),
                ..v
            },
            None => finished(v, Err(ErrorView::NoLastKnown(v.target.key))),
        },
        (Stage::AwaitStatusPresence, EventView::Lsusb(o)) => finished(
            v,
            Ok(located_line(v) + "lsusb present="@ + bool_text(lsusb_shows(o)) + "\n"@),
        ),
        _ => v,
    }
}


// ---------------------------------------------------------------------
// What every flow keeps.

/// The flow's hub:port is the one port that the listing it looked the
/// target up in names for the target.
pub open spec fn located(v: FlowView) -> bool {
    device_lookup(v.listing, v.target.vidpid, v.target.serial) matches Ok(f) && f.location
        == v.location && f.port == v.port && f.port_line == v.port_line
}

/// What holds of every flow: a port is only switched, remembered or
/// reported once it was located in a listing; only a power-on may instead
/// use the last-known place, and only when the listing does not name the
/// target.
pub open spec fn flow_ok(v: FlowView) -> bool {
    match v.stage {
        Stage::AwaitRemembered => located(v) && (v.op == Op::Off || v.op is Cycle),
        Stage::AwaitPowerOff => located(v) && (v.op == Op::Off || v.op is Cycle),
        Stage::AwaitOffPause => located(v) && (v.op == Op::Off || v.op is Cycle),
        Stage::AwaitOffPresence => located(v) && (v.op == Op::Off || v.op is Cycle),
        Stage::AwaitStatusPresence => located(v) && v.op == Op::Status,
        Stage::AwaitPowerOn => on_ok(v),
        Stage::AwaitOnPause => on_ok(v),
        Stage::AwaitOnPresence => on_ok(v),
        Stage::AwaitRecall => v.op == Op::On && device_lookup(
            v.listing,
            v.target.vidpid,
            v.target.serial,
        ) is Err,
        _ => true,
    }
}

/// Switching on: a cycle's located port, or a power-on's located port or
/// (when the listing does not name the target) its last-known place.
pub open spec fn on_ok(v: FlowView) -> bool {
    ||| (v.op is Cycle && located(v))
    ||| (v.op == Op::On && (located(v) || device_lookup(
        v.listing,
        v.target.vidpid,
        v.target.serial,
    ) is Err))
}

proof fn lemma_after_listing_ok(v: FlowView, l: Seq<char>)
    ensures
        flow_ok(after_listing(v, l)),
{
}

proof fn lemma_after_target_ok(v: FlowView)
    ensures
        flow_ok(after_target(v)),
{
    if let Some(l) = v.listing_override {
        lemma_after_listing_ok(v, l);
    }
}

/// Every flow starts in a state that keeps `flow_ok`.
pub proof fn law_start_keeps_located_ports(
    op: Op,
    target: Seq<char>,
    boards: Map<Seq<char>, crate::boards::BoardView>,
    listing_override: Option<Seq<char>>,
)
    ensures
        flow_ok(flow_start(op, target, boards, listing_override)),
{
    let v = blank(op, listing_override);
    if let Ok(rt) = resolution(target, boards) {
        lemma_after_target_ok(FlowView { target: rt, ..v });
    }
}

/// Every answer keeps `flow_ok`: hub:port is re-discovered from a fresh
/// listing on every operation and never taken from the caller, so a hub
/// with no matching device can never be addressed.
pub proof fn law_next_keeps_located_ports(v: FlowView, e: EventView)
    requires
        flow_ok(v),
        fits(v.stage, e),
    ensures
        flow_ok(next(v, e)),
{
    match (v.stage, e) {
        (Stage::AwaitProbes, EventView::Probes(Ok(emus))) => {
            if let Ok(rt) = materialized(v.target, emus) {
                lemma_after_target_ok(FlowView { target: rt, ..v });
            }
        },
        (Stage::AwaitListing, EventView::Uhubctl(Ok(l))) => {
            lemma_after_listing_ok(v, l);
        },
        _ => {},
    }
}

/// The flow after each of the answers in turn.
pub open spec fn run(v: FlowView, es: Seq<EventView>) -> FlowView
    decreases es.len(),
{
    if es.len() == 0 {
        v
    } else {
        run(next(v, es[0]), es.drop_first())
    }
}

/// Each answer fits the work the flow waits for when it comes.
pub open spec fn answers_fit(v: FlowView, es: Seq<EventView>) -> bool
    decreases es.len(),
{
    es.len() == 0 || (fits(v.stage, es[0]) && answers_fit(next(v, es[0]), es.drop_first()))
}

proof fn lemma_run_keeps_ok(v: FlowView, es: Seq<EventView>)
    requires
        flow_ok(v),
        answers_fit(v, es),
    ensures
        flow_ok(run(v, es)),
    decreases es.len(),
{
    if es.len() > 0 {
        law_next_keeps_located_ports(v, es[0]);
        lemma_run_keeps_ok(next(v, es[0]), es.drop_first());
    }
}

proof fn lemma_fit_prefix(v: FlowView, es: Seq<EventView>, k: int)
    requires
        answers_fit(v, es),
        0 <= k <= es.len(),
    ensures
        answers_fit(v, es.take(k)),
    decreases es.len(),
{
    if k > 0 {
        assert(es.take(k).drop_first() =~= es.drop_first().take(k - 1));
        lemma_fit_prefix(next(v, es[0]), es.drop_first(), k - 1);
    }
}

/// Over a whole run, whatever the outside answers: every uhubctl call
/// that switches power in a cycle or a power-off is exactly `-l LOCATION
/// -p PORT -a off|on` for the port that the run's listing names for the
/// target (never a caller-given port, never `-e`); a target the listing
/// does not name, or names several times, is never switched there. Only a
/// power-on may switch a place it did not locate, and only when the
/// listing does not name the target.
pub proof fn law_runs_switch_only_located_ports(
    op: Op,
    target: Seq<char>,
    boards: Map<Seq<char>, crate::boards::BoardView>,
    listing_override: Option<Seq<char>>,
    es: Seq<EventView>,
    k: int,
)
    requires
        answers_fit(flow_start(op, target, boards, listing_override), es),
        0 <= k <= es.len(),
    ensures
        ({
            let v = run(flow_start(op, target, boards, listing_override), es.take(k));
            &&& flow_ok(v)
            &&& (v.stage == Stage::AwaitPowerOff ==> located(v) && pending(v)
                == ActionView::RunUhubctl(power_args(v.location, v.port, "off"@)))
            &&& (v.stage == Stage::AwaitPowerOn && v.op != Op::On ==> located(v) && pending(v)
                == ActionView::RunUhubctl(power_args(v.location, v.port, "on"@)))
            &&& (v.stage == Stage::AwaitPowerOn && v.op == Op::On ==> (located(v) || device_lookup(
                v.listing,
                v.target.vidpid,
                v.target.serial,
            ) is Err))
        }),
{
    let v0 = flow_start(op, target, boards, listing_override);
    law_start_keeps_located_ports(op, target, boards, listing_override);
    lemma_fit_prefix(v0, es, k);
    lemma_run_keeps_ok(v0, es.take(k));
}

/// The power-off and power-on that a cycle or a power-off asks uhubctl for
/// switch the located port: `-l LOCATION -p PORT -a off|on`, duality
/// handling left on so that both USB2 and USB3 sides switch.
pub proof fn law_switches_address_located_port(v: FlowView)
    requires
        flow_ok(v),
        v.stage == Stage::AwaitPowerOff || (v.stage == Stage::AwaitPowerOn && v.op is Cycle),
    ensures
        located(v),
        pending(v) matches ActionView::RunUhubctl(args) && args == power_args(
            v.location,
            v.port,
            if v.stage == Stage::AwaitPowerOff {
                "off"@
            } else {
                "on"@
            },
        ),
{
}

/// A power cycle ends well only when lsusb reports the device after power
/// came back; otherwise it fails with the report so far.
pub proof fn law_cycle_fails_without_reenumeration(v: FlowView, o: Option<Seq<char>>)
    requires
        v.stage == Stage::AwaitOnPresence,
        v.op is Cycle,
    ensures
        next(v, EventView::Lsusb(o)).stage == Stage::Finished,
        next(v, EventView::Lsusb(o)).outcome is Ok <==> lsusb_shows(o),
{
}

/// Verify, don't assume: once uhubctl has switched a port off (in a cycle
/// or a power-off), the flow waits and then asks lsusb about the target's
/// id before it goes on.
pub proof fn law_power_off_is_checked(v: FlowView, out: Seq<char>)
    requires
        flow_ok(v),
        v.stage == Stage::AwaitPowerOff,
    ensures
        ({
            let w = next(v, EventView::Uhubctl(Ok(out)));
            &&& w.stage == Stage::AwaitOffPause
            &&& pending(next(w, EventView::Done)) == ActionView::CheckPresent(v.id)
        }),
{
}

/// Verify, don't assume: once uhubctl has switched a port on, the flow
/// waits four seconds and then asks lsusb about the target's id.
pub proof fn law_power_on_is_checked(v: FlowView, out: Seq<char>)
    requires
        flow_ok(v),
        v.stage == Stage::AwaitPowerOn,
    ensures
        ({
            let w = next(v, EventView::Uhubctl(Ok(out)));
            &&& pending(w) == ActionView::Sleep(4)
            &&& pending(next(w, EventView::Done)) == ActionView::CheckPresent(v.id)
        }),
{
}

/// A SEGGER nickname is resolved live on every operation: once it passes
/// the checks, the flow first asks for the probe list.
pub proof fn law_segger_nickname_resolved_live(
    op: Op,
    target: Seq<char>,
    boards: Map<Seq<char>, crate::boards::BoardView>,
    listing_override: Option<Seq<char>>,
)
    requires
        !(op matches Op::Cycle(n) && !(1 <= n <= 120)),
        resolution(target, boards) matches Ok(rt) && rt.jlink_nickname matches Some(n)
            && nickname_problem(n) is None,
    ensures
        pending(flow_start(op, target, boards, listing_override)) == ActionView::ListProbes,
{
}

/// The report of a power cycle that got through both switches.
pub open spec fn cycle_report(
    located: Seq<char>,
    n: u64,
    off_out: Seq<char>,
    off_present: bool,
    on_out: Seq<char>,
    on_present: bool,
) -> Seq<char> {
    located + "--- off ---\n"@ + off_out + "\n"@ + "after "@ + decimal(n as nat)
        + "s off: lsusb present="@ + bool_text(off_present) + "\n"@ + "--- on ---\n"@ + on_out
        + "\n"@ + "after on + 4s: lsusb present="@ + bool_text(on_present) + "\n"@
}

/// The answers that bring a flow from its start to the port lookup: the
/// probe list where the target has a SEGGER nickname, then a fresh
/// listing unless one was given.
pub open spec fn lookup_answers(
    rt: TargetView,
    emus: Seq<EmuView>,
    listing_override: Option<Seq<char>>,
    listing: Seq<char>,
) -> Seq<EventView> {
    let probes = if rt.jlink_nickname is Some {
        seq![EventView::Probes(Ok(emus))]
    } else {
        Seq::empty()
    };
    let hubs = if listing_override is None {
        seq![EventView::Uhubctl(Ok(listing))]
    } else {
        Seq::empty()
    };
    probes + hubs
}

/// The listing a flow looks its target up in: the given one, else the
/// fresh one.
pub open spec fn listing_used(listing_override: Option<Seq<char>>, listing: Seq<char>) -> Seq<char> {
    match listing_override {
        Some(l) => l,
        None => listing,
    }
}

/// A resolved target that can be looked up with these probes listed: its
/// SEGGER nickname, if it has one, passes the checks and names a probe.
pub open spec fn target_ready(rt: TargetView, emus: Seq<EmuView>) -> bool {
    &&& (rt.jlink_nickname matches Some(n) ==> nickname_problem(n) is None)
    &&& materialized(rt, emus) is Ok
}

proof fn lemma_run_one(v: FlowView, e: EventView)
    ensures
        run(v, seq![e]) == next(v, e),
        answers_fit(v, seq![e]) == fits(v.stage, e),
{
    let s = seq![e];
    assert(s.drop_first() =~= Seq::<EventView>::empty());
    assert(s[0] == e);
    assert(run(next(v, e), Seq::<EventView>::empty()) == next(v, e));
    assert(answers_fit(next(v, e), Seq::<EventView>::empty()));
}

proof fn lemma_run_two(v: FlowView, e: EventView, d: EventView)
    ensures
        run(v, seq![e, d]) == next(next(v, e), d),
        answers_fit(v, seq![e, d]) == (fits(v.stage, e) && fits(next(v, e).stage, d)),
{
    assert(seq![e, d].drop_first() =~= seq![d]);
    lemma_run_one(next(v, e), d);
}

/// The flow after the lookup answers: the target as the probes name it,
/// looked up in the listing used.
#[verifier::spinoff_prover]
#[verifier::rlimit(30)]
proof fn lemma_lookup(
    op: Op,
    target: Seq<char>,
    boards: Map<Seq<char>, crate::boards::BoardView>,
    listing_override: Option<Seq<char>>,
    emus: Seq<EmuView>,
    listing: Seq<char>,
)
    requires
        !(op matches Op::Cycle(n) && !(1 <= n <= 120)),
        resolution(target, boards) matches Ok(rt) && target_ready(rt, emus),
    ensures
        ({
            let rt = resolution(target, boards)->Ok_0;
            let v0 = flow_start(op, target, boards, listing_override);
            let pre = lookup_answers(rt, emus, listing_override, listing);
            &&& answers_fit(v0, pre)
            &&& run(v0, pre) == after_listing(
                FlowView { target: materialized(rt, emus)->Ok_0, ..blank(op, listing_override) },
                listing_used(listing_override, listing),
            )
            &&& (rt.jlink_nickname is Some ==> pending(v0) == ActionView::ListProbes)
            &&& (rt.jlink_nickname is None && listing_override is None ==> pending(v0)
                == ActionView::RunUhubctl(Seq::empty()))
            &&& (rt.jlink_nickname is Some && listing_override is None ==> pending(
                next(v0, EventView::Probes(Ok(emus))),
            ) == ActionView::RunUhubctl(Seq::empty()))
        }),
{
    let rt = resolution(target, boards)->Ok_0;
    let rt2 = materialized(rt, emus)->Ok_0;
    let b = blank(op, listing_override);
    let v0 = flow_start(op, target, boards, listing_override);
    let pre = lookup_answers(rt, emus, listing_override, listing);
    let l = listing_used(listing_override, listing);
    let p = EventView::Probes(Ok(emus));
    let u = EventView::Uhubctl(Ok(listing));
    let w = FlowView { target: rt2, ..b };
    assert(v0 == with_target(b, rt));
    if rt.jlink_nickname is Some {
        assert(v0 == FlowView { stage: Stage::AwaitProbes, target: rt, ..b });
        assert(next(v0, p) == after_target(FlowView { target: rt2, ..v0 }));
        if listing_override is None {
            assert(pre =~= seq![p, u]);
            lemma_run_two(v0, p, u);
            assert(next(v0, p) == w);
            assert(next(w, u) == after_listing(w, l));
        } else {
            assert(pre =~= seq![p]);
            lemma_run_one(v0, p);
            assert(after_listing(FlowView { target: rt2, ..v0 }, l) == after_listing(w, l));
        }
    } else {
        assert(rt2 == rt);
        if listing_override is None {
            assert(pre =~= seq![u]);
            lemma_run_one(v0, u);
            assert(v0 == w);
        } else {
            assert(pre =~= Seq::<EventView>::empty());
            assert(v0 == after_listing(w, l));
        }
    }
}

/// The whole power cycle of a target that the listing names: read the
/// probes where the target has a SEGGER nickname, list the hubs unless a
/// listing was given, remember the port, switch it off, hold, check,
/// switch it on, wait four seconds, check; the report shows each step,
/// and the cycle fails when the device did not come back.
#[verifier::spinoff_prover]
#[verifier::rlimit(30)]
pub proof fn law_cycle_protocol(
    target: Seq<char>,
    n: u64,
    boards: Map<Seq<char>, crate::boards::BoardView>,
    listing_override: Option<Seq<char>>,
    emus: Seq<EmuView>,
    listing: Seq<char>,
    off_out: Seq<char>,
    off_lsusb: Option<Seq<char>>,
    on_out: Seq<char>,
    on_lsusb: Option<Seq<char>>,
)
    requires
        1 <= n <= 120,
        resolution(target, boards) matches Ok(rt) && target_ready(rt, emus) && ({
            let rt2 = materialized(rt, emus)->Ok_0;
            device_lookup(listing_used(listing_override, listing), rt2.vidpid, rt2.serial) is Ok
        }),
    ensures
        ({
            let rt = resolution(target, boards)->Ok_0;
            let rt2 = materialized(rt, emus)->Ok_0;
            let f = device_lookup(listing_used(listing_override, listing), rt2.vidpid, rt2.serial)->Ok_0;
            let id = presence_id(rt2, f);
            let v0 = flow_start(Op::Cycle(n), target, boards, listing_override);
            let pre = lookup_answers(rt, emus, listing_override, listing);
            let v1 = run(v0, pre);
            let v2 = next(v1, EventView::Done);
            let v3 = next(v2, EventView::Uhubctl(Ok(off_out)));
            let v4 = next(v3, EventView::Done);
            let v5 = next(v4, EventView::Lsusb(off_lsusb));
            let v6 = next(v5, EventView::Uhubctl(Ok(on_out)));
            let v7 = next(v6, EventView::Done);
            let v8 = next(v7, EventView::Lsusb(on_lsusb));
            let located = "target="@ + rt.key + " ("@ + id + ") at "@ + f.location + ":"@ + f.port
                + " ["@ + f.port_line + "]\n"@;
            let report = cycle_report(
                located,
                n,
                off_out,
                lsusb_shows(off_lsusb),
                on_out,
                lsusb_shows(on_lsusb),
            );
            &&& answers_fit(v0, pre)
            &&& (rt.jlink_nickname is Some ==> pending(v0) == ActionView::ListProbes)
            &&& (rt.jlink_nickname is None && listing_override is None ==> pending(v0)
                == ActionView::RunUhubctl(Seq::empty()))
            &&& (rt.jlink_nickname is Some && listing_override is None ==> pending(
                next(v0, EventView::Probes(Ok(emus))),
            ) == ActionView::RunUhubctl(Seq::empty()))
            &&& pending(v1) == ActionView::Remember(rt.key, f.location, f.port, id)
            &&& pending(v2) == ActionView::RunUhubctl(power_args(f.location, f.port, "off"@))
            &&& pending(v3) == ActionView::Sleep(n)
            &&& pending(v4) == ActionView::CheckPresent(id)
            &&& pending(v5) == ActionView::RunUhubctl(power_args(f.location, f.port, "on"@))
            &&& pending(v6) == ActionView::Sleep(4)
            &&& pending(v7) == ActionView::CheckPresent(id)
            &&& pending(v8) == ActionView::Finish(
                if lsusb_shows(on_lsusb) {
                    Ok(report)
                } else {
                    Err(ErrorView::NotReEnumerated(report))
                },
            )
        }),
{
    let rt = resolution(target, boards)->Ok_0;
    let rt2 = materialized(rt, emus)->Ok_0;
    let f = device_lookup(listing_used(listing_override, listing), rt2.vidpid, rt2.serial)->Ok_0;
    lemma_lookup(Op::Cycle(n), target, boards, listing_override, emus, listing);
    let v0 = flow_start(Op::Cycle(n), target, boards, listing_override);
    let v1 = run(v0, lookup_answers(rt, emus, listing_override, listing));
    let v2 = next(v1, EventView::Done);
    let v3 = next(v2, EventView::Uhubctl(Ok(off_out)));
    let v4 = next(v3, EventView::Done);
    let v5 = next(v4, EventView::Lsusb(off_lsusb));
    let v6 = next(v5, EventView::Uhubctl(Ok(on_out)));
    let v7 = next(v6, EventView::Done);
    assert(rt2.key == rt.key);
    assert(v1.stage == Stage::AwaitRemembered);
    assert(v2.report == located_line(v1));
    assert(v7.stage == Stage::AwaitOnPresence);
    let located = "target="@ + rt.key + " ("@ + presence_id(rt2, f) + ") at "@ + f.location
        + ":"@ + f.port + " ["@ + f.port_line + "]\n"@;
    let report = cycle_report(
        located,
        n,
        off_out,
        lsusb_shows(off_lsusb),
        on_out,
        lsusb_shows(on_lsusb),
    );
    let r8 = v7.report + "after on + 4s: lsusb present="@ + bool_text(lsusb_shows(on_lsusb)) + "\n"@;
    assert(r8 =~= report);
}

#[verifier::spinoff_prover]
#[verifier::rlimit(30)]
proof fn lemma_off_steps(v: FlowView, out: Seq<char>, o: Option<Seq<char>>)
    requires
        v.stage == Stage::AwaitRemembered,
        v.op == Op::Off,
    ensures
        ({
            let v2 = next(v, EventView::Done);
            let v3 = next(v2, EventView::Uhubctl(Ok(out)));
            let v4 = next(v3, EventView::Done);
            &&& pending(v) == ActionView::Remember(v.target.key, v.location, v.port, v.id)
            &&& pending(v2) == ActionView::RunUhubctl(power_args(v.location, v.port, "off"@))
            &&& pending(v3) == ActionView::Sleep(2)
            &&& pending(v4) == ActionView::CheckPresent(v.id)
            &&& pending(next(v4, EventView::Lsusb(o))) == ActionView::Finish(
                Ok(
                    "target="@ + v.target.key + " at "@ + v.location + ":"@ + v.port + "\n"@ + out
                        + "\nlsusb present="@ + bool_text(lsusb_shows(o)) + " (want false)\n"@,
                ),
            )
        }),
{
    reveal_strlit(" (want ");
    reveal_strlit("false");
    reveal_strlit(")\n");
    reveal_strlit(" (want false)\n");
    let x = "target="@ + v.target.key + " at "@ + v.location + ":"@ + v.port + "\n"@ + out
        + "\nlsusb present="@ + bool_text(lsusb_shows(o));
    assert(x + " (want "@ + "false"@ + ")\n"@ =~= x + " (want false)\n"@);
}

#[verifier::spinoff_prover]
#[verifier::rlimit(30)]
proof fn lemma_on_steps(v: FlowView, out: Seq<char>, o: Option<Seq<char>>)
    requires
        v.stage == Stage::AwaitPowerOn,
        v.op == Op::On,
    ensures
        ({
            let v3 = next(v, EventView::Uhubctl(Ok(out)));
            let v4 = next(v3, EventView::Done);
            &&& pending(v) == ActionView::RunUhubctl(power_args(v.location, v.port, "on"@))
            &&& pending(v3) == ActionView::Sleep(4)
            &&& pending(v4) == ActionView::CheckPresent(v.id)
            &&& pending(next(v4, EventView::Lsusb(o))) == ActionView::Finish(
                Ok(
                    "target="@ + v.target.key + " at "@ + v.location + ":"@ + v.port + "\n"@ + out
                        + "\nlsusb present="@ + bool_text(lsusb_shows(o)) + " (want true)\n"@,
                ),
            )
        }),
{
    reveal_strlit(" (want ");
    reveal_strlit("true");
    reveal_strlit(")\n");
    reveal_strlit(" (want true)\n");
    let x = "target="@ + v.target.key + " at "@ + v.location + ":"@ + v.port + "\n"@ + out
        + "\nlsusb present="@ + bool_text(lsusb_shows(o));
    assert(x + " (want "@ + "true"@ + ")\n"@ =~= x + " (want true)\n"@);
}

#[verifier::spinoff_prover]
#[verifier::rlimit(30)]
proof fn lemma_recall_steps(v: FlowView, r: Option<(Seq<char>, Seq<char>, Option<Seq<char>>)>)
    requires
        v.stage == Stage::AwaitRecall,
        v.op == Op::On,
    ensures
        pending(v) == ActionView::Recall(v.target.key),
        ({
            let w = next(v, EventView::Recalled(r));
            match r {
                Some((l, p, i)) => w.stage == Stage::AwaitPowerOn && w.op == Op::On && w.target
                    == v.target && w.location == l && w.port == p && w.id == recalled_id(
                    v.target,
                    i,
                ),
                None => pending(w) == ActionView::Finish(Err(ErrorView::NoLastKnown(v.target.key))),
            }
        }),
{
}

/// The whole power-off of a target that the listing names: read the
/// probes where the target has a SEGGER nickname, list the hubs, remember
/// the port, switch it off, wait two seconds, ask lsusb, and report the
/// place, uhubctl's output and whether the device is still listed.
#[verifier::spinoff_prover]
#[verifier::rlimit(30)]
pub proof fn law_power_off_protocol(
    target: Seq<char>,
    boards: Map<Seq<char>, crate::boards::BoardView>,
    emus: Seq<EmuView>,
    listing: Seq<char>,
    out: Seq<char>,
    o: Option<Seq<char>>,
)
    requires
        resolution(target, boards) matches Ok(rt) && target_ready(rt, emus) && ({
            let rt2 = materialized(rt, emus)->Ok_0;
            device_lookup(listing, rt2.vidpid, rt2.serial) is Ok
        }),
    ensures
        ({
            let rt = resolution(target, boards)->Ok_0;
            let rt2 = materialized(rt, emus)->Ok_0;
            let f = device_lookup(listing, rt2.vidpid, rt2.serial)->Ok_0;
            let id = presence_id(rt2, f);
            let v0 = flow_start(Op::Off, target, boards, None);
            let pre = lookup_answers(rt, emus, None, listing);
            let v1 = run(v0, pre);
            let v2 = next(v1, EventView::Done);
            let v3 = next(v2, EventView::Uhubctl(Ok(out)));
            let v4 = next(v3, EventView::Done);
            &&& answers_fit(v0, pre)
            &&& pending(v0) == if rt.jlink_nickname is Some {
                ActionView::ListProbes
            } else {
                ActionView::RunUhubctl(Seq::empty())
            }
            &&& pending(v1) == ActionView::Remember(rt.key, f.location, f.port, id)
            &&& pending(v2) == ActionView::RunUhubctl(power_args(f.location, f.port, "off"@))
            &&& pending(v3) == ActionView::Sleep(2)
            &&& pending(v4) == ActionView::CheckPresent(id)
            &&& pending(next(v4, EventView::Lsusb(o))) == ActionView::Finish(
                Ok(
                    "target="@ + rt.key + " at "@ + f.location + ":"@ + f.port + "\n"@ + out
                        + "\nlsusb present="@ + bool_text(lsusb_shows(o)) + " (want false)\n"@,
                ),
            )
        }),
{
    lemma_lookup(Op::Off, target, boards, None, emus, listing);
    let rt = resolution(target, boards)->Ok_0;
    let rt2 = materialized(rt, emus)->Ok_0;
    let f = device_lookup(listing, rt2.vidpid, rt2.serial)->Ok_0;
    assert(rt2.key == rt.key);
    let v1 = run(flow_start(Op::Off, target, boards, None), lookup_answers(rt, emus, None, listing));
    assert(v1.stage == Stage::AwaitRemembered && v1.op == Op::Off && v1.target == rt2);
    assert(v1.location == f.location && v1.port == f.port && v1.id == presence_id(rt2, f));
    lemma_off_steps(v1, out, o);
}

/// A power cycle or a power-off of a target that the listing does not
/// name, or names more than once, fails with the lookup's error and
/// switches nothing.
#[verifier::spinoff_prover]
#[verifier::rlimit(30)]
pub proof fn law_unlocated_target_is_not_switched(
    op: Op,
    target: Seq<char>,
    boards: Map<Seq<char>, crate::boards::BoardView>,
    listing_override: Option<Seq<char>>,
    emus: Seq<EmuView>,
    listing: Seq<char>,
)
    requires
        op == Op::Off || (op matches Op::Cycle(n) && 1 <= n <= 120),
        resolution(target, boards) matches Ok(rt) && target_ready(rt, emus) && ({
            let rt2 = materialized(rt, emus)->Ok_0;
            device_lookup(listing_used(listing_override, listing), rt2.vidpid, rt2.serial) is Err
        }),
    ensures
        ({
            let rt = resolution(target, boards)->Ok_0;
            let rt2 = materialized(rt, emus)->Ok_0;
            let e = device_lookup(listing_used(listing_override, listing), rt2.vidpid, rt2.serial)->Err_0;
            let v0 = flow_start(op, target, boards, listing_override);
            let pre = lookup_answers(rt, emus, listing_override, listing);
            &&& answers_fit(v0, pre)
            &&& pending(run(v0, pre)) == ActionView::Finish(Err(e))
            &&& forall|ev: EventView| !fits(run(v0, pre).stage, ev)
        }),
{
    lemma_lookup(op, target, boards, listing_override, emus, listing);
    let rt = resolution(target, boards)->Ok_0;
    let rt2 = materialized(rt, emus)->Ok_0;
    let l = listing_used(listing_override, listing);
    let e = device_lookup(l, rt2.vidpid, rt2.serial)->Err_0;
    let w = FlowView { target: rt2, ..blank(op, listing_override) };
    assert(after_listing(w, l) == finished(FlowView { listing: l, ..w }, Err(e)));
}

proof fn lemma_run_push(v: FlowView, es: Seq<EventView>, e: EventView)
    ensures
        run(v, es.push(e)) == next(run(v, es), e),
        answers_fit(v, es.push(e)) == (answers_fit(v, es) && fits(run(v, es).stage, e)),
    decreases es.len(),
{
    if es.len() == 0 {
        lemma_run_one(v, e);
        assert(es.push(e) =~= seq![e]);
    } else {
        assert(es.push(e).drop_first() =~= es.drop_first().push(e));
        lemma_run_push(next(v, es[0]), es.drop_first(), e);
    }
}

proof fn lemma_run_keeps_op(v: FlowView, es: Seq<EventView>)
    ensures
        run(v, es).op == v.op,
    decreases es.len(),
{
    if es.len() > 0 {
        assert(next(v, es[0]).op == v.op);
        lemma_run_keeps_op(next(v, es[0]), es.drop_first());
    }
}

#[verifier::spinoff_prover]
#[verifier::rlimit(30)]
proof fn lemma_into_power_off(u: FlowView, e: EventView)
    requires
        fits(u.stage, e),
        next(u, e).stage == Stage::AwaitPowerOff,
    ensures
        u.stage == Stage::AwaitRemembered,
        e == EventView::Done,
        next(u, e).target == u.target,
        next(u, e).location == u.location,
        next(u, e).port == u.port,
        next(u, e).id == u.id,
{
    match u.stage {
        Stage::AwaitProbes => {
            if let EventView::Probes(Ok(emus)) = e {
                if let Ok(rt) = materialized(u.target, emus) {
                    let w = FlowView { target: rt, ..u };
                    if let Some(l) = w.listing_override {
                        assert(after_listing(w, l).stage != Stage::AwaitPowerOff);
                    }
                }
            }
        },
        Stage::AwaitListing => {
            if let EventView::Uhubctl(Ok(l)) = e {
                assert(after_listing(u, l).stage != Stage::AwaitPowerOff);
            }
        },
        _ => {},
    }
}

/// Over a whole run of a power cycle or a power-off, whatever the outside
/// answers: the off switch is only ever asked for right after the place
/// was remembered and the record written. The state just before asked to
/// remember the target's key with the very location, port and id that
/// the off switch then addresses, and the answer was `Done`.
#[verifier::spinoff_prover]
#[verifier::rlimit(30)]
pub proof fn law_place_remembered_before_off(
    op: Op,
    target: Seq<char>,
    boards: Map<Seq<char>, crate::boards::BoardView>,
    listing_override: Option<Seq<char>>,
    es: Seq<EventView>,
    k: int,
)
    requires
        answers_fit(flow_start(op, target, boards, listing_override), es),
        0 <= k <= es.len(),
        run(flow_start(op, target, boards, listing_override), es.take(k)).stage
            == Stage::AwaitPowerOff,
    ensures
        ({
            let v0 = flow_start(op, target, boards, listing_override);
            let v = run(v0, es.take(k));
            let u = run(v0, es.take(k - 1));
            &&& k >= 1
            &&& es[k - 1] == EventView::Done
            &&& pending(u) == ActionView::Remember(v.target.key, v.location, v.port, v.id)
            &&& located(u)
            &&& pending(v) == ActionView::RunUhubctl(power_args(v.location, v.port, "off"@))
        }),
{
    let v0 = flow_start(op, target, boards, listing_override);
    law_start_keeps_located_ports(op, target, boards, listing_override);
    lemma_fit_prefix(v0, es, k);
    lemma_run_keeps_ok(v0, es.take(k));
    if k == 0 {
        assert(es.take(0) =~= Seq::<EventView>::empty());
        let b = blank(op, listing_override);
        if let Ok(rt) = resolution(target, boards) {
            let w = FlowView { target: rt, ..b };
            if let Some(l) = w.listing_override {
                assert(after_listing(w, l).stage != Stage::AwaitPowerOff);
            }
        }
        assert(false);
    } else {
        let s = es.take(k - 1);
        assert(es.take(k) =~= s.push(es[k - 1]));
        lemma_run_push(v0, s, es[k - 1]);
        lemma_fit_prefix(v0, es, k - 1);
        lemma_run_keeps_ok(v0, s);
        lemma_into_power_off(run(v0, s), es[k - 1]);
    }
}

/// A status query never switches, remembers or recalls anything: over a
/// whole run, whatever the outside answers, it only ever asks for the
/// probe list, a listing (uhubctl with no arguments), lsusb, or finishes.
#[verifier::spinoff_prover]
#[verifier::rlimit(30)]
pub proof fn law_status_never_switches(
    target: Seq<char>,
    boards: Map<Seq<char>, crate::boards::BoardView>,
    listing_override: Option<Seq<char>>,
    es: Seq<EventView>,
    k: int,
)
    requires
        answers_fit(flow_start(Op::Status, target, boards, listing_override), es),
        0 <= k <= es.len(),
    ensures
        ({
            let v = run(flow_start(Op::Status, target, boards, listing_override), es.take(k));
            ||| pending(v) == ActionView::ListProbes
            ||| pending(v) == ActionView::RunUhubctl(Seq::empty())
            ||| pending(v) is CheckPresent
            ||| pending(v) is Finish
        }),
{
    let v0 = flow_start(Op::Status, target, boards, listing_override);
    law_start_keeps_located_ports(Op::Status, target, boards, listing_override);
    lemma_fit_prefix(v0, es, k);
    lemma_run_keeps_ok(v0, es.take(k));
    lemma_run_keeps_op(v0, es.take(k));
    assert(v0.op == Op::Status);
    lemma_status_asks(run(v0, es.take(k)));
}

proof fn lemma_status_asks(v: FlowView)
    requires
        flow_ok(v),
        v.op == Op::Status,
    ensures
        pending(v) == ActionView::ListProbes || pending(v) == ActionView::RunUhubctl(Seq::empty())
            || pending(v) is CheckPresent || pending(v) is Finish,
{
}

/// The whole status query: a target that cannot be resolved fails; one
/// that the listing does not name (or names more than once) is reported as
/// not in the listing, which is no error; one that it names is reported
/// with its place and what lsusb says of it.
#[verifier::spinoff_prover]
#[verifier::rlimit(30)]
pub proof fn law_status_report(
    target: Seq<char>,
    boards: Map<Seq<char>, crate::boards::BoardView>,
    emus: Seq<EmuView>,
    listing: Seq<char>,
    o: Option<Seq<char>>,
)
    ensures
        resolution(target, boards) matches Err(e) ==> pending(
            flow_start(Op::Status, target, boards, None),
        ) == ActionView::Finish(Err(e)),
        resolution(target, boards) matches Ok(rt) ==> target_ready(rt, emus) ==> ({
            let rt2 = materialized(rt, emus)->Ok_0;
            let v0 = flow_start(Op::Status, target, boards, None);
            let pre = lookup_answers(rt, emus, None, listing);
            let v1 = run(v0, pre);
            &&& answers_fit(v0, pre)
            &&& match device_lookup(listing, rt2.vidpid, rt2.serial) {
                Err(e) => pending(v1) == ActionView::Finish(
                    Ok("target="@ + rt.key + " not in listing ("@ + error_text(e) + ")\n"@),
                ),
                Ok(f) => {
                    let id = presence_id(rt2, f);
                    &&& pending(v1) == ActionView::CheckPresent(id)
                    &&& pending(next(v1, EventView::Lsusb(o))) == ActionView::Finish(
                        Ok(
                            "target="@ + rt.key + " ("@ + id + ") at "@ + f.location + ":"@
                                + f.port + " ["@ + f.port_line + "]\n"@ + "lsusb present="@
                                + bool_text(lsusb_shows(o)) + "\n"@,
                        ),
                    )
                },
            }
        }),
{
    if let Ok(rt) = resolution(target, boards) {
        if target_ready(rt, emus) {
            lemma_lookup(Op::Status, target, boards, None, emus, listing);
            let rt2 = materialized(rt, emus)->Ok_0;
            assert(rt2.key == rt.key);
            let w = FlowView { target: rt2, ..blank(Op::Status, None) };
            let v1 = run(flow_start(Op::Status, target, boards, None), lookup_answers(rt, emus, None, listing));
            assert(v1 == after_listing(w, listing));
            match device_lookup(listing, rt2.vidpid, rt2.serial) {
                Err(e) => {
                    assert(v1.stage == Stage::Finished);
                },
                Ok(f) => {
                    assert(v1.stage == Stage::AwaitStatusPresence);
                    assert(v1.id == presence_id(rt2, f) && v1.location == f.location);
                    assert(v1.port == f.port && v1.port_line == f.port_line && v1.target == rt2);
                },
            }
        }
    }
}

/// Whatever the operation, once the listing names the target the flow
/// holds the located port and asks lsusb about the id the located port
/// gives the target (its VID:PID, else the one on the port line): a
/// power-on that finds its board asks about the same id as a status query,
/// a power-off or a cycle would.
pub proof fn law_located_flows_share_presence_id(v: FlowView, listing: Seq<char>, other: Op)
    requires
        device_lookup(listing, v.target.vidpid, v.target.serial) is Ok,
    ensures
        ({
            let f = device_lookup(listing, v.target.vidpid, v.target.serial)->Ok_0;
            let w = after_listing(v, listing);
            &&& w.id == presence_id(v.target, f)
            &&& w.location == f.location && w.port == f.port && w.port_line == f.port_line
            &&& after_listing(FlowView { op: other, ..v }, listing).id == w.id
        }),
{
}

/// The whole power-on of a target that the listing names: read the probes
/// where the target has a SEGGER nickname, list the hubs, switch the
/// located port on, wait four seconds, ask lsusb about the id the located
/// port gives the target, and report the place, uhubctl's output and
/// whether the device is back.
#[verifier::spinoff_prover]
#[verifier::rlimit(30)]
pub proof fn law_power_on_located_protocol(
    target: Seq<char>,
    boards: Map<Seq<char>, crate::boards::BoardView>,
    emus: Seq<EmuView>,
    listing: Seq<char>,
    out: Seq<char>,
    o: Option<Seq<char>>,
)
    requires
        resolution(target, boards) matches Ok(rt) && target_ready(rt, emus) && ({
            let rt2 = materialized(rt, emus)->Ok_0;
            device_lookup(listing, rt2.vidpid, rt2.serial) is Ok
        }),
    ensures
        ({
            let rt = resolution(target, boards)->Ok_0;
            let rt2 = materialized(rt, emus)->Ok_0;
            let f = device_lookup(listing, rt2.vidpid, rt2.serial)->Ok_0;
            let id = presence_id(rt2, f);
            let v0 = flow_start(Op::On, target, boards, None);
            let pre = lookup_answers(rt, emus, None, listing);
            let v1 = run(v0, pre);
            let v3 = next(v1, EventView::Uhubctl(Ok(out)));
            let v4 = next(v3, EventView::Done);
            &&& answers_fit(v0, pre)
            &&& pending(v1) == ActionView::RunUhubctl(power_args(f.location, f.port, "on"@))
            &&& pending(v3) == ActionView::Sleep(4)
            &&& pending(v4) == ActionView::CheckPresent(id)
            &&& pending(next(v4, EventView::Lsusb(o))) == ActionView::Finish(
                Ok(
                    "target="@ + rt.key + " at "@ + f.location + ":"@ + f.port + "\n"@ + out
                        + "\nlsusb present="@ + bool_text(lsusb_shows(o)) + " (want true)\n"@,
                ),
            )
        }),
{
    lemma_lookup(Op::On, target, boards, None, emus, listing);
    let rt = resolution(target, boards)->Ok_0;
    let rt2 = materialized(rt, emus)->Ok_0;
    let f = device_lookup(listing, rt2.vidpid, rt2.serial)->Ok_0;
    assert(rt2.key == rt.key);
    let v1 = run(flow_start(Op::On, target, boards, None), lookup_answers(rt, emus, None, listing));
    assert(v1.stage == Stage::AwaitPowerOn && v1.op == Op::On && v1.target == rt2);
    assert(v1.location == f.location && v1.port == f.port && v1.id == presence_id(rt2, f));
    lemma_on_steps(v1, out, o);
}

/// A power-on of a target that the listing does not name (it is off, so
/// absent) falls back to where it was last seen; with no such record it
/// fails and switches nothing.
#[verifier::spinoff_prover]
#[verifier::rlimit(30)]
pub proof fn law_power_on_falls_back_to_last_known(
    target: Seq<char>,
    boards: Map<Seq<char>, crate::boards::BoardView>,
    emus: Seq<EmuView>,
    listing: Seq<char>,
    location: Seq<char>,
    port: Seq<char>,
    recorded: Option<Seq<char>>,
)
    requires
        resolution(target, boards) matches Ok(rt) && target_ready(rt, emus) && ({
            let rt2 = materialized(rt, emus)->Ok_0;
            device_lookup(listing, rt2.vidpid, rt2.serial) is Err
        }),
    ensures
        ({
            let rt = resolution(target, boards)->Ok_0;
            let v0 = flow_start(Op::On, target, boards, None);
            let pre = lookup_answers(rt, emus, None, listing);
            let v1 = run(v0, pre);
            &&& answers_fit(v0, pre)
            &&& pending(v1) == ActionView::Recall(rt.key)
            &&& pending(next(v1, EventView::Recalled(Some((location, port, recorded)))))
                == ActionView::RunUhubctl(power_args(location, port, "on"@))
            &&& pending(next(v1, EventView::Recalled(None))) == ActionView::Finish(
                Err(ErrorView::NoLastKnown(rt.key)),
            )
        }),
{
    lemma_lookup(Op::On, target, boards, None, emus, listing);
    let rt = resolution(target, boards)->Ok_0;
    let rt2 = materialized(rt, emus)->Ok_0;
    assert(rt2.key == rt.key);
    let w = FlowView { target: rt2, ..blank(Op::On, None) };
    let v1 = run(flow_start(Op::On, target, boards, None), lookup_answers(rt, emus, None, listing));
    assert(v1 == FlowView { stage: Stage::AwaitRecall, listing: listing, ..w });
    lemma_recall_steps(v1, Some((location, port, recorded)));
    lemma_recall_steps(v1, None);
    let w1 = next(v1, EventView::Recalled(Some((location, port, recorded))));
    lemma_on_steps(w1, Seq::empty(), None);
}

/// Where a power-off found a board is where a later power-on of the same
/// target switches power on once the listing no longer names it (the board
/// is off, so absent): the power-off records the place in the state text,
/// the power-on recalls it from there, switches that port on, waits four
/// seconds, asks lsusb about the target's VID:PID (or the one recorded
/// with the place), and reports the place, uhubctl's output and whether
/// the device is back. A SEGGER nickname is resolved afresh each time.
#[verifier::spinoff_prover]
#[verifier::rlimit(30)]
pub proof fn law_power_on_at_remembered_place(
    target: Seq<char>,
    boards: Map<Seq<char>, crate::boards::BoardView>,
    emus_off: Seq<EmuView>,
    listing_off: Seq<char>,
    emus_on: Seq<EmuView>,
    listing_on: Seq<char>,
    state: Option<Seq<char>>,
    text: Seq<char>,
    out: Seq<char>,
    o: Option<Seq<char>>,
)
    requires
        resolution(target, boards) matches Ok(rt) && target_ready(rt, emus_off) && target_ready(
            rt,
            emus_on,
        ) && ({
            let off = materialized(rt, emus_off)->Ok_0;
            let on = materialized(rt, emus_on)->Ok_0;
            &&& device_lookup(listing_off, off.vidpid, off.serial) is Ok
            &&& device_lookup(listing_on, on.vidpid, on.serial) is Err
        }),
        ({
            let rt = resolution(target, boards)->Ok_0;
            let off1 = run(
                flow_start(Op::Off, target, boards, None),
                lookup_answers(rt, emus_off, None, listing_off),
            );
            pending(off1) matches ActionView::Remember(k, l, p, i) && parsed_records(text) == Some(
                records_of(state).insert(ascii_lower(k), Some((l, p, Some(i)))),
            )
        }),
    ensures
        ({
            let rt = resolution(target, boards)->Ok_0;
            let off = materialized(rt, emus_off)->Ok_0;
            let f = device_lookup(listing_off, off.vidpid, off.serial)->Ok_0;
            let id = presence_id(off, f);
            let on0 = flow_start(Op::On, target, boards, None);
            let pre = lookup_answers(rt, emus_on, None, listing_on);
            let on1 = run(on0, pre);
            let on2 = next(on1, EventView::Recalled(recalled(Some(text), rt.key)));
            let on3 = next(on2, EventView::Uhubctl(Ok(out)));
            let on4 = next(on3, EventView::Done);
            &&& answers_fit(on0, pre)
            &&& pending(on1) == ActionView::Recall(rt.key)
            &&& recalled(Some(text), rt.key) == Some((f.location, f.port, Some(id)))
            &&& pending(on2) == ActionView::RunUhubctl(power_args(f.location, f.port, "on"@))
            &&& pending(on3) == ActionView::Sleep(4)
            &&& pending(on4) == ActionView::CheckPresent(id)
            &&& pending(next(on4, EventView::Lsusb(o))) == ActionView::Finish(
                Ok(
                    "target="@ + rt.key + " at "@ + f.location + ":"@ + f.port + "\n"@ + out
                        + "\nlsusb present="@ + bool_text(lsusb_shows(o)) + " (want true)\n"@,
                ),
            )
        }),
{
    let rt = resolution(target, boards)->Ok_0;
    let off = materialized(rt, emus_off)->Ok_0;
    let on = materialized(rt, emus_on)->Ok_0;
    let f = device_lookup(listing_off, off.vidpid, off.serial)->Ok_0;
    let id = presence_id(off, f);
    lemma_lookup(Op::Off, target, boards, None, emus_off, listing_off);
    lemma_lookup(Op::On, target, boards, None, emus_on, listing_on);
    assert(off.key == rt.key && off.vidpid == rt.vidpid);
    assert(on.key == rt.key && on.vidpid == rt.vidpid);
    let off1 = run(
        flow_start(Op::Off, target, boards, None),
        lookup_answers(rt, emus_off, None, listing_off),
    );
    assert(off1.stage == Stage::AwaitRemembered && off1.target == off);
    assert(off1.location == f.location && off1.port == f.port && off1.id == id);
    lemma_off_steps(off1, Seq::empty(), None);
    law_recall_after_remember(state, rt.key, rt.key, f.location, f.port, id, text);
    let on1 = run(flow_start(Op::On, target, boards, None), lookup_answers(rt, emus_on, None, listing_on));
    let w = FlowView { target: on, ..blank(Op::On, None) };
    assert(on1 == FlowView { stage: Stage::AwaitRecall, listing: listing_on, ..w });
    assert(recalled_id(on, Some(id)) == id);
    lemma_recall_steps(on1, Some((f.location, f.port, Some(id))));
    let on2 = next(on1, EventView::Recalled(Some((f.location, f.port, Some(id)))));
    lemma_on_steps(on2, out, o);
}

// ---------------------------------------------------------------------
// The protocol, executable.

fn empty_target_exec() -> (r: ResolvedTarget)
    ensures
        r@ == empty_target(),
{
    ResolvedTarget { key: String::new(), vidpid: String::new(), serial: None, jlink_nickname: None }
}

fn cat(a: &str, b: &str) -> (r: String)
    ensures
        r@ == a@ + b@,
{
    let mut r = String::from_str(a);
    r.append(b);
    r
}

fn bool_string(b: bool) -> (r: &'static str)
    ensures
        r@ == bool_text(b),
{
    if b {
        "true"
    } else {
        "false"
    }
}

impl Flow {
    fn blank_exec(op: Op, listing_override: Option<String>) -> (r: Flow)
        ensures
            r@ == blank(op, listing_override.deep_view()),
    {
        Flow {
            op: op,
            stage: Stage::AwaitListing,
            target: empty_target_exec(),
            listing_override: listing_override,
            location: String::new(),
            port: String::new(),
            port_line: String::new(),
            id: String::new(),
            out: String::new(),
            report: String::new(),
            outcome: Ok(String::new()),
            listing: Ghost(Seq::empty()),
        }
    }

    fn finish(self, r: Result<String, HubError>) -> (f: Flow)
        ensures
            f@ == finished(self@, result_view(r)),
    {
        Flow { stage: Stage::Finished, outcome: r, ..self }
    }

    fn located_line_exec(&self) -> (r: String)
        ensures
            r@ == located_line(self@),
    {
        let mut r = String::from_str("target=");
        r.append(self.target.key.as_str());
        r.append(" (");
        r.append(self.id.as_str());
        r.append(") at ");
        r.append(self.location.as_str());
        r.append(":");
        r.append(self.port.as_str());
        r.append(" [");
        r.append(self.port_line.as_str());
        r.append("]\n");
        r
    }

    fn switch_report_exec(&self, present: bool, want: &str) -> (r: String)
        ensures
            r@ == switch_report(self@, present, want@),
    {
        let mut r = String::from_str("target=");
        r.append(self.target.key.as_str());
        r.append(" at ");
        r.append(self.location.as_str());
        r.append(":");
        r.append(self.port.as_str());
        r.append("\n");
        r.append(self.out.as_str());
        r.append("\nlsusb present=");
        r.append(bool_string(present));
        r.append(" (want ");
        r.append(want);
        r.append(")\n");
        r
    }

    fn after_listing_exec(self, listing: &str) -> (f: Flow)
        ensures
            f@ == after_listing(self@, listing@),
    {
        let mut v = Flow { listing: Ghost(listing@), ..self };
        match locate(&v.target, listing) {
            Ok(found) => {
                let id = verify_id(&v.target, &found);
                v.location = found.location;
                v.port = found.port;
                v.port_line = found.port_line;
                v.id = id;
                v.stage = match v.op {
                    Op::Cycle(_) => Stage::AwaitRemembered,
                    Op::Off => Stage::AwaitRemembered,
                    Op::On => Stage::AwaitPowerOn,
                    Op::Status => Stage::AwaitStatusPresence,
                };
                v
            },
            Err(e) => match v.op {
                Op::On => {
                    v.stage = Stage::AwaitRecall;
                    v
                },
                Op::Status => {
                    let mut m = cat("target=", v.target.key.as_str());
                    m.append(" not in listing (");
                    m.append(e.message().as_str());
                    m.append(")\n");
                    v.finish(Ok(m))
                },
                _ => v.finish(Err(e)),
            },
        }
    }

    fn after_target_exec(self) -> (f: Flow)
        ensures
            f@ == after_target(self@),
    {
        match &self.listing_override {
            Some(l) => {
                let l = l.clone();
                self.after_listing_exec(l.as_str())
            },
            None => Flow { stage: Stage::AwaitListing, ..self },
        }
    }

    fn with_target_exec(self, rt: ResolvedTarget) -> (f: Flow)
        ensures
            f@ == with_target(self@, rt@),
    {
        let v = Flow { target: rt, ..self };
        let check = match &v.target.jlink_nickname {
            Some(n) => Some(check_jlink_nickname(n.as_str())),
            None => None,
        };
        match check {
            Some(Err(e)) => v.finish(Err(e)),
            Some(Ok(())) => Flow { stage: Stage::AwaitProbes, ..v },
            None => v.after_target_exec(),
        }
    }

    /// The outside work this flow waits for (or its outcome, once finished).
    pub fn action(&self) -> (a: Action)
        ensures
            a@ == pending(self@),
    {
        match self.stage {
            Stage::AwaitProbes => Action::ListProbes,
            Stage::AwaitListing => {
                let args: Vec<String> = Vec::new();
                assert(args.deep_view() =~= Seq::<Seq<char>>::empty());
                Action::RunUhubctl(args)
            },
            Stage::AwaitRemembered => Action::Remember(
                self.target.key.clone(),
                self.location.clone(),
                self.port.clone(),
                self.id.clone(),
            ),
            Stage::AwaitPowerOff => Action::RunUhubctl(
                set_power_with(self.location.as_str(), self.port.as_str(), "off"),
            ),
            Stage::AwaitOffPause => Action::Sleep(
                match self.op {
                    Op::Cycle(n) => n,
                    _ => 2,
                },
            ),
            Stage::AwaitOffPresence => Action::CheckPresent(self.id.clone()),
            Stage::AwaitPowerOn => Action::RunUhubctl(
                set_power_with(self.location.as_str(), self.port.as_str(), "on"),
            ),
            Stage::AwaitOnPause => Action::Sleep(4),
            Stage::AwaitOnPresence => Action::CheckPresent(self.id.clone()),
            Stage::AwaitRecall => Action::Recall(self.target.key.clone()),
            Stage::AwaitStatusPresence => Action::CheckPresent(self.id.clone()),
            Stage::Finished => Action::Finish(
                match &self.outcome {
                    Ok(s) => Ok(s.clone()),
                    Err(e) => Err(e.clone_error()),
                },
            ),
        }
    }

    /// Whether the flow is over.
    pub fn is_finished(&self) -> (r: bool)
        ensures
            r == (self@.stage == Stage::Finished),
    {
        self.stage == Stage::Finished
    }

    /// Whether `ev` answers the work this flow waits for.
    pub fn accepts(&self, ev: &Event) -> (r: bool)
        ensures
            r == fits(self@.stage, ev@),
    {
        match (self.stage, ev) {
            (Stage::AwaitProbes, Event::Probes(_)) => true,
            (Stage::AwaitListing, Event::Uhubctl(_)) => true,
            (Stage::AwaitPowerOff, Event::Uhubctl(_)) => true,
            (Stage::AwaitPowerOn, Event::Uhubctl(_)) => true,
            (Stage::AwaitRemembered, Event::Done) => true,
            (Stage::AwaitOffPause, Event::Done) => true,
            (Stage::AwaitOnPause, Event::Done) => true,
            (Stage::AwaitOffPresence, Event::Lsusb(_)) => true,
            (Stage::AwaitOnPresence, Event::Lsusb(_)) => true,
            (Stage::AwaitStatusPresence, Event::Lsusb(_)) => true,
            (Stage::AwaitRecall, Event::Recalled(_)) => true,
            _ => false,
        }
    }

    /// Moves the flow on with the answer to the work it waited for.
    pub fn advance(self, ev: Event) -> (f: Flow)
        requires
            fits(self@.stage, ev@),
        ensures
            f@ == next(self@, ev@),
    {
        match (self.stage, ev) {
            (Stage::AwaitProbes, Event::Probes(r)) => match r {
                Err(err) => self.finish(Err(err)),
                Ok(emus) => match materialize_target(&self.target, emus.as_slice()) {
                    Ok(rt) => Flow { target: rt, ..self }.after_target_exec(),
                    Err(err) => self.finish(Err(err)),
                },
            },
            (Stage::AwaitListing, Event::Uhubctl(r)) => match r {
                Err(err) => self.finish(Err(err)),
                Ok(l) => self.after_listing_exec(l.as_str()),
            },
            (Stage::AwaitRemembered, Event::Done) => match self.op {
                Op::Cycle(_) => {
                    let report = self.located_line_exec();
                    Flow { stage: Stage::AwaitPowerOff, report: report, ..self }
                },
                _ => Flow { stage: Stage::AwaitPowerOff, ..self },
            },
            (Stage::AwaitPowerOff, Event::Uhubctl(r)) => match r {
                Err(err) => self.finish(Err(err)),
                Ok(out) => match self.op {
                    Op::Cycle(_) => {
                        let mut report = self.report.clone();
                        report.append("--- off ---\n");
                        report.append(out.as_str());
                        report.append("\n");
                        Flow { stage: Stage::AwaitOffPause, report: report, ..self }
                    },
                    _ => Flow { stage: Stage::AwaitOffPause, out: out, ..self },
                },
            },
            (Stage::AwaitOffPause, Event::Done) => Flow { stage: Stage::AwaitOffPresence, ..self },
            (Stage::AwaitOffPresence, Event::Lsusb(o)) => {
                let present = lsusb_reports_device(
                    match &o {
                        Some(s) => Some(s.as_str()),
                        None => None,
                    },
                );
                match self.op {
                    Op::Cycle(n) => {
                        let mut report = self.report.clone();
                        report.append("after ");
                        report.append(to_string(&decimal_exec(n)).as_str());
                        report.append("s off: lsusb present=");
                        report.append(bool_string(present));
                        report.append("\n");
                        Flow { stage: Stage::AwaitPowerOn, report: report, ..self }
                    },
                    _ => {
                        let m = self.switch_report_exec(present, "false");
                        self.finish(Ok(m))
                    },
                }
            },
            (Stage::AwaitPowerOn, Event::Uhubctl(r)) => match r {
                Err(err) => self.finish(Err(err)),
                Ok(out) => match self.op {
                    Op::Cycle(_) => {
                        let mut report = self.report.clone();
                        report.append("--- on ---\n");
                        report.append(out.as_str());
                        report.append("\n");
                        Flow { stage: Stage::AwaitOnPause, report: report, ..self }
                    },
                    _ => Flow { stage: Stage::AwaitOnPause, out: out, ..self },
                },
            },
            (Stage::AwaitOnPause, Event::Done) => Flow { stage: Stage::AwaitOnPresence, ..self },
            (Stage::AwaitOnPresence, Event::Lsusb(o)) => {
                let back = lsusb_reports_device(
                    match &o {
                        Some(s) => Some(s.as_str()),
                        None => None,
                    },
                );
                match self.op {
                    Op::Cycle(_) => {
                        let mut report = self.report.clone();
                        report.append("after on + 4s: lsusb present=");
                        report.append(bool_string(back));
                        report.append("\n");
                        let copy = report.clone();
                        let v = Flow { report: report, ..self };
                        if back {
                            v.finish(Ok(copy))
                        } else {
                            v.finish(Err(HubError::NotReEnumerated(copy)))
                        }
                    },
                    _ => {
                        let m = self.switch_report_exec(back, "true");
                        self.finish(Ok(m))
                    },
                }
            },
            (Stage::AwaitRecall, Event::Recalled(r)) => match r {
                Some((l, p, vid)) => {
                    let id = if self.target.vidpid.as_str().is_empty() {
                        match vid {
                            Some(v) => v,
                            None => String::new(),
                        }
                    } else {
                        self.target.vidpid.clone()
                    };
                    Flow { stage: Stage::AwaitPowerOn, location: l, port: p, id: id, ..self }
                },
                None => {
                    let key = self.target.key.clone();
                    self.finish(Err(HubError::NoLastKnown(key)))
                },
            },
            (Stage::AwaitStatusPresence, Event::Lsusb(o)) => {
                let present = lsusb_reports_device(
                    match &o {
                        Some(s) => Some(s.as_str()),
                        None => None,
                    },
                );
                let mut m = self.located_line_exec();
                m.append("lsusb present=");
                m.append(bool_string(present));
                m.append("\n");
                self.finish(Ok(m))
            },
            (_, _) => self,
        }
    }
}

fn start(op: Op, target: &str, boards: &Boards, listing_override: Option<&str>) -> (f: Flow)
    ensures
        f@ == flow_start(
            op,
            target@,
            boards@,
            match listing_override {
                Some(l) => Some(l@),
                None => None,
            },
        ),
{
    let lo: Option<String> = match listing_override {
        Some(l) => Some(l.to_owned()),
        None => None,
    };
    let v = Flow::blank_exec(op, lo);
    if let Op::Cycle(n) = op {
        if !(1 <= n && n <= 120) {
            return v.finish(Err(HubError::OffSecondsOutOfRange));
        }
    }
    match resolve_target_with(target, boards) {
        Ok(rt) => v.with_target_exec(rt),
        Err(e) => v.finish(Err(e)),
    }
}

/// Power-cycle a board: off, wait `off_seconds` (1..=120), on, wait for
/// re-enumeration, verify presence. The listing is taken from
/// `list_override` when given, else from a fresh uhubctl run. The flow
/// finishes with a human-readable report.
pub fn power_cycle_with(target: &str, off_seconds: u64, boards: &Boards, list_override: Option<&str>) -> (f: Flow)
    ensures
        f@ == flow_start(
            Op::Cycle(off_seconds),
            target@,
            boards@,
            match list_override {
                Some(l) => Some(l@),
                None => None,
            },
        ),
{
    start(Op::Cycle(off_seconds), target, boards, list_override)
}

/// Power off (duality on) and verify the device leaves lsusb.
pub fn power_off(target: &str, boards: &Boards) -> (f: Flow)
    ensures
        f@ == flow_start(Op::Off, target@, boards@, None),
{
    start(Op::Off, target, boards, None)
}

/// Power on (duality on) and verify the device re-enumerates. If the device
/// is off it is absent from the listing, so the last-known location recorded
/// by an earlier power-off or power-cycle is used.
pub fn power_on(target: &str, boards: &Boards) -> (f: Flow)
    ensures
        f@ == flow_start(Op::On, target@, boards@, None),
{
    start(Op::On, target, boards, None)
}

/// A board's current hub:port, port line and lsusb presence (read-only).
pub fn usb_status(target: &str, boards: &Boards) -> (f: Flow)
    ensures
        f@ == flow_start(Op::Status, target@, boards@, None),
{
    start(Op::Status, target, boards, None)
}

} // verus!
