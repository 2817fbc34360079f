//! One execution: what it is, whether it can still be stopped, how far it has come, its
//! steps, its live output, what it found, what it returned, what it was given, and where
//! the same execution answers elsewhere.

use vstd::prelude::*;

use crate::strings::{decimal_of, push_decimal_u64, push_str};
use crate::url::{percent_encode, percent_encoded};

use super::checkouts::{nothing_model, severity_status, severity_word, Severity};
use super::frame::{classed, holding, saying};
use super::html::{bare, el, els_model, with_attr, with_children, El, ElementModel, Node, NodeModel};
use super::nav::Area;
use super::pages::{given_trail, progress_bar, progress_model, trail_views, Page};
use super::surfaces::{cell_of, mono_model};
use super::view::{alert, alert_model, badge, badge_model, card, card_model, card_with, card_with_model, cell, facts, facts_model, link, link_model, mono, nothing, pre, pre_model, row, rows_model, strs_model, table, table_model, text_cell};

verus! {

broadcast use super::html::lemma_element_node;

/// Where an execution is in its life.
#[derive(Debug, Clone, Copy, PartialEq, Eq, Structural)]
pub enum ExecutionState {
    /// Waiting to start.
    Queued,
    /// Running.
    Running,
    /// Asked to stop, and not yet stopped.
    Cancelling,
    /// Finished, and it worked.
    Succeeded,
    /// Finished, and it did not.
    Failed,
    /// Stopped.
    Cancelled,
}

/// The word an execution state is shown as.
pub open spec fn state_word(s: ExecutionState) -> Seq<char> {
    match s {
        ExecutionState::Queued => "queued"@,
        ExecutionState::Running => "running"@,
        ExecutionState::Cancelling => "cancelling"@,
        ExecutionState::Succeeded => "succeeded"@,
        ExecutionState::Failed => "failed"@,
        ExecutionState::Cancelled => "cancelled"@,
    }
}

/// The status word a state is coloured by, decided once for every place one is shown.
pub open spec fn state_status(s: ExecutionState) -> Seq<char> {
    match s {
        ExecutionState::Succeeded => "ok"@,
        ExecutionState::Failed => "fail"@,
        ExecutionState::Cancelled => "warn"@,
        _ => "info"@,
    }
}

/// Whether a state is one an execution never leaves.
pub open spec fn is_final(s: ExecutionState) -> bool {
    s == ExecutionState::Succeeded || s == ExecutionState::Failed || s == ExecutionState::Cancelled
}

impl ExecutionState {
    /// The word.
    pub fn as_str(self) -> (r: &'static str)
        ensures
            r@ == state_word(self),
    {
        match self {
            ExecutionState::Queued => "queued",
            ExecutionState::Running => "running",
            ExecutionState::Cancelling => "cancelling",
            ExecutionState::Succeeded => "succeeded",
            ExecutionState::Failed => "failed",
            ExecutionState::Cancelled => "cancelled",
        }
    }

    /// The status word it is coloured by.
    pub fn status(self) -> (r: &'static str)
        ensures
            r@ == state_status(self),
    {
        match self {
            ExecutionState::Succeeded => "ok",
            ExecutionState::Failed => "fail",
            ExecutionState::Cancelled => "warn",
            _ => "info",
        }
    }

    /// Whether the execution has finished, one way or another.
    pub fn is_final(self) -> (r: bool)
        ensures
            r == is_final(self),
    {
        match self {
            ExecutionState::Succeeded | ExecutionState::Failed | ExecutionState::Cancelled => true,
            _ => false,
        }
    }
}

/// Where a step is.
#[derive(Debug, Clone, Copy, PartialEq, Eq, Structural)]
pub enum StepState {
    /// Done.
    Completed,
    /// It failed.
    Failed,
    /// Under way.
    Running,
}

/// The badge of a step.
pub open spec fn step_badge(s: StepState) -> ElementModel {
    match s {
        StepState::Completed => badge_model("ok"@, "completed"@),
        StepState::Failed => badge_model("fail"@, "failed"@),
        StepState::Running => badge_model("info"@, "running"@),
    }
}

/// One named step an execution entered.
#[derive(Debug, Clone, PartialEq, Eq)]
pub struct ExecutionStep {
    /// Where it is.
    pub state: StepState,
    /// What it is called.
    pub title: String,
    /// What it says of itself.
    pub detail: Option<String>,
    /// When it started.
    pub started_at: String,
}

/// Why an execution failed.
#[derive(Debug, Clone, PartialEq, Eq)]
pub struct ExecutionError {
    /// Its code.
    pub code: String,
    /// What it says.
    pub message: String,
    /// What to try.
    pub suggestion: Option<String>,
}

/// A finding an execution reported.
#[derive(Debug, Clone, PartialEq, Eq)]
pub struct ExecutionDiagnostic {
    /// How much it matters.
    pub severity: Severity,
    /// Its code.
    pub code: String,
    /// What it found.
    pub summary: String,
}

/// One execution, as the page reads it. The input and the output are their JSON text, as
/// the record holds them.
#[derive(Debug, Clone, PartialEq, Eq)]
pub struct Execution {
    /// Its identity.
    pub id: String,
    /// Where it is.
    pub state: ExecutionState,
    /// The capability it runs.
    pub capability: String,
    /// What it is called.
    pub title: String,
    /// Who started it, as its word.
    pub actor: String,
    /// The repository it ran in.
    pub repository: String,
    /// The branch, when there was one.
    pub branch: Option<String>,
    /// When it was created.
    pub created_at: String,
    /// When it finished.
    pub finished_at: Option<String>,
    /// How long it took.
    pub duration_ms: Option<u64>,
    /// What ties its log lines together.
    pub correlation_id: String,
    /// Whether it looks at its cancellation flag.
    pub cancellable: bool,
    /// How far it has come, when it measures that.
    pub percent: Option<u64>,
    /// What its progress says.
    pub progress_message: Option<String>,
    /// The steps it entered.
    pub steps: Vec<ExecutionStep>,
    /// What it returned.
    pub output: Option<String>,
    /// Why it failed.
    pub error: Option<ExecutionError>,
    /// What it found.
    pub diagnostics: Vec<ExecutionDiagnostic>,
    /// What it was given, with every sensitive value replaced.
    pub input: String,
    /// The sequence number of its last event.
    pub last_sequence: u64,
    /// Whether its oldest events were dropped.
    pub events_truncated: bool,
}

/// Where the same execution answers.
#[derive(Debug, Clone, PartialEq, Eq)]
pub struct ExecutionLinks {
    /// Its own route.
    pub itself: String,
    /// Its events.
    pub events: String,
    /// The live channel.
    pub websocket: String,
    /// Where it is cancelled.
    pub cancel: String,
}

/// What asking for an execution answered.
#[derive(Debug, Clone, PartialEq, Eq)]
pub struct ExecutionView {
    /// The execution.
    pub execution: Execution,
    /// Where it answers.
    pub links: ExecutionLinks,
}

/// What an execution wrote or did.
#[derive(Debug, Clone, PartialEq, Eq)]
pub enum EventPayload {
    /// A line of output, on a stream.
    Log { stream: String, message: String },
    /// Anything else: a step, a state, a progress report.
    Other,
}

/// One event.
#[derive(Debug, Clone, PartialEq, Eq)]
pub struct ExecutionEvent {
    /// When.
    pub timestamp: String,
    /// What.
    pub payload: EventPayload,
}

/// What asking for an execution's events answered.
#[derive(Debug, Clone, PartialEq, Eq)]
pub struct EventHistory {
    /// The events it retains.
    pub events: Vec<ExecutionEvent>,
    /// The sequence number of the last one.
    pub last_sequence: u64,
    /// Whether the oldest were dropped.
    pub truncated: bool,
}

// ------------------------------------------------------------------ the cards

fn number(n: u64) -> (r: String)
    ensures
        r@ == decimal_of(n as nat),
{
    let mut out = String::new();
    push_decimal_u64(&mut out, n);
    assert(out@ =~= decimal_of(n as nat));
    out
}

/// What an execution is.
pub open spec fn what_rows(e: Execution) -> Seq<(Seq<char>, NodeModel)> {
    seq![
        ("Capability"@, NodeModel::Element(link_model("/cockpit/capabilities/"@ + percent_encoded(e.capability@), e.capability@))),
        ("Title"@, NodeModel::Text(e.title@)),
        ("Started by"@, NodeModel::Text(e.actor@)),
        ("Repository"@, NodeModel::Text(e.repository@)),
        (
            "Branch"@,
            NodeModel::Text(
                match e.branch {
                    Some(b) => b@,
                    None => "-"@,
                },
            ),
        ),
        ("Created"@, NodeModel::Text(e.created_at@)),
        (
            "Finished"@,
            NodeModel::Text(
                match e.finished_at {
                    Some(f) => f@,
                    None => "-"@,
                },
            ),
        ),
        (
            "Took"@,
            NodeModel::Text(
                match e.duration_ms {
                    Some(ms) => decimal_of(ms as nat) + " ms"@,
                    None => "-"@,
                },
            ),
        ),
        ("Correlation id"@, NodeModel::Element(mono_model(e.correlation_id@))),
    ]
}

fn what(e: &Execution) -> (r: El)
    ensures
        r@ == card_with_model("This execution"@, badge_model(state_status(e.state), state_word(e.state)), facts_model(what_rows(*e))),
{
    let mut href = String::from_str("/cockpit/capabilities/");
    push_str(&mut href, percent_encode(e.capability.as_str()).as_str());
    let took = match e.duration_ms {
        Some(ms) => {
            let mut t = number(ms);
            push_str(&mut t, " ms");
            t
        },
        None => String::from_str("-"),
    };
    let mut rows: Vec<(&str, Node)> = Vec::new();
    rows.push(("Capability", Node::Element(link(href.as_str(), e.capability.as_str()))));
    rows.push(("Title", super::html::text(e.title.as_str())));
    rows.push(("Started by", super::html::text(e.actor.as_str())));
    rows.push(("Repository", super::html::text(e.repository.as_str())));
    rows.push((
        "Branch",
        super::html::text(
            match &e.branch {
                Some(b) => b.as_str(),
                None => "-",
            },
        ),
    ));
    rows.push(("Created", super::html::text(e.created_at.as_str())));
    rows.push((
        "Finished",
        super::html::text(
            match &e.finished_at {
                Some(f) => f.as_str(),
                None => "-",
            },
        ),
    ));
    rows.push(("Took", super::html::text(took.as_str())));
    rows.push(("Correlation id", Node::Element(mono(e.correlation_id.as_str()))));
    assert(rows_model(rows@) =~= what_rows(*e));
    card_with("This execution", badge(e.state.status(), e.state.as_str()), facts(rows))
}

/// What the control card says of a finished execution.
pub const FINISHED: &'static str = "This execution has finished; there is nothing left to stop.";

/// How cancelling works.
pub const COOPERATIVE: &'static str = "Cancellation is cooperative: the flag is set and the task stops when it next looks at it.";

/// Why asking a capability that never looks at its flag would change nothing.
pub const NOT_LISTENING: &'static str = "This capability does not declare that it looks at its cancellation flag, so asking it to stop would be recorded and change nothing. Its execution policy says so.";

/// The control card: nothing to stop, the button that stops it, or why it cannot be.
pub open spec fn control_model(e: Execution) -> ElementModel {
    card_model(
        "Control"@,
        if is_final(e.state) {
            alert_model("info"@, FINISHED@)
        } else if e.cancellable {
            holding(
                holding(
                    bare("div"@),
                    saying(
                        with_attr(
                            with_attr(classed("button"@, "mj-button mj-button--primary"@), "type"@, "button"@),
                            "data-mj-cancel"@,
                            e.id@,
                        ),
                        "Cancel this execution"@,
                    ),
                ),
                saying(classed("p"@, "mj-note"@), COOPERATIVE@),
            )
        } else {
            alert_model("warn"@, NOT_LISTENING@)
        },
    )
}

fn control(e: &Execution) -> (r: El)
    ensures
        r@ == control_model(*e),
{
    let inside = if e.state.is_final() {
        alert("info", FINISHED)
    } else if e.cancellable {
        el("div").child(
            el("button").class("mj-button mj-button--primary").attr("type", "button").attr("data-mj-cancel", e.id.as_str()).text(
                "Cancel this execution",
            ),
        ).child(el("p").class("mj-note").text(COOPERATIVE))
    } else {
        alert("warn", NOT_LISTENING)
    };
    card("Control", inside)
}

/// The progress card.
pub open spec fn progress_card_model(e: Execution) -> ElementModel {
    let d = with_attr(bare("div"@), "data-mj-progress"@, ""@);
    card_model(
        "Progress"@,
        match e.percent {
            Some(p) => holding(
                holding(d, progress_model(p as nat)),
                saying(
                    classed("p"@, "mj-note"@),
                    match e.progress_message {
                        Some(m) => m@,
                        None => ""@,
                    },
                ),
            ),
            None => holding(d, nothing_model("This execution reports no measured progress."@)),
        },
    )
}

fn progress(e: &Execution) -> (r: El)
    ensures
        r@ == progress_card_model(*e),
{
    let d = el("div").attr("data-mj-progress", "");
    let inside = match e.percent {
        Some(p) => d.child(progress_bar(p)).child(
            el("p").class("mj-note").text(
                match &e.progress_message {
                    Some(m) => m.as_str(),
                    None => "",
                },
            ),
        ),
        None => d.child(nothing("This execution reports no measured progress.")),
    };
    card("Progress", inside)
}

/// The row of a step.
pub open spec fn step_row(s: ExecutionStep) -> NodeModel {
    NodeModel::Element(
        ElementModel {
            children: seq![
                cell_of(step_badge(s.state)),
                NodeModel::Element(saying(bare("td"@), s.title@)),
                NodeModel::Element(
                    saying(
                        bare("td"@),
                        match s.detail {
                            Some(d) => d@,
                            None => ""@,
                        },
                    ),
                ),
                NodeModel::Element(saying(bare("td"@), s.started_at@)),
            ],
            ..bare("tr"@)
        },
    )
}

/// The steps card.
pub open spec fn steps_model(steps: Seq<ExecutionStep>) -> ElementModel {
    card_model(
        "Steps"@,
        if steps.len() == 0 {
            nothing_model("It has entered no named step."@)
        } else {
            table_model(seq![""@, "Step"@, "Detail"@, "Started"@], steps.map_values(|s: ExecutionStep| step_row(s)))
        },
    )
}

fn steps_card(steps: &Vec<ExecutionStep>) -> (r: El)
    ensures
        r@ == steps_model(steps@),
{
    if steps.len() == 0 {
        return card("Steps", nothing("It has entered no named step."));
    }
    let mut rows: Vec<El> = Vec::new();
    for k in 0..steps.len()
        invariant
            rows@.len() == k,
            forall|i: int| 0 <= i < k ==> NodeModel::Element((#[trigger] rows@[i])@) == step_row(steps@[i]),
    {
        let s = &steps[k];
        let state = match s.state {
            StepState::Completed => badge("ok", "completed"),
            StepState::Failed => badge("fail", "failed"),
            StepState::Running => badge("info", "running"),
        };
        let mut cells: Vec<El> = Vec::new();
        cells.push(cell(state));
        cells.push(text_cell(s.title.as_str()));
        cells.push(
            text_cell(
                match &s.detail {
                    Some(d) => d.as_str(),
                    None => "",
                },
            ),
        );
        cells.push(text_cell(s.started_at.as_str()));
        let r = row(cells);
        assert(els_model(cells@) =~= match step_row(*s) {
            NodeModel::Element(x) => x.children,
            _ => seq![],
        });
        rows.push(r);
    }
    assert(els_model(rows@) =~= steps@.map_values(|s: ExecutionStep| step_row(s)));
    let headers = ["", "Step", "Detail", "Started"];
    proof {
        assert(strs_model(headers@) =~= seq![""@, "Step"@, "Detail"@, "Started"@]);
    }
    card("Steps", table(&headers, rows))
}

/// One line of output.
pub open spec fn log_line(timestamp: Seq<char>, stream: Seq<char>, message: Seq<char>) -> ElementModel {
    holding(
        holding(
            holding(classed("div"@, "mj-log-line"@), saying(classed("span"@, "mj-log-time"@), timestamp)),
            saying(classed("span"@, "mj-log-stream mj-log-stream--"@ + stream), stream),
        ),
        saying(classed("span"@, "mj-log-text"@), message),
    )
}

/// The lines of output among some events, in their order.
pub open spec fn log_lines(events: Seq<ExecutionEvent>) -> Seq<NodeModel>
    decreases events.len(),
{
    if events.len() == 0 {
        seq![]
    } else {
        let before = log_lines(events.drop_last());
        match events.last().payload {
            EventPayload::Log { stream, message } => before.push(
                NodeModel::Element(log_line(events.last().timestamp@, stream@, message@)),
            ),
            EventPayload::Other => before,
        }
    }
}

fn lines(events: &Vec<ExecutionEvent>) -> (r: Vec<El>)
    ensures
        els_model(r@) == log_lines(events@),
{
    let mut out: Vec<El> = Vec::new();
    for k in 0..events.len()
        invariant
            els_model(out@) == log_lines(events@.take(k as int)),
    {
        proof {
            assert(events@.take(k + 1).drop_last() =~= events@.take(k as int));
            assert(events@.take(k + 1).last() == events@[k as int]);
        }
        let event = &events[k];
        match &event.payload {
            EventPayload::Log { stream, message } => {
                let mut class = String::from_str("mj-log-stream mj-log-stream--");
                push_str(&mut class, stream.as_str());
                let line = el("div").class("mj-log-line").child(
                    el("span").class("mj-log-time").text(event.timestamp.as_str()),
                ).child(el("span").class(class.as_str()).text(stream.as_str())).child(
                    el("span").class("mj-log-text").text(message.as_str()),
                );
                let ghost before = out@;
                let ghost lm = line@;
                out.push(line);
                assert(els_model(out@) =~= els_model(before).push(NodeModel::Element(lm)));
            },
            EventPayload::Other => {},
        }
    }
    assert(events@.take(events@.len() as int) =~= events@);
    out
}

/// What the log card says when the oldest events were dropped.
pub const DROPPED: &'static str = "The oldest events of this execution have been dropped: this process retains a bounded number per execution.";

/// The live output: a warning when events were dropped, then the lines, or that there are
/// none.
pub open spec fn log_model(events: Seq<ExecutionEvent>, truncated: bool) -> ElementModel {
    let d = with_attr(with_attr(classed("div"@, "mj-log"@), "data-mj-log"@, ""@), "aria-live"@, "polite"@);
    let d = if truncated {
        holding(d, alert_model("warn"@, DROPPED@))
    } else {
        d
    };
    let ls = log_lines(events);
    if ls.len() == 0 {
        holding(d, nothing_model("It has written no output."@))
    } else {
        with_children(d, ls)
    }
}

fn log(events: &Vec<ExecutionEvent>, truncated: bool) -> (r: El)
    ensures
        r@ == log_model(events@, truncated),
{
    let ls = lines(events);
    let mut d = el("div").class("mj-log").attr("data-mj-log", "").attr("aria-live", "polite");
    if truncated {
        d = d.child(alert("warn", DROPPED));
    }
    if ls.len() == 0 {
        d.child(nothing("It has written no output."))
    } else {
        d.children(ls)
    }
}

/// The output card: what it returned, why it failed, or that it has not finished.
pub open spec fn output_model(e: Execution) -> ElementModel {
    card_model(
        "Output"@,
        match e.output {
            Some(o) => pre_model(o@),
            None => match e.error {
                Some(err) => holding(
                    holding(bare("div"@), alert_model("fail"@, err.code@ + ": "@ + err.message@)),
                    match err.suggestion {
                        Some(s) => saying(classed("p"@, "mj-note"@), s@),
                        None => bare("span"@),
                    },
                ),
                None => nothing_model("It has not finished."@),
            },
        },
    )
}

fn output(e: &Execution) -> (r: El)
    ensures
        r@ == output_model(*e),
{
    let inside = match &e.output {
        Some(o) => pre(o.as_str()),
        None => match &e.error {
            Some(err) => {
                let mut line = String::from_str(err.code.as_str());
                push_str(&mut line, ": ");
                push_str(&mut line, err.message.as_str());
                el("div").child(alert("fail", line.as_str())).child(
                    match &err.suggestion {
                        Some(s) => el("p").class("mj-note").text(s.as_str()),
                        None => el("span"),
                    },
                )
            },
            None => nothing("It has not finished."),
        },
    };
    card("Output", inside)
}

/// The row of a finding.
pub open spec fn finding_row(d: ExecutionDiagnostic) -> NodeModel {
    NodeModel::Element(
        ElementModel {
            children: seq![
                cell_of(badge_model(severity_status(d.severity), severity_word(d.severity))),
                cell_of(mono_model(d.code@)),
                NodeModel::Element(saying(bare("td"@), d.summary@)),
            ],
            ..bare("tr"@)
        },
    )
}

/// The diagnostics card.
pub open spec fn findings_model(ds: Seq<ExecutionDiagnostic>) -> ElementModel {
    card_model(
        "Diagnostics"@,
        if ds.len() == 0 {
            nothing_model("It has reported no finding."@)
        } else {
            table_model(seq!["Severity"@, "Code"@, "What"@], ds.map_values(|d: ExecutionDiagnostic| finding_row(d)))
        },
    )
}

fn findings(ds: &Vec<ExecutionDiagnostic>) -> (r: El)
    ensures
        r@ == findings_model(ds@),
{
    if ds.len() == 0 {
        return card("Diagnostics", nothing("It has reported no finding."));
    }
    let mut rows: Vec<El> = Vec::new();
    for k in 0..ds.len()
        invariant
            rows@.len() == k,
            forall|i: int| 0 <= i < k ==> NodeModel::Element((#[trigger] rows@[i])@) == finding_row(ds@[i]),
    {
        let d = &ds[k];
        let mut cells: Vec<El> = Vec::new();
        cells.push(cell(badge(d.severity.status(), d.severity.as_str())));
        cells.push(cell(mono(d.code.as_str())));
        cells.push(text_cell(d.summary.as_str()));
        let r = row(cells);
        assert(els_model(cells@) =~= match finding_row(*d) {
            NodeModel::Element(x) => x.children,
            _ => seq![],
        });
        rows.push(r);
    }
    assert(els_model(rows@) =~= ds@.map_values(|d: ExecutionDiagnostic| finding_row(d)));
    let headers = ["Severity", "Code", "What"];
    proof {
        assert(strs_model(headers@) =~= seq!["Severity"@, "Code"@, "What"@]);
    }
    card("Diagnostics", table(&headers, rows))
}

/// What the input card says of what it shows.
pub const AS_STORED: &'static str = "As it was stored: every value the capability's input schema marks sensitive was replaced before this was written down.";

/// The input card.
pub open spec fn input_model(e: Execution) -> ElementModel {
    card_model("Input"@, holding(holding(bare("div"@), pre_model(e.input@)), saying(classed("p"@, "mj-note"@), AS_STORED@)))
}

/// A row of two cells: a name, and where.
pub open spec fn where_row(name: Seq<char>, place: Seq<char>) -> NodeModel {
    NodeModel::Element(
        ElementModel {
            children: seq![NodeModel::Element(saying(bare("td"@), name)), cell_of(mono_model(place))],
            ..bare("tr"@)
        },
    )
}

fn where_row_el(name: &str, place: &str) -> (r: El)
    ensures
        NodeModel::Element(r@) == where_row(name@, place@),
{
    let mut cells: Vec<El> = Vec::new();
    cells.push(text_cell(name));
    cells.push(cell(mono(place)));
    let r = row(cells);
    assert(els_model(cells@) =~= seq![NodeModel::Element(saying(bare("td"@), name@)), cell_of(mono_model(place@))]);
    r
}

/// Where the same execution answers: over HTTP, as events, on the live channel, through
/// MCP, and on the command line.
pub open spec fn elsewhere_model(id: Seq<char>, l: ExecutionLinks) -> ElementModel {
    card_model(
        "The same execution elsewhere"@,
        table_model(
            seq!["Interface"@, "Where"@],
            seq![
                where_row("HTTP"@, "GET "@ + l.itself@),
                where_row("Events"@, "GET "@ + l.events@),
                where_row("Live channel"@, "WebSocket "@ + l.websocket@),
                where_row("MCP"@, "majordomus_execution { \"id\": \""@ + id + "\" }"@),
                where_row("Command line"@, "majordomus executions show "@ + id),
            ],
        ),
    )
}

fn joined(a: &str, b: &str) -> (r: String)
    ensures
        r@ == a@ + b@,
{
    let mut out = String::from_str(a);
    push_str(&mut out, b);
    out
}

fn elsewhere(id: &str, l: &ExecutionLinks) -> (r: El)
    ensures
        r@ == elsewhere_model(id@, *l),
{
    let mut mcp = joined("majordomus_execution { \"id\": \"", id);
    push_str(&mut mcp, "\" }");
    let mut rows: Vec<El> = Vec::new();
    rows.push(where_row_el("HTTP", joined("GET ", l.itself.as_str()).as_str()));
    rows.push(where_row_el("Events", joined("GET ", l.events.as_str()).as_str()));
    rows.push(where_row_el("Live channel", joined("WebSocket ", l.websocket.as_str()).as_str()));
    rows.push(where_row_el("MCP", mcp.as_str()));
    rows.push(where_row_el("Command line", joined("majordomus executions show ", id).as_str()));
    let headers = ["Interface", "Where"];
    proof {
        assert(strs_model(headers@) =~= seq!["Interface"@, "Where"@]);
        assert(els_model(rows@) =~= seq![
            where_row("HTTP"@, "GET "@ + l.itself@),
            where_row("Events"@, "GET "@ + l.events@),
            where_row("Live channel"@, "WebSocket "@ + l.websocket@),
            where_row("MCP"@, "majordomus_execution { \"id\": \""@ + id@ + "\" }"@),
            where_row("Command line"@, "majordomus executions show "@ + id@),
        ]);
    }
    card("The same execution elsewhere", table(&headers, rows))
}

// ------------------------------------------------------------------ the page

/// What the page says when this process no longer remembers an execution.
pub const FORGOTTEN: &'static str = "An execution lives as long as the process that ran it, and this process remembers a bounded number of them.";

/// The events the page shows: what asking for them answered, or none when that failed.
pub open spec fn shown_events(history: Option<EventHistory>) -> Seq<ExecutionEvent> {
    match history {
        Some(h) => h.events@,
        None => seq![],
    }
}

/// The sequence number the page follows from: the history's, or the execution's own.
pub open spec fn shown_sequence(e: Execution, history: Option<EventHistory>) -> u64 {
    match history {
        Some(h) => h.last_sequence,
        None => e.last_sequence,
    }
}

/// Whether the page says events were dropped: as the history says, or the execution.
pub open spec fn shown_truncated(e: Execution, history: Option<EventHistory>) -> bool {
    match history {
        Some(h) => h.truncated,
        None => e.events_truncated,
    }
}

/// The body of the page of an execution.
pub open spec fn execution_body(v: ExecutionView, history: Option<EventHistory>) -> ElementModel {
    let e = v.execution;
    let g = classed("div"@, "mj-grid"@);
    let g = with_attr(g, "data-mj-execution"@, e.id@);
    let g = with_attr(g, "data-mj-sequence"@, decimal_of(shown_sequence(e, history) as nat));
    let g = with_attr(g, "data-mj-socket"@, v.links.websocket@);
    let g = with_attr(g, "data-mj-snapshot"@, v.links.itself@);
    let g = with_attr(g, "data-mj-events"@, v.links.events@);
    let g = with_attr(g, "data-mj-cancel-route"@, v.links.cancel@);
    let g = holding(g, card_with_model("This execution"@, badge_model(state_status(e.state), state_word(e.state)), facts_model(what_rows(e))));
    let g = holding(g, control_model(e));
    let g = holding(g, progress_card_model(e));
    let g = holding(g, steps_model(e.steps@));
    let g = holding(g, card_model("Live output"@, log_model(shown_events(history), shown_truncated(e, history))));
    let g = holding(g, findings_model(e.diagnostics@));
    let g = holding(g, output_model(e));
    let g = holding(g, input_model(e));
    holding(g, elsewhere_model(e.id@, v.links))
}

/// The body of the page of an execution this process does not remember.
pub open spec fn forgotten_body(reason: Seq<char>) -> ElementModel {
    holding(
        holding(holding(bare("div"@), alert_model("warn"@, reason)), saying(classed("p"@, "mj-empty"@), FORGOTTEN@)),
        link_model("/cockpit/executions"@, "Every execution this process remembers"@),
    )
}

/// One execution. `view` is what asking for it answered, or why it did not; `history` is
/// what asking for its events answered, when that worked.
pub fn execution(id: &str, view: Result<ExecutionView, String>, history: Option<EventHistory>) -> (r: Page)
    ensures
        r.area == Area::Executions,
        match view {
            Err(reason) => {
                &&& r.title@ == id@
                &&& r.main@ == forgotten_body(reason@)
                &&& r.status == 404
                &&& r.subtitle is None
                &&& trail_views(r.breadcrumbs@) == seq![
                    ("Cockpit"@, Some("/cockpit"@)),
                    ("Executions"@, Some("/cockpit/executions"@)),
                    (id@, None::<Seq<char>>),
                ]
                &&& r.scripts@.len() == 0
            },
            Ok(v) => {
                &&& r.title@ == v.execution.id@
                &&& r.main@ == execution_body(v, history)
                &&& r.status == 200
                &&& r.subtitle matches Some(s) && s@ == v.execution.title@
                &&& trail_views(r.breadcrumbs@) == seq![
                    ("Cockpit"@, Some("/cockpit"@)),
                    ("Executions"@, Some("/cockpit/executions"@)),
                    (v.execution.id@, None::<Seq<char>>),
                ]
                &&& r.scripts@.len() == 1 && r.scripts@[0]@ == "executions.js"@
            },
        },
{
    let v = match view {
        Ok(v) => v,
        Err(reason) => {
            let body = el("div").child(alert("warn", reason.as_str())).child(el("p").class("mj-empty").text(FORGOTTEN)).child(
                link("/cockpit/executions", "Every execution this process remembers"),
            );
            let mut trail: Vec<(&str, Option<&str>)> = Vec::new();
            trail.push(("Cockpit", Some("/cockpit")));
            trail.push(("Executions", Some("/cockpit/executions")));
            trail.push((id, None));
            assert(given_trail(trail@) =~= seq![
                ("Cockpit"@, Some("/cockpit"@)),
                ("Executions"@, Some("/cockpit/executions"@)),
                (id@, None::<Seq<char>>),
            ]);
            return Page::new(Area::Executions, id, body).status(404).trail(trail);
        },
    };
    let e = &v.execution;
    let empty: Vec<ExecutionEvent> = Vec::new();
    let (events, last_sequence, truncated) = match &history {
        Some(h) => (&h.events, h.last_sequence, h.truncated),
        None => (&empty, e.last_sequence, e.events_truncated),
    };
    assert(events@ == shown_events(history));
    let sequence = number(last_sequence);
    let body = el("div").class("mj-grid").attr("data-mj-execution", e.id.as_str()).attr(
        "data-mj-sequence",
        sequence.as_str(),
    ).attr("data-mj-socket", v.links.websocket.as_str()).attr("data-mj-snapshot", v.links.itself.as_str()).attr(
        "data-mj-events",
        v.links.events.as_str(),
    ).attr("data-mj-cancel-route", v.links.cancel.as_str()).child(what(e)).child(control(e)).child(progress(e)).child(
        steps_card(&e.steps),
    ).child(card("Live output", log(events, truncated))).child(findings(&e.diagnostics)).child(output(e)).child(
        card("Input", el("div").child(pre(e.input.as_str())).child(el("p").class("mj-note").text(AS_STORED))),
    ).child(elsewhere(e.id.as_str(), &v.links));
    let mut trail: Vec<(&str, Option<&str>)> = Vec::new();
    trail.push(("Cockpit", Some("/cockpit")));
    trail.push(("Executions", Some("/cockpit/executions")));
    trail.push((e.id.as_str(), None));
    assert(given_trail(trail@) =~= seq![
        ("Cockpit"@, Some("/cockpit"@)),
        ("Executions"@, Some("/cockpit/executions"@)),
        (e.id@, None::<Seq<char>>),
    ]);
    Page::new(Area::Executions, e.id.as_str(), body).subtitle(e.title.as_str()).trail(trail).script("executions.js")
}

} // verus!
