//! One capability: its descriptor, its projections, its schemas, its cases, and a form
//! that runs it. The form is generated from the input schema; there is no per-capability
//! markup anywhere in the Cockpit.

use vstd::prelude::*;

use crate::command::activate::{starts, starts_with};
use crate::strings::{decimal_of, join_with_text, joined_by, push_decimal_u64, push_str, views};

use super::catalogue::{provenance_of, CapabilityEntry, Provenance};
use super::checkouts::nothing_model;
use super::frame::{classed, holding, saying};
use super::html::{bare, el, els_model, with_attr, with_children, El, ElementModel, Node, NodeModel};
use super::nav::Area;
use super::pages::{field, field_model, given_trail, trail_views, FieldTexts, Json, Page};
use super::surfaces::{cell_of, mono_model};
use super::view::{alert, alert_model, badge, badge_model, card, card_model, card_with, card_with_model, cell, details, details_model, facts, facts_model, link, link_model, mono, nothing, pre, pre_model, row, rows_model, strs_model, table, table_model, tag, tag_model, text_cell};

verus! {

broadcast use super::html::lemma_element_node;

/// What a capability's cache keeps.
#[derive(Debug, Clone, Copy, PartialEq, Eq, Structural)]
pub enum CachePolicy {
    /// Nothing.
    Disabled,
    /// Answers, in this process, up to a number of entries and for a time when it has one.
    Process { max_entries: u64, ttl_seconds: Option<u64> },
}

/// Whether a capability must carry a benchmark.
#[derive(Debug, Clone, PartialEq, Eq)]
pub enum BenchmarkPolicy {
    /// It must.
    Required,
    /// It need not, for a reason, as its word.
    Waived { reason: String },
}

/// One input of the runner: a property of the input schema, whether it is required, and
/// the texts of its bounds and default.
#[derive(Debug)]
pub struct InputField {
    /// The property.
    pub name: String,
    /// Its schema.
    pub schema: Json,
    /// Whether the input must carry it.
    pub required: bool,
    /// Its minimum, maximum and default as JSON writes them.
    pub texts: FieldTexts,
}

/// One benchmark case: its name, its input as pretty JSON, and the same input on one line
/// for the runner to load.
#[derive(Debug, Clone, PartialEq, Eq)]
pub struct Case {
    /// Its name.
    pub name: String,
    /// Its input, laid out.
    pub input: String,
    /// Its input, on one line.
    pub input_line: String,
}

/// A capability as its page reads it.
#[derive(Debug)]
pub struct CapabilityDetail {
    /// What the listing shows of it: identity, kind, title, description, module,
    /// projections, provenance, cache.
    pub entry: CapabilityEntry,
    /// Its stability, as its word.
    pub stability: String,
    /// Whether its stability lets it run.
    pub executable: bool,
    /// The file it was declared in.
    pub source_path: String,
    /// Its cache policy.
    pub cache: CachePolicy,
    /// Its benchmark policy.
    pub benchmark: BenchmarkPolicy,
    /// Its tags.
    pub tags: Vec<String>,
    /// The name of its MCP tool.
    pub mcp_tool: Option<String>,
    /// The URI of its MCP resource.
    pub mcp_resource: Option<String>,
    /// Its HTTP route: method word and path.
    pub http_route: Option<(String, String)>,
    /// Its command path.
    pub cli_path: Option<Vec<String>>,
    /// The name of its input type.
    pub input_name: Option<String>,
    /// Its input schema, laid out.
    pub input_schema: String,
    /// The name of its output type.
    pub output_name: Option<String>,
    /// Its output schema, laid out.
    pub output_schema: String,
    /// The properties of its input schema, for the runner.
    pub inputs: Vec<InputField>,
    /// Whether running it asks first.
    pub needs_confirmation: bool,
    /// Its declared effect, as its word.
    pub effect: String,
    /// Whether its effect is a write to the repository.
    pub writes_repository: bool,
    /// Whether it stops when asked to.
    pub cancellable: bool,
}

// ------------------------------------------------------------------ the descriptor

fn number(n: u64) -> (r: String)
    ensures
        r@ == decimal_of(n as nat),
{
    let mut out = String::new();
    push_decimal_u64(&mut out, n);
    assert(out@ =~= decimal_of(n as nat));
    out
}

/// What a cache policy says.
pub open spec fn cache_text(c: CachePolicy) -> Seq<char> {
    match c {
        CachePolicy::Disabled => "disabled"@,
        CachePolicy::Process { max_entries, ttl_seconds } => match ttl_seconds {
            Some(t) => "process, "@ + decimal_of(max_entries as nat) + " entries, "@ + decimal_of(t as nat) + "s"@,
            None => "process, "@ + decimal_of(max_entries as nat) + " entries, no expiry"@,
        },
    }
}

fn cache_line(c: CachePolicy) -> (r: String)
    ensures
        r@ == cache_text(c),
{
    match c {
        CachePolicy::Disabled => String::from_str("disabled"),
        CachePolicy::Process { max_entries, ttl_seconds } => {
            let mut out = String::from_str("process, ");
            push_str(&mut out, number(max_entries).as_str());
            match ttl_seconds {
                Some(t) => {
                    push_str(&mut out, " entries, ");
                    push_str(&mut out, number(t).as_str());
                    push_str(&mut out, "s");
                },
                None => {
                    push_str(&mut out, " entries, no expiry");
                },
            }
            out
        },
    }
}

/// What a benchmark policy says.
pub open spec fn benchmark_text(b: BenchmarkPolicy) -> Seq<char> {
    match b {
        BenchmarkPolicy::Required => "required"@,
        BenchmarkPolicy::Waived { reason } => "waived: "@ + reason@,
    }
}

/// The facts of a capability.
pub open spec fn descriptor_rows(d: CapabilityDetail, out_dir: Seq<char>) -> Seq<(Seq<char>, NodeModel)> {
    seq![
        ("Canonical id"@, NodeModel::Element(mono_model(d.entry.id@))),
        ("Module"@, NodeModel::Element(mono_model(d.entry.module@))),
        ("Kind"@, NodeModel::Element(badge_model(d.entry.kind@, d.entry.kind@))),
        (
            "Stability"@,
            NodeModel::Element(
                badge_model(
                    if d.executable {
                        "ok"@
                    } else {
                        "warn"@
                    },
                    d.stability@,
                ),
            ),
        ),
        ("Provenance"@, NodeModel::Element(provenance_of(d.entry, out_dir))),
        ("Source"@, NodeModel::Element(mono_model(d.source_path@))),
        ("Cache"@, NodeModel::Element(mono_model(cache_text(d.cache)))),
        ("Benchmark"@, NodeModel::Element(mono_model(benchmark_text(d.benchmark)))),
        (
            "Tags"@,
            NodeModel::Element(
                if d.tags@.len() == 0 {
                    saying(bare("span"@), "-"@)
                } else {
                    with_children(
                        classed("span"@, "mj-marks"@),
                        d.tags@.map_values(|t: String| NodeModel::Element(tag_model(t@))),
                    )
                },
            ),
        ),
    ]
}

fn origin(c: &CapabilityEntry, out_dir: &str) -> (r: El)
    ensures
        r@ == provenance_of(*c, out_dir@),
{
    let mut origin = el("span").class("mj-marks");
    origin = match &c.provenance {
        Provenance::Builtin => origin.child(badge("declared", "declared")),
        Provenance::Declarative { path } => if starts_with(path.as_str(), out_dir) {
            origin.child(badge("generated", "generated"))
        } else {
            origin.child(badge("declared", "declared"))
        },
    };
    if c.cached {
        origin = origin.child(badge("cached", "cached"));
    }
    origin
}

fn descriptor(d: &CapabilityDetail, out_dir: &str) -> (r: El)
    ensures
        r@ == card_model("Descriptor"@, facts_model(descriptor_rows(*d, out_dir@))),
{
    let benchmark = match &d.benchmark {
        BenchmarkPolicy::Required => String::from_str("required"),
        BenchmarkPolicy::Waived { reason } => {
            let mut t = String::from_str("waived: ");
            push_str(&mut t, reason.as_str());
            t
        },
    };
    let tags = if d.tags.len() == 0 {
        el("span").text("-")
    } else {
        let mut marks: Vec<El> = Vec::new();
        for k in 0..d.tags.len()
            invariant
                marks@.len() == k,
                forall|i: int| 0 <= i < k ==> (#[trigger] marks@[i])@ == tag_model(d.tags@[i]@),
        {
            marks.push(tag(d.tags[k].as_str()));
        }
        assert(els_model(marks@) =~= d.tags@.map_values(|t: String| NodeModel::Element(tag_model(t@))));
        el("span").class("mj-marks").children(marks)
    };
    let cache = cache_line(d.cache);
    let mut rows: Vec<(&str, Node)> = Vec::new();
    rows.push(("Canonical id", Node::Element(mono(d.entry.id.as_str()))));
    rows.push(("Module", Node::Element(mono(d.entry.module.as_str()))));
    rows.push(("Kind", Node::Element(badge(d.entry.kind.as_str(), d.entry.kind.as_str()))));
    rows.push((
        "Stability",
        Node::Element(
            badge(
                if d.executable {
                    "ok"
                } else {
                    "warn"
                },
                d.stability.as_str(),
            ),
        ),
    ));
    rows.push(("Provenance", Node::Element(origin(&d.entry, out_dir))));
    rows.push(("Source", Node::Element(mono(d.source_path.as_str()))));
    rows.push(("Cache", Node::Element(mono(cache.as_str()))));
    rows.push(("Benchmark", Node::Element(mono(benchmark.as_str()))));
    rows.push(("Tags", Node::Element(tags)));
    assert(rows_model(rows@) =~= descriptor_rows(*d, out_dir@));
    card("Descriptor", facts(rows))
}

// ------------------------------------------------------------------ the projections

/// One projection: what it is called there and where its documentation is, or that it is
/// not exposed.
pub open spec fn projection_row(interface: Seq<char>, value: Option<Seq<char>>, docs: Option<Seq<char>>) -> NodeModel {
    NodeModel::Element(
        ElementModel {
            children: match value {
                Some(v) => seq![
                    NodeModel::Element(saying(bare("td"@), interface)),
                    cell_of(mono_model(v)),
                    cell_of(
                        match docs {
                            Some(h) => link_model(h, "Swagger"@),
                            None => saying(bare("span"@), "-"@),
                        },
                    ),
                ],
                None => seq![
                    NodeModel::Element(saying(bare("td"@), interface)),
                    cell_of(saying(classed("span"@, "mj-muted"@), "not exposed"@)),
                    cell_of(saying(bare("span"@), "-"@)),
                ],
            },
            ..bare("tr"@)
        },
    )
}

fn projection_row_el(interface: &str, value: Option<&str>, docs: Option<&str>) -> (r: El)
    ensures
        NodeModel::Element(r@) == projection_row(
            interface@,
            match value {
                Some(v) => Some(v@),
                None => None,
            },
            match docs {
                Some(h) => Some(h@),
                None => None,
            },
        ),
{
    let mut cells: Vec<El> = Vec::new();
    match value {
        Some(v) => {
            cells.push(text_cell(interface));
            cells.push(cell(mono(v)));
            cells.push(
                cell(
                    match docs {
                        Some(h) => link(h, "Swagger"),
                        None => el("span").text("-"),
                    },
                ),
            );
        },
        None => {
            cells.push(text_cell(interface));
            cells.push(cell(el("span").class("mj-muted").text("not exposed")));
            cells.push(cell(el("span").text("-")));
        },
    }
    let r = row(cells);
    assert(els_model(cells@) =~= match projection_row(
        interface@,
        match value {
            Some(v) => Some(v@),
            None => None,
        },
        match docs {
            Some(h) => Some(h@),
            None => None,
        },
    ) {
        NodeModel::Element(x) => x.children,
        _ => seq![],
    });
    r
}

/// Where a capability is projected: as an MCP tool and resource, over HTTP with its place
/// in Swagger UI, and on the command line.
pub open spec fn projections_model(d: CapabilityDetail, swagger: Seq<char>) -> ElementModel {
    card_model(
        "Projections"@,
        table_model(
            seq!["Interface"@, "As"@, "Where"@],
            seq![
                projection_row(
                    "MCP tool"@,
                    match d.mcp_tool {
                        Some(t) => Some(t@),
                        None => None,
                    },
                    None,
                ),
                projection_row(
                    "MCP resource"@,
                    match d.mcp_resource {
                        Some(u) => Some(u@),
                        None => None,
                    },
                    None,
                ),
                projection_row(
                    "HTTP"@,
                    match d.http_route {
                        Some((m, p)) => Some(m@ + " "@ + p@),
                        None => None,
                    },
                    match d.http_route {
                        Some(_) => Some(swagger + "#/"@ + d.entry.module@ + "/"@ + d.entry.id@),
                        None => None,
                    },
                ),
                projection_row(
                    "Command line"@,
                    match d.cli_path {
                        Some(p) => Some("majordomus "@ + join_with_text(views(p@), " "@)),
                        None => None,
                    },
                    None,
                ),
            ],
        ),
    )
}

fn projections(d: &CapabilityDetail, swagger: &str) -> (r: El)
    ensures
        r@ == projections_model(*d, swagger@),
{
    let tool = match &d.mcp_tool {
        Some(t) => Some(t.as_str()),
        None => None,
    };
    let resource = match &d.mcp_resource {
        Some(u) => Some(u.as_str()),
        None => None,
    };
    let (route, docs) = match &d.http_route {
        Some((m, p)) => {
            let mut route = String::from_str(m.as_str());
            push_str(&mut route, " ");
            push_str(&mut route, p.as_str());
            let mut docs = String::from_str(swagger);
            push_str(&mut docs, "#/");
            push_str(&mut docs, d.entry.module.as_str());
            push_str(&mut docs, "/");
            push_str(&mut docs, d.entry.id.as_str());
            (Some(route), Some(docs))
        },
        None => (None, None),
    };
    let command = match &d.cli_path {
        Some(p) => {
            let mut c = String::from_str("majordomus ");
            push_str(&mut c, joined_by(p, " ").as_str());
            Some(c)
        },
        None => None,
    };
    let mut rows: Vec<El> = Vec::new();
    rows.push(projection_row_el("MCP tool", tool, None));
    rows.push(projection_row_el("MCP resource", resource, None));
    rows.push(
        projection_row_el(
            "HTTP",
            match &route {
                Some(x) => Some(x.as_str()),
                None => None,
            },
            match &docs {
                Some(x) => Some(x.as_str()),
                None => None,
            },
        ),
    );
    rows.push(
        projection_row_el(
            "Command line",
            match &command {
                Some(x) => Some(x.as_str()),
                None => None,
            },
            None,
        ),
    );
    let headers = ["Interface", "As", "Where"];
    proof {
        assert(strs_model(headers@) =~= seq!["Interface"@, "As"@, "Where"@]);
        assert(els_model(rows@) =~= match projections_model(*d, swagger@).children[1] {
            NodeModel::Element(t) => match t.children[0] {
                NodeModel::Element(tb) => match tb.children[1] {
                    NodeModel::Element(body) => body.children,
                    _ => seq![],
                },
                _ => seq![],
            },
            _ => seq![],
        });
    }
    card("Projections", table(&headers, rows))
}

// ------------------------------------------------------------------ schemas and cases

/// The heading of a schema: which side, and the name of its type.
pub open spec fn schema_heading(side: Seq<char>, name: Option<String>) -> Seq<char> {
    side + " · "@ + match name {
        Some(n) => n@,
        None => "(anonymous)"@,
    }
}

fn heading(side: &str, name: &Option<String>) -> (r: String)
    ensures
        r@ == schema_heading(side@, *name),
{
    let mut out = String::from_str(side);
    push_str(&mut out, " · ");
    push_str(
        &mut out,
        match name {
            Some(n) => n.as_str(),
            None => "(anonymous)",
        },
    );
    out
}

/// The schemas card.
pub open spec fn schemas_model(d: CapabilityDetail) -> ElementModel {
    card_model(
        "Schemas"@,
        holding(
            holding(bare("div"@), details_model(schema_heading("Input"@, d.input_name), pre_model(d.input_schema@))),
            details_model(schema_heading("Output"@, d.output_name), pre_model(d.output_schema@)),
        ),
    )
}

/// What the examples card says of where its cases come from.
pub const CASES_NOTE: &'static str = "These are the capability's own benchmark cases: the same inputs the benchmark runs and the OpenAPI document shows.";

/// One case, with the button that loads it into the runner when there is one.
pub open spec fn case_node(c: Case, runnable: bool) -> NodeModel {
    let d = holding(bare("div"@), pre_model(c.input@));
    let d = if runnable {
        holding(
            d,
            saying(
                with_attr(with_attr(classed("button"@, "mj-button mj-button--quiet"@), "type"@, "button"@), "data-mj-fill"@, c.input_line@),
                "Load into the runner"@,
            ),
        )
    } else {
        d
    };
    NodeModel::Element(details_model(c.name@, d))
}

/// The examples card.
pub open spec fn examples_model(cases: Seq<Case>, runnable: bool) -> ElementModel {
    card_model(
        "Examples"@,
        if cases.len() == 0 {
            nothing_model("This capability declares no benchmark cases, so it has no examples."@)
        } else {
            with_children(
                holding(bare("div"@), saying(classed("p"@, "mj-note"@), CASES_NOTE@)),
                cases.map_values(|c: Case| case_node(c, runnable)),
            )
        },
    )
}

fn examples(cases: &Vec<Case>, runnable: bool) -> (r: El)
    ensures
        r@ == examples_model(cases@, runnable),
{
    if cases.len() == 0 {
        return card("Examples", nothing("This capability declares no benchmark cases, so it has no examples."));
    }
    let mut shown: Vec<El> = Vec::new();
    for k in 0..cases.len()
        invariant
            shown@.len() == k,
            forall|i: int| 0 <= i < k ==> NodeModel::Element((#[trigger] shown@[i])@) == case_node(cases@[i], runnable),
    {
        let c = &cases[k];
        let mut d = el("div").child(pre(c.input.as_str()));
        if runnable {
            d = d.child(
                el("button").class("mj-button mj-button--quiet").attr("type", "button").attr(
                    "data-mj-fill",
                    c.input_line.as_str(),
                ).text("Load into the runner"),
            );
        }
        shown.push(details(c.name.as_str(), d));
    }
    assert(els_model(shown@) =~= cases@.map_values(|c: Case| case_node(c, runnable)));
    card("Examples", el("div").child(el("p").class("mj-note").text(CASES_NOTE)).children(shown))
}

// ------------------------------------------------------------------ the runner

/// What a runner button says the execution is.
pub const EXECUTION_TITLE: &'static str = "Start it as an execution: it gets an id, a page of its own and a live stream of what it is doing";

/// A command that writes the repository.
pub const WRITES: &'static str = "A command that writes the repository. It changes tracked files a commit will carry, and is sent as a POST from this page's origin.";

/// A command that changes only this process.
pub const MEMORY: &'static str = "A command. It changes this process's own memory — not the repository — and is sent as a POST from this page's origin.";

/// A query that can be stopped.
pub const STOPPABLE: &'static str = "It reads and changes nothing, and it stops when it is asked to. Run it as an execution to watch it happen and to be able to cancel it.";

/// A query.
pub const QUERY: &'static str = "A query. It reads and changes nothing.";

/// What the runner says about running a capability: from its declared effect, never from a
/// list of capabilities that need care.
pub open spec fn effect_model(d: CapabilityDetail) -> ElementModel {
    if d.entry.kind@ == "command"@ {
        if d.writes_repository {
            alert_model("warn"@, WRITES@)
        } else {
            alert_model("warn"@, MEMORY@)
        }
    } else if d.cancellable {
        alert_model("info"@, STOPPABLE@)
    } else {
        alert_model("info"@, QUERY@)
    }
}

/// The fields of the runner, one per property of the input schema.
pub open spec fn fields_nodes(inputs: Seq<InputField>) -> Seq<NodeModel> {
    inputs.map_values(|f: InputField| NodeModel::Element(field_model(f.name@, f.schema, f.required, f.texts)))
}

/// The runner's form.
pub open spec fn form_model(d: CapabilityDetail, method: Seq<char>, path: Seq<char>, start: Seq<char>) -> ElementModel {
    let f = classed("form"@, "mj-runner"@);
    let f = with_attr(f, "data-mj-runner"@, d.entry.id@);
    let f = with_attr(f, "data-mj-method"@, method);
    let f = with_attr(f, "data-mj-path"@, path);
    let f = with_attr(f, "data-mj-start"@, start);
    let f = with_attr(f, "data-mj-executions"@, "/cockpit/executions"@);
    let f = with_attr(
        f,
        "data-mj-confirm"@,
        if d.needs_confirmation {
            "yes"@
        } else {
            "no"@
        },
    );
    let f = with_attr(f, "data-mj-effect"@, d.effect@);
    let f = with_attr(f, "novalidate"@, ""@);
    let f = holding(
        f,
        if d.inputs@.len() == 0 {
            saying(classed("p"@, "mj-note"@), "This capability takes no input."@)
        } else {
            with_children(classed("div"@, "mj-fields"@), fields_nodes(d.inputs@))
        },
    );
    let actions = holding(
        holding(
            holding(
                classed("div"@, "mj-runner-actions"@),
                saying(
                    with_attr(classed("button"@, "mj-button mj-button--primary"@), "type"@, "submit"@),
                    if d.entry.kind@ == "command"@ {
                        "Run (changes this process)"@
                    } else {
                        "Run"@
                    },
                ),
            ),
            saying(
                with_attr(
                    with_attr(with_attr(classed("button"@, "mj-button"@), "type"@, "button"@), "data-mj-execute"@, d.entry.id@),
                    "title"@,
                    EXECUTION_TITLE@,
                ),
                "Run as an execution"@,
            ),
        ),
        saying(
            with_attr(with_attr(classed("code"@, "mj-mono mj-preview"@), "data-mj-preview"@, ""@), "tabindex"@, "0"@),
            method + " "@ + path,
        ),
    );
    let f = holding(f, actions);
    holding(f, with_attr(with_attr(classed("div"@, "mj-runner-result"@), "data-mj-result"@, ""@), "aria-live"@, "polite"@))
}

/// The runner card: the form when the capability has an HTTP route and may run, or why it
/// cannot be run from here.
pub open spec fn runner_model(d: CapabilityDetail, start: Seq<char>) -> ElementModel {
    match d.http_route {
        Some((m, p)) => if d.executable {
            card_with_model(
                "Run"@,
                badge_model(d.entry.kind@, d.entry.kind@),
                holding(holding(bare("div"@), effect_model(d)), form_model(d, m@, p@, start)),
            )
        } else {
            card_model(
                "Run"@,
                alert_model(
                    "warn"@,
                    "This capability is listed and is not executable: its stability says so, and every projection refuses it."@,
                ),
            )
        },
        None => card_model(
            "Run"@,
            nothing_model(
                "This capability declares no HTTP exposure, so the Cockpit cannot call it. The MCP and command-line projections may still reach it."@,
            ),
        ),
    }
}

fn runner(d: &CapabilityDetail, start: &str) -> (r: El)
    ensures
        r@ == runner_model(*d, start@),
{
    match &d.http_route {
        Some((m, p)) => if d.executable {
            let mut fields: Vec<El> = Vec::new();
            for k in 0..d.inputs.len()
                invariant
                    fields@.len() == k,
                    forall|i: int|
                        0 <= i < k ==> (#[trigger] fields@[i])@ == field_model(
                            d.inputs@[i].name@,
                            d.inputs@[i].schema,
                            d.inputs@[i].required,
                            d.inputs@[i].texts,
                        ),
            {
                let f = &d.inputs[k];
                fields.push(field(f.name.as_str(), &f.schema, f.required, &f.texts));
            }
            assert(els_model(fields@) =~= fields_nodes(d.inputs@));
            let command = crate::strings::str_eq(d.entry.kind.as_str(), "command");
            let effect = if command {
                if d.writes_repository {
                    alert("warn", WRITES)
                } else {
                    alert("warn", MEMORY)
                }
            } else if d.cancellable {
                alert("info", STOPPABLE)
            } else {
                alert("info", QUERY)
            };
            let inputs = if fields.len() == 0 {
                el("p").class("mj-note").text("This capability takes no input.")
            } else {
                el("div").class("mj-fields").children(fields)
            };
            let mut preview = String::from_str(m.as_str());
            push_str(&mut preview, " ");
            push_str(&mut preview, p.as_str());
            let actions = el("div").class("mj-runner-actions").child(
                el("button").class("mj-button mj-button--primary").attr("type", "submit").text(
                    if command {
                        "Run (changes this process)"
                    } else {
                        "Run"
                    },
                ),
            ).child(
                el("button").class("mj-button").attr("type", "button").attr("data-mj-execute", d.entry.id.as_str()).attr(
                    "title",
                    EXECUTION_TITLE,
                ).text("Run as an execution"),
            ).child(
                el("code").class("mj-mono mj-preview").attr("data-mj-preview", "").attr("tabindex", "0").text(
                    preview.as_str(),
                ),
            );
            let form = el("form").class("mj-runner").attr("data-mj-runner", d.entry.id.as_str()).attr(
                "data-mj-method",
                m.as_str(),
            ).attr("data-mj-path", p.as_str()).attr("data-mj-start", start).attr("data-mj-executions", "/cockpit/executions").attr(
                "data-mj-confirm",
                if d.needs_confirmation {
                    "yes"
                } else {
                    "no"
                },
            ).attr("data-mj-effect", d.effect.as_str()).attr("novalidate", "").child(inputs).child(actions).child(
                el("div").class("mj-runner-result").attr("data-mj-result", "").attr("aria-live", "polite"),
            );
            card_with("Run", badge(d.entry.kind.as_str(), d.entry.kind.as_str()), el("div").child(effect).child(form))
        } else {
            card(
                "Run",
                alert(
                    "warn",
                    "This capability is listed and is not executable: its stability says so, and every projection refuses it.",
                ),
            )
        },
        None => card(
            "Run",
            nothing(
                "This capability declares no HTTP exposure, so the Cockpit cannot call it. The MCP and command-line projections may still reach it.",
            ),
        ),
    }
}

// ------------------------------------------------------------------ the page

/// The body of a capability's page.
pub open spec fn capability_body(
    d: CapabilityDetail,
    cases: Seq<Case>,
    start: Seq<char>,
    out_dir: Seq<char>,
    swagger: Seq<char>,
) -> ElementModel {
    let g = classed("div"@, "mj-grid"@);
    let g = holding(g, card_model("What it is"@, saying(classed("p"@, "mj-prose"@), d.entry.description@)));
    let g = holding(g, card_model("Descriptor"@, facts_model(descriptor_rows(d, out_dir))));
    let g = holding(g, runner_model(d, start));
    let g = holding(g, projections_model(d, swagger));
    let g = holding(g, schemas_model(d));
    holding(g, examples_model(cases, d.http_route is Some))
}

/// The body of the page of a capability the registry does not hold.
pub open spec fn no_such_body(id: Seq<char>) -> ElementModel {
    holding(
        holding(bare("div"@), alert_model("fail"@, "The registry holds no capability '"@ + id + "'."@)),
        link_model("/cockpit/capabilities"@, "Every capability"@),
    )
}

/// The scripts a capability's page loads: the runner when it can run over HTTP, and the
/// executions script when it can run and there is a route that starts executions.
pub open spec fn capability_scripts(d: CapabilityDetail, start: Seq<char>) -> Seq<Seq<char>> {
    let s: Seq<Seq<char>> = if d.http_route is Some && d.executable {
        seq!["runner.js"@]
    } else {
        seq![]
    };
    if d.executable && start.len() > 0 {
        s.push("executions.js"@)
    } else {
        s
    }
}

/// One capability. `found` is what the registry holds under `id`; `cases` its benchmark
/// cases; `start` the route that starts an execution, empty when the registry declares
/// none; `out_dir` where the generator writes; `swagger` where Swagger UI answers.
pub fn capability(
    id: &str,
    found: Option<&CapabilityDetail>,
    cases: &Vec<Case>,
    start: &str,
    out_dir: &str,
    swagger: &str,
) -> (r: Page)
    ensures
        r.area == Area::Capabilities,
        match found {
            None => {
                &&& r.title@ == "No such capability"@
                &&& r.main@ == no_such_body(id@)
                &&& r.status == 404
                &&& r.subtitle is None
                &&& r.breadcrumbs@.len() == 0
                &&& r.scripts@.len() == 0
            },
            Some(d) => {
                &&& r.title@ == d.entry.id@
                &&& r.main@ == capability_body(*d, cases@, start@, out_dir@, swagger@)
                &&& r.status == 200
                &&& r.subtitle matches Some(s) && s@ == d.entry.title@
                &&& trail_views(r.breadcrumbs@) == seq![
                    ("Cockpit"@, Some("/cockpit"@)),
                    ("Capabilities"@, Some("/cockpit/capabilities"@)),
                    (d.entry.id@, None::<Seq<char>>),
                ]
                &&& r.scripts@.map_values(|x: &str| x@) == capability_scripts(*d, start@)
            },
        },
{
    let d = match found {
        Some(d) => d,
        None => {
            let mut line = String::from_str("The registry holds no capability '");
            push_str(&mut line, id);
            push_str(&mut line, "'.");
            let body = el("div").child(alert("fail", line.as_str())).child(link("/cockpit/capabilities", "Every capability"));
            return Page::new(Area::Capabilities, "No such capability", body).status(404);
        },
    };
    let schemas = card(
        "Schemas",
        el("div").child(details(heading("Input", &d.input_name).as_str(), pre(d.input_schema.as_str()))).child(
            details(heading("Output", &d.output_name).as_str(), pre(d.output_schema.as_str())),
        ),
    );
    let body = el("div").class("mj-grid").child(
        card("What it is", el("p").class("mj-prose").text(d.entry.description.as_str())),
    ).child(descriptor(d, out_dir)).child(runner(d, start)).child(projections(d, swagger)).child(schemas).child(
        examples(cases, d.http_route.is_some()),
    );
    let mut trail: Vec<(&str, Option<&str>)> = Vec::new();
    trail.push(("Cockpit", Some("/cockpit")));
    trail.push(("Capabilities", Some("/cockpit/capabilities")));
    trail.push((d.entry.id.as_str(), None));
    assert(given_trail(trail@) =~= seq![
        ("Cockpit"@, Some("/cockpit"@)),
        ("Capabilities"@, Some("/cockpit/capabilities"@)),
        (d.entry.id@, None::<Seq<char>>),
    ]);
    let mut page = Page::new(Area::Capabilities, d.entry.id.as_str(), body).subtitle(d.entry.title.as_str()).trail(trail);
    let ghost scripts0 = page.scripts@;
    assert(scripts0.map_values(|x: &str| x@) =~= Seq::<Seq<char>>::empty());
    if d.http_route.is_some() && d.executable {
        page = page.script("runner.js");
    }
    let ghost scripts1 = page.scripts@;
    assert(scripts1.map_values(|x: &str| x@) =~= (if d.http_route is Some && d.executable {
        seq!["runner.js"@]
    } else {
        Seq::<Seq<char>>::empty()
    }));
    if d.executable && start.unicode_len() > 0 {
        page = page.script("executions.js");
        assert(page.scripts@.map_values(|x: &str| x@) =~= scripts1.map_values(|x: &str| x@).push("executions.js"@));
    }
    page
}

} // verus!
