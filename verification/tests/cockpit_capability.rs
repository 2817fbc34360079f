use majordomus_cli::cockpit::catalogue::{CapabilityEntry, Provenance};
use majordomus_cli::cockpit::descriptor::{BenchmarkPolicy, CachePolicy, CapabilityDetail, Case, InputField};
use majordomus_cli::cockpit::nav::Area;
use majordomus_cli::cockpit::pages::{capability, FieldTexts, Json};

fn detail(kind: &str, http: bool, executable: bool) -> CapabilityDetail {
    CapabilityDetail {
        entry: CapabilityEntry {
            id: "work.list".to_string(),
            kind: kind.to_string(),
            title: "List the work".to_string(),
            description: "Every open item.".to_string(),
            module: "work".to_string(),
            mcp: true,
            http,
            cli: true,
            provenance: Provenance::Builtin,
            cached: false,
        },
        stability: "stable".to_string(),
        executable,
        source_path: "src/work.rs".to_string(),
        cache: CachePolicy::Process { max_entries: 64, ttl_seconds: Some(30) },
        benchmark: BenchmarkPolicy::Waived { reason: "io_bound".to_string() },
        tags: vec![],
        mcp_tool: Some("work_list".to_string()),
        mcp_resource: None,
        http_route: if http { Some(("GET".to_string(), "/api/v1/work".to_string())) } else { None },
        cli_path: Some(vec!["work".to_string(), "list".to_string()]),
        input_name: None,
        input_schema: "{}".to_string(),
        output_name: Some("WorkList".to_string()),
        output_schema: "{\"type\": \"object\"}".to_string(),
        inputs: vec![InputField {
            name: "limit".to_string(),
            schema: Json::Object(vec![("type".to_string(), Json::Str("integer".to_string()))]),
            required: false,
            texts: FieldTexts { minimum: None, maximum: None, default: None },
        }],
        needs_confirmation: false,
        effect: "read_only".to_string(),
        writes_repository: false,
        cancellable: false,
    }
}

#[test]
fn a_capability_the_registry_does_not_hold_is_not_found() {
    let p = capability("nope", None, &vec![], "", "generated/", "/docs");
    assert_eq!(p.status, 404);
    assert_eq!(p.title, "No such capability");
    assert!(p.main.render().contains("no capability &#39;nope&#39;"));
}

#[test]
fn the_descriptor_says_what_the_policies_are() {
    let d = detail("query", true, true);
    let p = capability("work.list", Some(&d), &vec![], "/api/v1/executions", "generated/", "/docs");
    assert_eq!(p.area, Area::Capabilities);
    assert_eq!(p.scripts, vec!["runner.js", "executions.js"]);
    let out = p.main.render();
    assert!(out.contains("process, 64 entries, 30s"), "{out}");
    assert!(out.contains("waived: io_bound"), "{out}");
    assert!(out.contains("<code class=\"mj-mono\">GET /api/v1/work</code>"), "{out}");
    assert!(out.contains("href=\"/docs#/work/work.list\""), "{out}");
    assert!(out.contains("majordomus work list"), "{out}");
    assert!(out.contains("not exposed"), "the resource is not: {out}");
    assert!(out.contains("Input · (anonymous)"), "{out}");
    assert!(out.contains("Output · WorkList"), "{out}");
    assert!(out.contains("A query. It reads and changes nothing."), "{out}");
    assert!(out.contains("data-mj-start=\"/api/v1/executions\""), "{out}");
    assert!(out.contains("mj-field-limit"), "{out}");
}

#[test]
fn a_capability_that_cannot_run_here_says_why() {
    let d = detail("query", false, true);
    let p = capability("work.list", Some(&d), &vec![], "", "generated/", "/docs");
    assert_eq!(p.scripts, Vec::<&str>::new());
    assert!(p.main.render().contains("declares no HTTP exposure"));
    let d = detail("query", true, false);
    let p = capability("work.list", Some(&d), &vec![], "/start", "generated/", "/docs");
    assert!(p.scripts.is_empty());
    assert!(p.main.render().contains("is not executable"));
}

#[test]
fn a_command_says_what_it_changes() {
    let mut d = detail("command", true, true);
    d.writes_repository = true;
    let cases = vec![Case { name: "one".to_string(), input: "{\n  \"a\": 1\n}".to_string(), input_line: "{\"a\":1}".to_string() }];
    let out = capability("work.list", Some(&d), &cases, "", "generated/", "/docs").main.render();
    assert!(out.contains("A command that writes the repository."), "{out}");
    assert!(out.contains("Run (changes this process)"), "{out}");
    assert!(out.contains("data-mj-fill=\"{&quot;a&quot;:1}\""), "{out}");
}
