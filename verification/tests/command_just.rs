use majordomus_cli::command::facts::Facts;
use majordomus_cli::command::graph::CommandGraph;
use majordomus_cli::command::just::{one_line, quote, Bridge, HEADER};
use majordomus_cli::command::model::{
    Alias, Availability, CommandId, CommandNode, EffectClass, Execution, Interactivity, Program,
    Projections, Provenance, Visibility,
};

fn node(program: Program, path: &[&str], summary: &str, aliases: &[&str]) -> CommandNode {
    let path: Vec<String> = path.iter().map(|s| (*s).to_string()).collect();
    CommandNode {
        id: CommandId::new(program, &path),
        program,
        summary: summary.into(),
        description: None,
        usage: "x".into(),
        runnable: true,
        arguments: Vec::new(),
        execution: match program {
            Program::Native => Execution::Native { argv: path.clone() },
            Program::Shell => Execution::Shell { argv: path.clone() },
            Program::Workflow => Execution::External {
                steps: vec![
                    vec!["npm".to_string(), "ci".to_string()],
                    vec!["npm".to_string(), "run".to_string(), "build; rm -rf /".to_string()],
                ],
            },
        },
        effect: EffectClass::ReadOnly,
        interactivity: Interactivity::NonInteractive,
        visibility: Visibility::Public,
        availability: Availability::always(),
        provenance: Provenance::Clap { path: "x".into() },
        aliases: aliases
            .iter()
            .map(|a| Alias {
                name: (*a).to_string(),
                reason: "kept".into(),
            })
            .collect(),
        deprecation: None,
        tags: vec!["stage:any".to_string(), "lifecycle".to_string()],
        examples: Vec::new(),
        path,
        projections: Projections::default(),
    }
}

fn graph() -> CommandGraph {
    let mut hidden = node(Program::Native, &["internal"], "not for people", &[]);
    hidden.visibility = Visibility::Internal;
    let nodes = vec![
        node(Program::Native, &["bench", "coverage"], "Measure what the tests reach.\nTwice.", &["cov"]),
        node(Program::Shell, &["doctor"], "Check the checkout's health", &[]),
        node(Program::Workflow, &["site-build"], "Build the site", &["site"]),
        hidden,
    ];
    CommandGraph::build(nodes, Vec::new(), &Facts::none("/r"), "1.0.0")
}

fn bridge() -> Bridge {
    Bridge::render(&graph(), &Facts::none("/r"))
}

#[test]
fn every_listed_command_becomes_a_recipe_and_nothing_else_does() {
    let graph = graph();
    let text = Bridge::render(&graph, &Facts::none("/r")).text;
    for node in graph.listed() {
        let name = node.projections.just.clone().unwrap();
        assert!(
            text.contains(&format!("\n{name} *args:\n")),
            "{name} has no recipe"
        );
    }
    let recipes = text.lines().filter(|l| l.ends_with(" *args:")).count();
    assert_eq!(recipes, graph.listed().len(), "no ghost recipe");
    assert!(!text.contains("internal *args"));
}

#[test]
fn the_description_is_the_commands_own_summary_and_exists_once() {
    let graph = graph();
    let text = Bridge::render(&graph, &Facts::none("/r")).text;
    let node = graph.get("native.bench.coverage").unwrap();
    let expected = one_line(&node.summary);
    assert!(text.contains(&format!("# {expected}\n[group('bench')]\nbench-coverage *args:")));
    assert_eq!(text.matches(expected.as_str()).count(), 1);
}

#[test]
fn arguments_are_forwarded_and_never_interpolated() {
    let text = bridge().text;
    assert!(text.contains("set positional-arguments := true"));
    let mut bodies = 0;
    for line in text.lines().filter(|l| l.starts_with("    ")) {
        bodies += 1;
        if line.contains("'ci'") {
            // the first step of a workflow does not take the caller's words
            assert!(!line.ends_with("\"$@\""), "{line}");
            continue;
        }
        assert!(line.ends_with("\"$@\""), "{line}");
        assert!(
            !line.contains("{{args}}"),
            "a caller's words are never pasted into a command line: {line}"
        );
    }
    assert!(bodies >= 3);
}

#[test]
fn nothing_the_graph_holds_reaches_a_shell_unquoted() {
    let text = bridge().text;
    for line in text.lines().filter(|l| l.starts_with("    ")) {
        let payload = line.trim_start().trim_end_matches(" \"$@\"");
        let dangerous = ["$(", "`", ";", "&&", "||", ">", "<", "|"];
        let outside_quotes: String = {
            let mut out = String::new();
            let mut inside = false;
            for c in payload.chars() {
                if c == '\'' {
                    inside = !inside;
                } else if !inside {
                    out.push(c);
                }
            }
            out
        };
        for d in dangerous {
            assert!(
                !outside_quotes.contains(d),
                "{d} outside a quoted word in {line}"
            );
        }
    }
}

#[test]
fn a_description_that_tried_to_be_syntax_is_one_line_of_comment() {
    assert_eq!(one_line("a\nb: rm -rf /"), "a b: rm -rf /");
    assert_eq!(one_line("   "), "(no description)");
    assert!(!one_line("x\u{1b}[31m").contains('\u{1b}'));
}

#[test]
fn a_word_carrying_a_quote_cannot_close_the_literal() {
    assert_eq!(quote("plain"), "'plain'");
    assert_eq!(quote("with'quote"), "'withquote'");
    assert!(!quote("a\nb").contains('\n'));
}

#[test]
fn an_alias_is_projected_as_an_alias_and_not_as_a_second_recipe() {
    let graph = graph();
    let text = Bridge::render(&graph, &Facts::none("/r")).text;
    let mut seen = 0;
    for node in graph.listed() {
        for alias in &node.projections.just_aliases {
            seen += 1;
            let name = node.projections.just.clone().unwrap();
            assert!(text.contains(&format!("alias {alias} := {name}\n")), "{alias}");
            assert!(!text.contains(&format!("\n{alias} *args:\n")));
        }
    }
    assert_eq!(seen, 2);
}

#[test]
fn the_bridge_names_its_header_and_its_fingerprint() {
    let b = bridge();
    assert!(b.text.starts_with(&format!("# {HEADER}")));
    assert!(b.text.contains(&format!("# Fingerprint: {}\n", b.fingerprint)));
    assert_eq!(b.fingerprint.len(), 64);
    assert!(b.text.contains("majordomus_native := 'majordomus'\n"));
    assert!(b.text.contains("majordomus_shell := 'bin/majordomus'\n"));
    assert_eq!(Bridge::path("/r"), "/r/.ai/local/state/command/bridge.just");
    assert_eq!(Bridge::path("/r/"), "/r/.ai/local/state/command/bridge.just");
}

#[test]
fn a_shell_command_is_filed_under_its_category() {
    let text = bridge().text;
    assert!(text.contains("[group('lifecycle')]\ndoctor *args:"), "{text}");
    assert!(text.contains("[group('site-build')]\nsite-build *args:"), "{text}");
}

#[test]
fn a_build_inside_the_checkout_is_spelled_relative() {
    let mut facts = Facts::none("/r");
    facts.native = Some("/r/apps/majordomus-cli/target/debug/majordomus".to_string());
    assert_eq!(
        facts.native_command().as_deref(),
        Some("apps/majordomus-cli/target/debug/majordomus")
    );
    facts.native = Some("/opt/bin/majordomus".to_string());
    assert_eq!(facts.native_command().as_deref(), Some("/opt/bin/majordomus"));
    let text = Bridge::render(&graph(), &facts).text;
    assert!(text.contains("majordomus_native := '/opt/bin/majordomus'\n"));
}
