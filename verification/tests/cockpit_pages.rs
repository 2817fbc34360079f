use majordomus_cli::cockpit::html::el;
use majordomus_cli::cockpit::nav::Area;
use majordomus_cli::cockpit::pages::{
    asked_page, effect_status, failed, field, href_with, not_found, param, parse_number, progress_bar, schema_shape,
    section_error, select, FieldKind, FieldTexts, Json, Page,
};

fn obj(entries: Vec<(&str, Json)>) -> Json {
    Json::Object(entries.into_iter().map(|(k, v)| (k.to_string(), v)).collect())
}

fn s(t: &str) -> Json {
    Json::Str(t.to_string())
}

fn no_texts() -> FieldTexts {
    FieldTexts { minimum: None, maximum: None, default: None }
}

#[test]
fn a_nullable_integer_is_edited_as_a_number() {
    let schema = obj(vec![("anyOf", Json::Array(vec![obj(vec![("type", s("integer"))]), obj(vec![("type", s("null"))])]))]);
    assert_eq!(schema_shape(&schema).0, FieldKind::Integer);
    let null_first = obj(vec![("oneOf", Json::Array(vec![obj(vec![("type", s("null"))]), obj(vec![("type", s("boolean"))])]))]);
    assert_eq!(schema_shape(&null_first).0, FieldKind::Boolean);
    let listed = obj(vec![("type", Json::Array(vec![s("null"), s("number")]))]);
    assert_eq!(schema_shape(&listed).0, FieldKind::Number);
}

#[test]
fn an_enumeration_becomes_a_select() {
    let schema = obj(vec![("enum", Json::Array(vec![s("a"), s("b")]))]);
    let (_, values) = schema_shape(&schema);
    assert_eq!(values.as_deref(), Some(["a".to_string(), "b".to_string()].as_slice()));
    let mixed = obj(vec![("enum", Json::Array(vec![s("a"), Json::Null]))]);
    assert_eq!(schema_shape(&mixed), (FieldKind::Structured, None));
}

#[test]
fn an_untyped_property_is_edited_as_json() {
    assert_eq!(schema_shape(&obj(vec![])).0, FieldKind::Structured);
    assert_eq!(schema_shape(&obj(vec![("$ref", s("#/$defs/Thing"))])).0, FieldKind::Structured);
}

#[test]
fn a_field_carries_its_description_and_its_requiredness() {
    let rendered = field(
        "limit",
        &obj(vec![("type", s("integer")), ("description", s("How many.")), ("maximum", Json::Number("50".into()))]),
        true,
        &FieldTexts { minimum: None, maximum: Some("50".into()), default: None },
    )
    .render();
    assert!(rendered.contains("How many."), "{rendered}");
    assert!(rendered.contains("required"), "{rendered}");
    assert!(rendered.contains("max=\"50\""), "{rendered}");
    assert!(rendered.contains("data-mj-type=\"integer\""), "{rendered}");
}

#[test]
fn an_optional_choice_offers_unset_and_selects_its_default() {
    let schema = obj(vec![("enum", Json::Array(vec![s("json"), s("text")])), ("default", s("text"))]);
    let rendered = field("format", &schema, false, &no_texts()).render();
    assert!(rendered.contains("(unset)"), "{rendered}");
    assert!(rendered.contains("<option value=\"text\" selected>text</option>"), "{rendered}");
    assert!(rendered.contains("optional"), "{rendered}");
    let flag = field("dry", &obj(vec![("type", s("boolean")), ("default", Json::Bool(true))]), false, &no_texts()).render();
    assert!(flag.contains("type=\"checkbox\"") && flag.contains("checked"), "{flag}");
}

#[test]
fn the_query_string_keeps_what_is_in_force_and_replaces_what_is_set() {
    let query = vec![("kind".to_string(), "rule".to_string()), ("page".to_string(), "3".to_string()), ("q".to_string(), String::new())];
    assert_eq!(href_with("/cockpit/objects", &query, &[("page", None)]), "/cockpit/objects?kind=rule");
    assert_eq!(href_with("/cockpit/objects", &query, &[("page", Some("4"))]), "/cockpit/objects?kind=rule&page=4");
    assert_eq!(href_with("/cockpit/objects", &[], &[("page", None)]), "/cockpit/objects");
    assert_eq!(href_with("/x", &[], &[("q", Some("a b"))]), "/x?q=a%20b");
    assert_eq!(asked_page(&query), 3);
    assert_eq!(asked_page(&[("page".to_string(), "x".to_string())]), 1);
    assert_eq!(asked_page(&[]), 1);
    assert_eq!(param(&query, "kind").as_deref(), Some("rule"));
    assert_eq!(param(&query, "q"), None);
}

#[test]
fn a_number_is_read_as_the_standard_library_reads_one() {
    assert_eq!(parse_number("42"), Some(42));
    assert_eq!(parse_number("+7"), Some(7));
    assert_eq!(parse_number(""), None);
    assert_eq!(parse_number("+"), None);
    assert_eq!(parse_number("-1"), None);
    assert_eq!(parse_number("1x"), None);
    assert_eq!(parse_number("99999999999999999999999"), None);
    for t in ["0", "12", "+3", "007", "18446744073709551615", "18446744073709551616", "a"] {
        assert_eq!(parse_number(t), t.parse::<usize>().ok(), "{t}");
    }
}

#[test]
fn a_page_that_failed_or_does_not_exist_says_so() {
    let p: Page = failed(Area::Health, "Health", "health.report did not answer");
    assert_eq!(p.status, 500);
    assert!(p.main.render().contains("did not answer"));
    let n = not_found("/cockpit/nope");
    assert_eq!(n.status, 404);
    let body = n.main.render();
    assert!(body.contains("The Cockpit serves no page at /cockpit/nope."), "{body}");
    assert!(body.contains("href=\"/cockpit/health\""), "{body}");
    assert!(section_error("Runtime", "unreadable").render().contains("mj-alert--fail"));
    let with_trail = Page::new(Area::Health, "Health", el("div")).trail(vec![("Cockpit", Some("/cockpit")), ("Health", None)]);
    assert_eq!(with_trail.breadcrumbs, vec![("Cockpit".to_string(), Some("/cockpit".to_string())), ("Health".to_string(), None)]);
}

#[test]
fn controls_render_what_they_are_given() {
    assert_eq!(effect_status("read_only"), "ok");
    assert_eq!(effect_status("network_mutation"), "warn");
    assert_eq!(effect_status("anything"), "fail");
    let bar = progress_bar(42).render();
    assert!(bar.contains("aria-valuenow=\"42\"") && bar.contains("width:42%") && bar.contains(">42%<"), "{bar}");
    let chooser = select("kind", "Kind", Some("rule"), vec![("rule".into(), "Rules".into()), ("skill".into(), "Skills".into())]).render();
    assert!(chooser.contains(">any kind<"), "{chooser}");
    assert!(chooser.contains("<option value=\"rule\" selected>Rules</option>"), "{chooser}");
}
