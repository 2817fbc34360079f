use majordomus_cli::cockpit::models::{Inference, ModelReport, ModelStatus, ModelsReport, VendorReport};
use majordomus_cli::cockpit::nav::Area;
use majordomus_cli::cockpit::pages::models;

fn report() -> ModelsReport {
    ModelsReport {
        vendors: vec![
            VendorReport { id: "acme".into(), title: "Acme".into(), inference: Inference::Remote, credential_configured: Some(false) },
            VendorReport { id: "home".into(), title: "Home".into(), inference: Inference::Local, credential_configured: None },
        ],
        models: vec![ModelReport {
            id: "acme.large".into(),
            vendor: "acme".into(),
            native_id: "large-2".into(),
            context_window: Some(200000),
            capabilities: vec!["chat".into(), "tools".into()],
            aliases: vec!["large".into()],
            status: ModelStatus::Deprecated,
            note: Some("replaced soon".into()),
        }],
        count: 1,
        diagnostics: vec!["acme.small names an unknown vendor".into()],
    }
}

#[test]
fn the_catalogue_shows_vendors_and_models_with_their_words() {
    let filed = vec!["deprecated".to_string()];
    let p = models(Ok(report()), &filed);
    assert_eq!(p.area, Area::Models);
    assert_eq!(p.status, 200);
    assert!(p.breadcrumbs.is_empty());
    let html = p.main.render();
    assert!(html.contains("Vendors (2)"));
    assert!(html.contains("Models (1)"));
    assert!(html.contains("Acme — acme"));
    assert!(html.contains("credential not configured"));
    assert!(html.contains("no credential declared"));
    assert!(html.contains("<span class=\"mj-tag\">remote</span>"));
    assert!(html.contains("mj-badge--deprecated"));
    assert!(html.contains("200000"));
    assert!(html.contains("chat, tools"));
    assert!(html.contains("Aliases"));
    assert!(html.contains("replaced soon"));
    assert!(html.contains("<li>acme.small names an unknown vendor</li>"));
}

#[test]
fn an_empty_catalogue_says_where_to_declare_one() {
    let p = models(Ok(ModelsReport { vendors: vec![], models: vec![], count: 0, diagnostics: vec![] }), &vec![]);
    let html = p.main.render();
    assert!(html.contains("share/models.yaml is the one place to add one."));
    assert!(html.contains("nothing qualifies"));
    assert!(!html.contains("Findings"));
    assert_eq!(models(Err("no catalogue".into()), &vec![]).status, 500);
}

#[test]
fn a_model_without_a_declared_window_says_so() {
    let mut r = report();
    r.models[0].context_window = None;
    r.models[0].aliases.clear();
    r.models[0].note = None;
    let html = models(Ok(r), &vec![]).main.render();
    assert!(html.contains("(not declared)"));
    assert!(!html.contains("Aliases"));
}
