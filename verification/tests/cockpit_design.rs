use majordomus_cli::cockpit::design::{
    DesignReport, DesignTallies, Projection, Resolved, Token, TokenKind, TokenPart,
};
use majordomus_cli::cockpit::nav::Area;
use majordomus_cli::cockpit::pages::design;

fn resolved(literal: &str, reference: &str) -> Resolved {
    Resolved { literal: literal.to_string(), reference: reference.to_string() }
}

fn part(name: &str, light: &str) -> TokenPart {
    TokenPart {
        part: name.to_string(),
        css: format!("--mj-{name}"),
        light: resolved(light, &format!("palette.{name}")),
        dark: resolved("#000", "palette.black"),
    }
}

fn token(kind: TokenKind, name: &str) -> Token {
    Token {
        kind,
        name: name.to_string(),
        css: vec![format!("--mj-{name}"), "x".to_string(), format!("mj-text-{name}")],
        value: Some("1rem / 1.5".to_string()),
        about: format!("the {name}"),
        aliases: vec![],
        states: vec![],
        parts: vec![],
    }
}

fn report() -> DesignReport {
    DesignReport {
        source: "share/design/design.yaml".to_string(),
        fingerprint: "abcdef".to_string(),
        design: "abc".to_string(),
        theme_class: "dark".to_string(),
        theme_storage_key: "mj-theme".to_string(),
        viewports: vec![375, 1280],
        tallies: DesignTallies { roles: 1, statuses: 1, states: 2, type_steps: 1, aliases: 1, palette: 9 },
        projections: vec![Projection { path: "share/design/tokens.css".to_string(), read_by: "every page".to_string() }],
    }
}

fn tokens() -> Vec<Token> {
    let mut role = token(TokenKind::Role, "ink");
    role.parts = vec![part("value", "#111")];
    role.aliases = vec!["text".to_string()];
    let mut status = token(TokenKind::Status, "warn");
    status.parts = vec![part("fg", "#a50"), part("bg", "#ffe"), part("line", "#fc0")];
    status.states = vec!["stale".to_string(), "pending".to_string()];
    vec![
        token(TokenKind::Radius, "round"),
        status,
        role,
        token(TokenKind::Type, "body"),
        token(TokenKind::Palette, "amber"),
    ]
}

#[test]
fn a_design_report_that_did_not_answer_is_a_failed_page() {
    assert_eq!(design(Err("x".to_string()), Ok(tokens())).status, 500);
    assert_eq!(design(Ok(report()), Err("y".to_string())).status, 500);
}

#[test]
fn every_token_sits_on_its_own_table() {
    let p = design(Ok(report()), Ok(tokens()));
    assert_eq!(p.area, Area::Design);
    let out = p.main.render();
    assert!(out.contains("style=\"background: #111\" title=\"#111\""), "{out}");
    assert!(out.contains("<span class=\"mj-tag\">text</span>"), "{out}");
    assert!(out.contains("mj-badge--stale"), "{out}");
    assert!(out.contains("style=\"background: #ffe\""), "the ground is the bg part: {out}");
    assert!(out.contains("<span class=\"mj-type-sample--body\">The quick brown fox"), "{out}");
    assert!(out.contains("<code class=\"mj-mono\">mj-text-body</code>"), "{out}");
    assert!(out.contains("<span class=\"mj-tag\">radius</span>"), "{out}");
    assert!(!out.contains("amber"), "a palette entry is on no table: {out}");
    assert!(out.contains("<span class=\"mj-tag\">375px</span>"), "{out}");
    assert!(out.contains("--mj-design: &quot;abc&quot;"), "{out}");
}
