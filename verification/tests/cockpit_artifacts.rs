use majordomus_cli::cockpit::nav::Area;
use majordomus_cli::cockpit::outputs::{ArtifactReport, ArtifactTallies, GeneratedDocument, GeneratedFile};
use majordomus_cli::cockpit::pages::artifacts;

fn report(present: bool, stale: usize, missing: usize) -> ArtifactReport {
    ArtifactReport {
        present,
        tallies: ArtifactTallies { documents: 1, artifacts: 2, current: 2 - stale.min(2), stale, missing },
        manifest: "site/index.json".to_string(),
        schema: "index.schema.json".to_string(),
        regenerate: "majordomus generate".to_string(),
        verify: "majordomus generate --check".to_string(),
        documents: vec![GeneratedDocument {
            id: "registry".to_string(),
            formats: vec!["json".to_string(), "yaml".to_string()],
            schema: None,
            source: "the capability registry".to_string(),
        }],
        artifacts: vec![
            GeneratedFile {
                path: "site/registry.json".to_string(),
                document: "registry".to_string(),
                format: "json".to_string(),
                bytes: Some(1234),
                state: "current".to_string(),
            },
            GeneratedFile {
                path: "site/registry.yaml".to_string(),
                document: "registry".to_string(),
                format: "yaml".to_string(),
                bytes: None,
                state: "missing".to_string(),
            },
        ],
    }
}

#[test]
fn an_artifact_listing_that_did_not_answer_is_a_failed_page() {
    let p = artifacts(Err("no manifest".to_string()));
    assert_eq!(p.area, Area::Artifacts);
    assert_eq!(p.status, 500);
}

#[test]
fn the_standing_badge_says_missing_before_stale_before_current() {
    let missing = artifacts(Ok(report(true, 1, 1))).main.render();
    assert!(missing.contains("mj-badge--fail"), "{missing}");
    assert!(missing.contains("</span>missing</span>"), "{missing}");
    let stale = artifacts(Ok(report(true, 1, 0))).main.render();
    assert!(stale.contains("</span>stale</span>"), "{stale}");
    let current = artifacts(Ok(report(true, 0, 0))).main.render();
    assert!(current.contains("mj-badge--ok"), "{current}");
    assert!(current.contains("</span>current</span>"), "{current}");
}

#[test]
fn a_tree_that_is_not_there_says_so() {
    let out = artifacts(Ok(report(false, 0, 0))).main.render();
    assert!(out.contains("</span>not generated</span>"), "{out}");
    assert!(out.contains("has no generated tree yet"), "{out}");
    let there = artifacts(Ok(report(true, 0, 0))).main.render();
    assert!(!there.contains("has no generated tree yet"), "{there}");
}

#[test]
fn every_file_is_a_row_and_a_missing_size_is_a_dash() {
    let p = artifacts(Ok(report(true, 0, 1)));
    assert_eq!(p.status, 200);
    let out = p.main.render();
    assert!(out.contains("<td>1234</td>"), "{out}");
    assert!(out.contains("<td>—</td>"), "{out}");
    assert!(out.contains("site/registry.yaml"), "{out}");
    assert!(out.contains(">json</span>"), "{out}");
}
