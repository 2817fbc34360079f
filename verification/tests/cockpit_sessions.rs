use majordomus_cli::cockpit::nav::Area;
use majordomus_cli::cockpit::sessions::{Episode, EpisodeStanding, Episodes};
use majordomus_cli::cockpit::work::sessions;

fn episode(id: &str, standing: EpisodeStanding, provider: &str, last_activity: &str, tasks: Vec<&str>) -> Episode {
    Episode {
        session_id: id.into(),
        standing,
        provider: provider.into(),
        branch: "main".into(),
        started_at: "2025-05-01T10:00:00Z".into(),
        last_activity: last_activity.into(),
        last_event: "task.claimed".into(),
        tasks: tasks.into_iter().map(String::from).collect(),
        events: 7,
    }
}

#[test]
fn every_open_episode_is_listed_with_its_standing_in_words() {
    let e = Episodes {
        present: true,
        episodes: vec![
            episode("s-1", EpisodeStanding::Current, "editor-a", "2025-05-01T11:00:00Z", vec!["T-1", "T-2"]),
            episode("s-2", EpisodeStanding::Stranded, "", "", vec![]),
        ],
        findings: vec!["one episode cannot be closed".into()],
    };
    let p = sessions(Ok(e));
    assert_eq!(p.area, Area::Sessions);
    assert_eq!(p.status, 200);
    assert_eq!(p.breadcrumbs.len(), 2);
    let html = p.main.render();
    assert!(html.contains("2 open"));
    assert!(html.contains(">current<"));
    assert!(html.contains(">stranded<"));
    assert!(html.contains("mj-badge--fail"));
    assert!(html.contains("(opened by hand)"));
    assert!(html.contains("(has written nothing)"));
    assert!(html.contains("2025-05-01T11:00:00Z · task.claimed"));
    assert!(html.contains(">T-2<"));
    assert!(html.contains("—"));
    assert!(html.contains("one episode cannot be closed"));
    assert!(html.contains("<span class=\"mj-stat-value\">2</span><span class=\"mj-stat-label\">open episodes</span>"));
}

#[test]
fn an_empty_store_and_a_missing_one_are_told_apart() {
    let here = sessions(Ok(Episodes { present: true, episodes: vec![], findings: vec![] })).main.render();
    assert!(here.contains("The store is here and holds no open episode."));
    let fresh = sessions(Ok(Episodes { present: false, episodes: vec![], findings: vec![] })).main.render();
    assert!(fresh.contains("This checkout has no open-episode store yet."));
}

#[test]
fn a_store_that_cannot_be_read_fails_the_page() {
    let p = sessions(Err("the store is locked".into()));
    assert_eq!(p.status, 500);
    assert!(p.main.render().contains("the store is locked"));
}
