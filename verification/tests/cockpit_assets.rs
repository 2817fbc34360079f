use majordomus_cli::cockpit::assets::{media_type, readable, safe_name, AssetAnswer, Assets, Loaded, IMMUTABLE};

#[test]
fn an_absent_directory_serves_nothing_and_does_not_panic() {
    let assets = Assets::none();
    assert!(!assets.present());
    assert_eq!(assets.respond("cockpit.css", None).status(), 404);
    assert_eq!(assets.url("cockpit.css"), "/cockpit/assets/cockpit.css");
    assert!(!assets.needs_read("cockpit.css"), "with no directory there is nothing to read");
}

#[test]
fn a_traversal_is_refused_before_the_filesystem_is_touched() {
    for hostile in ["../Cargo.toml", "../../etc/passwd", "/etc/passwd", "a/../../b", ""] {
        assert_eq!(safe_name(hostile), None, "{hostile}");
        assert_eq!(readable(hostile), None, "{hostile}");
    }
}

#[test]
fn a_safe_name_is_kept_and_an_unsafe_one_is_not() {
    assert_eq!(safe_name("js/graph.js").as_deref(), Some("js/graph.js"));
    assert_eq!(safe_name("../../etc/passwd"), None);
    assert_eq!(safe_name("/etc/passwd"), None);
    assert_eq!(safe_name("js//graph.js"), None);
    assert_eq!(safe_name("js/../../x"), None);
    assert_eq!(safe_name("a b.css"), None);
    assert_eq!(safe_name(&"a".repeat(201)), None);
}

#[test]
fn only_a_served_extension_has_a_media_type() {
    assert_eq!(media_type("cockpit.css"), Some("text/css; charset=utf-8"));
    assert_eq!(media_type("x.wasm"), None);
    assert_eq!(media_type("noextension"), None);
    assert_eq!(media_type("a.b.mjs"), Some("text/javascript; charset=utf-8"));
    assert_eq!(readable("secrets.env"), None);
    assert_eq!(readable("cockpit.css"), Some(("cockpit.css".to_string(), "text/css; charset=utf-8")));
}

#[test]
fn a_file_is_read_once_and_answered_with_its_digest() {
    let mut assets = Assets::new(Some("/share/cockpit".into()));
    assert!(assets.present());
    assert!(assets.needs_read("cockpit.css"));
    assets.remember("cockpit.css", Some("body{color:red}".into()));
    assert!(!assets.needs_read("cockpit.css"));

    let url = assets.url("cockpit.css");
    assert!(url.starts_with("/cockpit/assets/cockpit.css?v="), "{url}");
    let version = url.split_once("?v=").expect("a version").1.to_string();
    assert_eq!(version.len(), 16);

    let hit = assets.respond("cockpit.css", Some(&version));
    assert_eq!(hit.status(), 200);
    match &hit {
        AssetAnswer::Found { body, cache_control, etag, .. } => {
            assert_eq!(body, "body{color:red}");
            assert_eq!(*cache_control, IMMUTABLE);
            assert!(etag.starts_with('"') && etag.ends_with('"') && etag.len() == 66);
        }
        other => panic!("{other:?}"),
    }
    match assets.respond("cockpit.css", None) {
        AssetAnswer::Found { cache_control, .. } => assert_eq!(cache_control, "no-cache"),
        other => panic!("{other:?}"),
    }
    // a second read is not kept: the first answer stands
    assets.remember("cockpit.css", None);
    assert_eq!(assets.respond("cockpit.css", None).status(), 200);
}

#[test]
fn an_extension_the_cockpit_does_not_serve_is_not_served() {
    let mut assets = Assets::new(Some("/share/cockpit".into()));
    assets.remember("secrets.env", Some("TOKEN=1".into()));
    assert!(!assets.has("secrets.env"));
    match assets.respond("secrets.env", None) {
        AssetAnswer::NotFound { message } => {
            assert_eq!(message, "no cockpit asset 'secrets.env'; the distribution's share/cockpit/ holds the ones there are")
        }
        other => panic!("{other:?}"),
    }
}

#[test]
fn a_name_that_may_not_be_read_is_never_kept_as_found() {
    let mut assets = Assets::new(Some("/share/cockpit".into()));
    for hostile in ["a b.css", "../Cargo.toml", "/etc/passwd", "js//x.js"] {
        assets.remember(hostile, Some("body".into()));
        assert!(!assets.has(hostile), "{hostile}");
        assert_eq!(assets.respond(hostile, None).status(), 404, "{hostile}");
        assert_eq!(assets.url(hostile), format!("/cockpit/assets/{hostile}"));
    }
    let mut none = Assets::none();
    none.remember("cockpit.css", Some("body".into()));
    assert!(!none.has("cockpit.css"), "with no directory nothing is served");
}

#[test]
fn the_etag_is_the_sha256_of_the_body() {
    let mut assets = Assets::new(Some("/share/cockpit".into()));
    assets.remember("a.txt", Some("abc".into()));
    let d = "ba7816bf8f01cfea414140de5dae2223b00361a396177a9cb410ff61f20015ad";
    assert_eq!(Loaded::of("abc".into(), "text/plain; charset=utf-8").digest(), d);
    match assets.respond("a.txt", Some("ba7816bf")) {
        AssetAnswer::Found { etag, cache_control, media_type, .. } => {
            assert_eq!(etag, format!("\"{d}\""));
            assert_eq!(cache_control, IMMUTABLE);
            assert_eq!(media_type, "text/plain; charset=utf-8");
        }
        other => panic!("{other:?}"),
    }
    assert_eq!(assets.url("a.txt"), "/cockpit/assets/a.txt?v=ba7816bf8f01cfea");
}

#[test]
fn an_empty_version_is_revalidated_and_not_kept_for_a_year() {
    let mut assets = Assets::new(Some("/share/cockpit".into()));
    assets.remember("a.txt", Some("abc".into()));
    match assets.respond("a.txt", Some("")) {
        AssetAnswer::Found { cache_control, .. } => assert_eq!(cache_control, "no-cache"),
        other => panic!("{other:?}"),
    }
    match assets.respond("a.txt", Some("ffff")) {
        AssetAnswer::Found { cache_control, .. } => assert_eq!(cache_control, "no-cache"),
        other => panic!("{other:?}"),
    }
}
