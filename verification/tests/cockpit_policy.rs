use majordomus_cli::cockpit::knowledge::{freshness_badge, freshness_status, sections, tallies_line, Freshness};
use majordomus_cli::cockpit::{base64, csp, shell_scripts, Cockpit};
use sha2::{Digest, Sha256};

const BOOTSTRAP: &str = "(function(){try{var t=localStorage.getItem('mj-theme');if(t==='dark'){document.documentElement.classList.add('dark')}}catch(e){}})();";

#[test]
fn the_policy_allows_no_remote_origin_and_no_unsafe_source() {
    let policy = csp(BOOTSTRAP);
    assert!(policy.starts_with("default-src 'none'"));
    assert!(policy.contains("script-src 'self' 'sha256-"), "{policy}");
    assert!(!policy.contains("unsafe-eval"), "{policy}");
    // the asymmetry, asserted rather than assumed: styles may be inline, scripts never
    assert!(policy.contains("style-src 'self' 'unsafe-inline'"), "{policy}");
    let script_src = policy
        .split("script-src ")
        .nth(1)
        .and_then(|s| s.split(';').next())
        .expect("a script-src directive");
    assert!(!script_src.contains("unsafe-inline"), "{script_src}");
    assert!(!policy.contains("http"), "{policy}");
    assert!(policy.contains("frame-ancestors 'none'"), "{policy}");
}

#[test]
fn the_policy_names_the_digest_of_the_script_it_allows() {
    let mut h = Sha256::new();
    h.update(BOOTSTRAP.as_bytes());
    let expected = base64(&h.finalize());
    assert!(
        csp(BOOTSTRAP).contains(&format!("'sha256-{expected}'")),
        "the policy names the digest of the bootstrap it ships"
    );
    assert_eq!(expected.len(), 44, "base64 of 32 bytes");
}

#[test]
fn base64_is_the_standard_alphabet_padded() {
    assert_eq!(base64(b""), "");
    assert_eq!(base64(b"f"), "Zg==");
    assert_eq!(base64(b"fo"), "Zm8=");
    assert_eq!(base64(b"foo"), "Zm9v");
    assert_eq!(base64(b"foobar"), "Zm9vYmFy");
    assert_eq!(base64(&[0xfb, 0xff]), "+/8=");
}

#[test]
fn the_cockpit_owns_its_prefix_and_nothing_beside_it() {
    assert!(Cockpit::owns("/cockpit"));
    assert!(Cockpit::owns("/cockpit/capabilities"));
    assert!(!Cockpit::owns("/cockpitx"));
    assert!(!Cockpit::owns("/api/v1/objects"));
    assert_eq!(shell_scripts(), vec!["cockpit.js", "palette.js"]);
}

#[test]
fn freshness_maps_to_the_three_badge_words() {
    assert_eq!(freshness_status(Freshness::Current), "ok");
    assert_eq!(freshness_status(Freshness::PossiblyStale), "warn");
    assert_eq!(freshness_status(Freshness::Stale), "fail");
    assert_eq!(freshness_status(Freshness::Conflicted), "fail");
    assert!(freshness_badge(Freshness::PossiblyStale).render().contains(">possibly stale<"));
}

#[test]
fn the_tallies_name_only_what_was_counted() {
    assert_eq!(tallies_line(&[]), "none");
    assert_eq!(tallies_line(&[("a".into(), 0)]), "none");
    assert_eq!(tallies_line(&[("a".into(), 2), ("b".into(), 0), ("c".into(), 10)]), "a 2, c 10");
    let chips = sections("/cockpit/knowledge/gaps").render();
    assert!(chips.contains("mj-chip mj-chip--current"), "{chips}");
    assert_eq!(chips.matches("mj-chip--current").count(), 1);
}
