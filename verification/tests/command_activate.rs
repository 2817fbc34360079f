use majordomus_cli::command::activate::{
    activation, banner, branch_of, gitdir_of, session_key, seen, sh_quote, watch_candidates,
    watches, BannerMode, Entry, Seen, Shell, ROOT_ENV, STRUCTURE_ENV,
};
use majordomus_cli::command::facts::Facts;

fn entry(root: &str) -> Entry {
    Entry {
        root: root.to_string(),
        name: "repo".into(),
        head: Some("master".into()),
        server: None,
        commands: (10, 12),
        structure: "abc".into(),
        entry_commands: vec![("just check".into(), "Quality gates".into())],
        notes: Vec::new(),
    }
}

#[test]
fn a_word_reaching_eval_cannot_end_its_own_quoting() {
    for hostile in [
        "a'; rm -rf /; echo '",
        "$(touch /tmp/pwned)",
        "`id`",
        "line\nbreak",
        "semi;colon",
    ] {
        let quoted = sh_quote(hostile);
        assert!(quoted.starts_with('\'') && quoted.ends_with('\''));
        assert_eq!(quoted.matches('\'').count(), 2, "{hostile:?} produced {quoted:?}");
        assert!(!quoted.contains('\n'));
    }
    assert_eq!(sh_quote("/tmp/x"), "'/tmp/x'");
    assert_eq!(sh_quote("a'; rm -rf /; '"), "'a; rm -rf /; '");
}

#[test]
fn the_activation_is_shell_statements_and_no_prose() {
    let mut facts = Facts::none("/r");
    facts.native = Some("/r/apps/majordomus-cli/target/debug/majordomus".into());
    facts.shell = Some("/r/bin/majordomus".into());
    facts.git = true;
    let e = entry("/r");
    let watched = watches(&e, &facts, &[true, false, true, true]);
    let text = activation(&e, &facts, Shell::Direnv, &watched);
    for line in text.lines().filter(|l| !l.starts_with('#') && !l.is_empty()) {
        assert!(
            line.starts_with("export ")
                || line.starts_with("PATH_add ")
                || line.starts_with("watch_file ")
                || line.starts_with("PATH="),
            "{line}"
        );
    }
    assert!(text.contains(&format!("export {ROOT_ENV}=")));
    assert!(text.contains(&format!("export {STRUCTURE_ENV}='abc'")));
    assert!(text.contains("PATH_add '/r/apps/majordomus-cli/target/debug'\n"));
    assert!(text.contains("PATH_add '/r/bin'\n"));
    assert!(text.contains("watch_file '.git/HEAD'\n"));
    let posix = activation(&e, &facts, Shell::Posix, &watched);
    assert!(posix.contains("PATH='/r/bin':$PATH; export PATH\n"));
    assert!(!posix.contains("watch_file"));
}

#[test]
fn the_watch_list_is_the_inputs_and_only_the_ones_that_exist() {
    let facts = Facts::none("/r");
    let e = entry("/r");
    assert_eq!(
        watch_candidates(&e, &facts),
        vec!["share/commands.yaml".to_string(), ".ai/repo/workflows/commands".to_string()]
    );
    let kept = watches(&e, &facts, &[true, false]);
    assert_eq!(kept, vec!["share/commands.yaml".to_string()]);
}

#[test]
fn auto_is_full_then_silent_then_compact_when_something_moved() {
    let e = entry("/r");
    assert!(banner(&e, BannerMode::Auto, 80, false, Seen::First).is_some_and(|b| b.contains("MAJORDOMUS")));
    assert!(banner(&e, BannerMode::Auto, 80, false, Seen::Same).is_none());
    let second = banner(&e, BannerMode::Auto, 80, false, Seen::Changed).expect("a change is shown");
    assert!(second.starts_with('◆'), "{second}");
    assert!(banner(&e, BannerMode::Off, 80, false, Seen::First).is_none());
    assert_eq!(
        second,
        "◆ repo · master · 10/12 commands\n  just check\n"
    );
}

#[test]
fn the_frame_holds_at_every_width_and_with_or_without_colour() {
    let mut e = entry("/r");
    e.name = "název-s-diakritikou".into();
    e.notes = vec!["a note that is rather long and goes on and on past any terminal".into()];
    for width in [20usize, 40, 80, 200] {
        let text = banner(&e, BannerMode::Full, width, false, Seen::First).unwrap();
        let widths: Vec<usize> = text.lines().map(|l| l.chars().count()).collect();
        assert!(widths.windows(2).all(|w| w[0] == w[1]), "width {width}: {widths:?}");
    }
}

#[test]
fn a_session_remembers_what_it_saw() {
    assert_eq!(seen(None, "abc"), Seen::First);
    assert_eq!(seen(Some("abc\n"), "abc"), Seen::Same);
    assert_eq!(seen(Some("abd"), "abc"), Seen::Changed);
    assert_eq!(session_key("term:1/2 x"), "term12x");
    assert_eq!(session_key("//"), "shared");
}

#[test]
fn a_head_is_read_from_the_file_and_a_worktree_follows_its_pointer() {
    assert_eq!(branch_of("ref: refs/heads/feature/x\n"), "feature/x");
    assert_eq!(branch_of("0123456789abcdef\n"), "01234567");
    assert_eq!(gitdir_of("gitdir: /tmp/real\n").as_deref(), Some("/tmp/real"));
    assert_eq!(gitdir_of("nonsense"), None);
}

#[test]
fn a_machine_is_never_shown_a_banner() {
    assert_eq!(BannerMode::for_environment(false, false, Some("full")), BannerMode::Off);
    assert_eq!(BannerMode::for_environment(true, true, Some("full")), BannerMode::Off);
    assert_eq!(BannerMode::for_environment(true, false, Some("full")), BannerMode::Full);
    assert_eq!(BannerMode::for_environment(true, false, Some("bogus")), BannerMode::Auto);
    assert_eq!(BannerMode::parse("compact"), Some(BannerMode::Compact));
    assert_eq!(BannerMode::parse("nonsense"), None);
    assert_eq!(Shell::parse("zsh"), Some(Shell::Posix));
}

#[test]
fn an_entry_fingerprint_changes_with_what_a_person_would_be_told() {
    let a = entry("/r");
    let mut b = entry("/r");
    b.head = Some("other".into());
    assert_eq!(a.fingerprint(), entry("/r").fingerprint());
    assert_ne!(a.fingerprint(), b.fingerprint());
    assert_eq!(a.fingerprint().len(), 64);
}

#[test]
fn a_checkout_name_cannot_leave_the_opening_comment() {
    let mut e = entry("/r");
    e.name = "x\nrm -rf ~ 'q'".into();
    let facts = Facts::none("/r");
    let text = activation(&e, &facts, Shell::Posix, &Vec::new());
    assert!(text.starts_with("# xrm -rf ~ q — Majordomus repository activation\n"), "{text}");
    for line in text.lines() {
        assert!(line.starts_with("# ") || line.starts_with("export "), "{line}");
    }
}
