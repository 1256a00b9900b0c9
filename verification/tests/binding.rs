use oogit::binding::BindingRecord;
use oogit::error::{already_bound_message, OogitError, Outcome};
use oogit::sidecar::{prepare, resolve};

fn sample() -> BindingRecord {
    BindingRecord::new("report.docx", "https://example.test/repo.git", Some("main"), "docs", false)
}

#[test]
fn new_record_normalizes_sub_path() {
    let r = sample();
    assert_eq!(r.document_path, "report.docx");
    assert_eq!(r.repo_url, "https://example.test/repo.git");
    assert_eq!(r.branch, Some("main".to_string()));
    assert_eq!(r.path_in_repo, "/docs");
    assert!(!r.force);
    assert_eq!(BindingRecord::new("a", "b", None, "", true).path_in_repo, "/");
    assert_eq!(BindingRecord::new("a", "b", None, "/x", true).path_in_repo, "/x");
}

#[test]
fn record_names_its_directories() {
    let r = sample();
    assert_eq!(r.sidecar_dir(), "report.docx.oogit");
    assert_eq!(r.working_tree(), "report.docx.oogit/repo");
    assert_eq!(r.mount(), "report.docx.oogit/repo/docs");
}

#[test]
fn unbound_record_holds_only_the_document() {
    let r = BindingRecord::unbound("report.docx", true);
    assert_eq!(r.document_path, "report.docx");
    assert_eq!(r.repo_url, "");
    assert_eq!(r.branch, None);
    assert_eq!(r.path_in_repo, "/");
    assert!(r.force);
}

#[test]
fn encode_writes_three_lines() {
    assert_eq!(sample().encode(), "https://example.test/repo.git\n+main\n/docs\n");
    let r = BindingRecord::new("x.docx", "git@host:r.git", None, "", true);
    assert_eq!(r.encode(), "git@host:r.git\n-\n/\n");
    let r = BindingRecord::new("x.docx", "u", Some(""), "/", false);
    assert_eq!(r.encode(), "u\n+\n/\n");
}

#[test]
fn encode_escapes_line_ends_and_escape_marks() {
    let r = BindingRecord::new("d", "a\nb", Some("m\\n"), "/x\\\ny", false);
    assert_eq!(r.encode(), "a\\nb\n+m\\\\n\n/x\\\\\\ny\n");
    assert_eq!(r.encode().matches('\n').count(), 3);
}

#[test]
fn decode_gives_back_what_encode_stored() {
    for (url, branch, path, force) in [
        ("https://example.test/repo.git", Some("main"), "docs", false),
        ("", None, "", true),
        ("u", Some(""), "/a/b/", false),
        ("file:///tmp/r", Some("feature/+x"), "/-", true),
        ("+", Some("-"), "/+", false),
        ("a\nb", Some("\n"), "/\n\n", false),
        ("\\", Some("\\n"), "/\\\\n\\", false),
        ("n\\n\nn", None, "n", false),
        ("\u{e9}\u{1f600}", Some("\u{4e2d}"), "/\u{e9}", false),
    ] {
        let r = BindingRecord::new("report.docx", url, branch, path, force);
        let text = r.encode();
        let back = BindingRecord::decode(&text, "other.docx").unwrap();
        assert_eq!(back.document_path, "other.docx");
        assert_eq!(back.repo_url, r.repo_url);
        assert_eq!(back.branch, r.branch);
        assert_eq!(back.path_in_repo, r.path_in_repo);
        assert!(!back.force);
        assert_eq!(back.encode(), text);
    }
}

#[test]
fn decode_reads_each_field() {
    let r = BindingRecord::decode("https://h/r.git\n+dev\n/word\n", "a.docx").unwrap();
    assert_eq!(
        r,
        BindingRecord {
            document_path: "a.docx".to_string(),
            repo_url: "https://h/r.git".to_string(),
            branch: Some("dev".to_string()),
            path_in_repo: "/word".to_string(),
            force: false,
        }
    );
    let r = BindingRecord::decode("\n-\n/\n", "a.docx").unwrap();
    assert_eq!(r.repo_url, "");
    assert_eq!(r.branch, None);
    assert_eq!(r.path_in_repo, "/");
    let r = BindingRecord::decode("a\\nb\\\\\n+\\n\n/\\\\\n", "a.docx").unwrap();
    assert_eq!(r.repo_url, "a\nb\\");
    assert_eq!(r.branch, Some("\n".to_string()));
    assert_eq!(r.path_in_repo, "/\\");
}

#[test]
fn decode_refuses_what_no_record_stores() {
    for text in [
        "",
        "u",
        "u\n",
        "u\n-\n",
        "u\n-\n/",
        "u\n-\n/\n\n",
        "u\n-\n/\nx",
        "u\n\n/\n",
        "u\n-x\n/\n",
        "u\nmain\n/\n",
        "u\n-\n\n",
        "u\n-\ndocs\n",
        "u\n+main\ndocs\n",
        "a\\x\n-\n/\n",
        "a\\\n-\n/\n",
        "u\n+m\\\n/\n",
        "u\n-\n/\\q\n",
        "u\n-\n\\n/\n",
    ] {
        assert_eq!(BindingRecord::decode(text, "a.docx"), None, "{:?}", text);
    }
}

#[test]
fn prepare_refuses_bound_document_without_force() {
    assert_eq!(prepare("report.docx", false, true, true), Err(OogitError::AlreadyBound));
    assert_eq!(prepare("report.docx", false, true, false), Err(OogitError::AlreadyBound));
}

#[test]
fn prepare_with_force_claims_any_sidecar() {
    for (sidecar, tree) in [(false, false), (true, false), (true, true), (false, true)] {
        let p = prepare("report.docx", true, sidecar, tree).unwrap();
        assert_eq!(p.sidecar_dir, "report.docx.oogit");
        assert_eq!(p.working_tree, "report.docx.oogit/repo");
        assert_eq!(p.remove_first, tree);
    }
}

#[test]
fn prepare_without_force_claims_absent_sidecar() {
    let p = prepare("report.docx", false, false, false).unwrap();
    assert!(!p.remove_first);
    let p = prepare("report.docx", false, false, true).unwrap();
    assert!(p.remove_first);
}

#[test]
fn messages_of_failures() {
    assert_eq!(
        already_bound_message("report.docx.oogit"),
        "report.docx.oogit already exists. Use --force to overwrite."
    );
    assert_eq!(OogitError::NoRemoteConfigured.message(), "No remote found");
    for e in [
        OogitError::AlreadyBound,
        OogitError::UnboundDocument,
        OogitError::CloneFailure,
        OogitError::RevisionNotFound,
        OogitError::ArchiveCorrupt,
        OogitError::DestinationExists,
        OogitError::IoFailure,
        OogitError::NoRemoteConfigured,
        OogitError::PushRejected,
    ] {
        assert!(!e.message().is_empty());
    }
}

#[test]
fn only_empty_change_set_is_a_no_op() {
    assert!(Outcome::EmptyChangeSet.is_no_op());
    assert!(!Outcome::Committed.is_no_op());
    assert!(!Outcome::Restored.is_no_op());
}

#[test]
fn resolve_recovers_the_stored_binding() {
    let r = resolve("report.docx", Some("https://h/r.git\n+dev\n/word\n")).unwrap();
    assert_eq!(r, BindingRecord::new("report.docx", "https://h/r.git", Some("dev"), "/word", false));
}

#[test]
fn resolve_without_record_is_unbound() {
    assert_eq!(resolve("report.docx", None), Err(OogitError::UnboundDocument));
    assert_eq!(resolve("report.docx", Some("")), Err(OogitError::UnboundDocument));
    assert_eq!(resolve("report.docx", Some("u\n+main\ndocs\n")), Err(OogitError::UnboundDocument));
}

#[test]
fn settle_brings_sub_path_to_stored_form() {
    let loose = BindingRecord {
        document_path: "report.docx".to_string(),
        repo_url: "u".to_string(),
        branch: None,
        path_in_repo: "docs".to_string(),
        force: true,
    };
    let settled = loose.clone().settle();
    assert_eq!(settled.path_in_repo, "/docs");
    assert_eq!(settled.mount(), "report.docx.oogit/repo/docs");
    assert_eq!(BindingRecord { path_in_repo: "/docs".to_string(), ..loose }, settled);
    assert_eq!(settled.clone().settle(), settled);
}
