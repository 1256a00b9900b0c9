use oogit::paths::{
    binding_file, branch_ref, chars_of, join, locate, lock_file, mount_dir,
    normalize_path_in_repo, push_refspec, sidecar_dir, tag_ref, tracking_ref, working_tree_dir,
};

#[test]
fn empty_sub_path_becomes_root() {
    assert_eq!(normalize_path_in_repo(""), "/");
}

#[test]
fn bare_sub_path_gets_leading_separator() {
    assert_eq!(normalize_path_in_repo("docs"), "/docs");
    assert_eq!(normalize_path_in_repo("docs/report"), "/docs/report");
    assert_eq!(normalize_path_in_repo("d"), "/d");
}

#[test]
fn rooted_sub_path_is_unchanged() {
    assert_eq!(normalize_path_in_repo("/"), "/");
    assert_eq!(normalize_path_in_repo("/docs"), "/docs");
    assert_eq!(normalize_path_in_repo("//docs/"), "//docs/");
}

#[test]
fn normalizing_twice_changes_nothing_more() {
    for raw in ["", "docs", "/docs", "a/b", "\u{e9}t\u{e9}"] {
        let once = normalize_path_in_repo(raw);
        assert_eq!(normalize_path_in_repo(&once), once);
        assert!(once.starts_with('/'));
    }
}

#[test]
fn sidecar_is_document_with_fixed_suffix() {
    assert_eq!(sidecar_dir("report.docx"), "report.docx.oogit");
    assert_eq!(sidecar_dir("/home/u/a b.xlsx"), "/home/u/a b.xlsx.oogit");
    assert_eq!(sidecar_dir(""), ".oogit");
}

#[test]
fn working_tree_is_repo_inside_sidecar() {
    assert_eq!(working_tree_dir("report.docx"), "report.docx.oogit/repo");
    assert_eq!(binding_file("report.docx"), "report.docx.oogit/binding");
    assert_eq!(lock_file("report.docx"), "report.docx.oogit/lock");
}

#[test]
fn mount_is_working_tree_with_sub_path() {
    assert_eq!(mount_dir("report.docx", "/docs"), "report.docx.oogit/repo/docs");
    assert_eq!(mount_dir("report.docx", "/"), "report.docx.oogit/repo/");
}

#[test]
fn join_puts_one_separator_between() {
    assert_eq!(join("a/b", "c.txt"), "a/b/c.txt");
    assert_eq!(join("a/b/", "c.txt"), "a/b/c.txt");
    assert_eq!(join("", "c.txt"), "c.txt");
    assert_eq!(join("a", ""), "a/");
}

#[test]
fn join_lets_rooted_name_stand_alone() {
    assert_eq!(join("a/b", "/etc/passwd"), "/etc/passwd");
}

#[test]
fn reference_names() {
    assert_eq!(branch_ref("main"), "refs/heads/main");
    assert_eq!(tag_ref("v1.0"), "refs/tags/v1.0");
    assert_eq!(tracking_ref("origin", "main"), "refs/remotes/origin/main");
    assert_eq!(push_refspec("main"), "refs/heads/main:refs/heads/main");
    assert_eq!(push_refspec("feature/x"), "refs/heads/feature/x:refs/heads/feature/x");
}

#[test]
fn locate_resolves_against_given_directory() {
    assert_eq!(locate(None, "report.docx"), "report.docx");
    assert_eq!(locate(Some("/work"), "report.docx"), "/work/report.docx");
    assert_eq!(locate(Some("/work/"), "report.docx"), "/work/report.docx");
    assert_eq!(locate(Some("/work"), "/abs/report.docx"), "/abs/report.docx");
}

#[test]
fn chars_of_counts_characters_not_bytes() {
    assert_eq!(chars_of("a\u{e9}/\u{1f600}"), vec!['a', '\u{e9}', '/', '\u{1f600}']);
    assert_eq!(chars_of(""), Vec::new());
}
