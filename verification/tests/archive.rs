use oogit::archive::{pack, unpack, ArchiveEntry};
use oogit::error::OogitError;
use oogit::sync::{
    at_tree_root, collapse, collapse_entries, contains_component, expand, expand_plan, is_enclosed,
    TreeItem, TreeOp,
};
use std::collections::BTreeMap;

fn file(name: &str, content: &[u8]) -> ArchiveEntry {
    ArchiveEntry { name: name.to_string(), is_dir: false, content: content.to_vec() }
}

fn dir(name: &str) -> ArchiveEntry {
    ArchiveEntry { name: name.to_string(), is_dir: true, content: Vec::new() }
}

fn item(name: &str, content: &[u8]) -> TreeItem {
    TreeItem { name: name.to_string(), is_file: true, content: content.to_vec() }
}

fn folder(name: &str) -> TreeItem {
    TreeItem { name: name.to_string(), is_file: false, content: Vec::new() }
}

fn files_of(entries: &[ArchiveEntry]) -> BTreeMap<String, Vec<u8>> {
    let mut files = BTreeMap::new();
    for e in entries {
        if !e.is_dir {
            files.insert(e.name.clone(), e.content.clone());
        }
    }
    files
}

fn document() -> Vec<ArchiveEntry> {
    vec![
        file("[Content_Types].xml", b"<Types/>"),
        dir("_rels/"),
        file("_rels/.rels", b"<Relationships/>"),
        dir("word/"),
        file("word/document.xml", &[0u8, 1, 2, 255, 254, 10, 13]),
        file("word/empty.bin", b""),
    ]
}

#[test]
fn unpack_reads_what_pack_wrote() {
    let bytes = pack(&document()).unwrap();
    assert_eq!(&bytes[0..2], b"PK");
    let entries = unpack(bytes).unwrap();
    assert_eq!(entries, document());
}

#[test]
fn pack_marks_directories_with_a_separator() {
    let bytes = pack(&vec![dir("docs"), file("docs/a.txt", b"hello")]).unwrap();
    let entries = unpack(bytes).unwrap();
    assert_eq!(entries, vec![dir("docs/"), file("docs/a.txt", b"hello")]);
}

#[test]
fn pack_gives_the_same_container_for_the_same_entries() {
    let first = pack(&document()).unwrap();
    let second = pack(&document()).unwrap();
    assert_eq!(first, second);
    let mut other = document();
    other.reverse();
    assert_ne!(pack(&other).unwrap(), first);
    let mut shorter = document();
    shorter.pop();
    assert_ne!(pack(&shorter).unwrap(), first);
}

#[test]
fn pack_leaves_out_the_bytes_of_a_directory() {
    let odd = ArchiveEntry { name: "docs".to_string(), is_dir: true, content: b"x".to_vec() };
    assert_eq!(pack(&vec![odd]).unwrap(), pack(&vec![dir("docs")]).unwrap());
    assert_eq!(unpack(pack(&vec![dir("docs")]).unwrap()).unwrap(), vec![dir("docs/")]);
}

#[test]
fn collapse_gives_what_pack_makes_of_its_entries() {
    let listing = vec![folder(""), folder("docs"), item("docs/a.txt", b"hello"), folder(".git")];
    assert_eq!(
        collapse(&listing, "w/repo", "w/repo/", false, false).unwrap(),
        pack(&collapse_entries(&listing, true)).unwrap()
    );
    assert_eq!(
        collapse(&listing, "w/repo", "w/repo/docs", false, false).unwrap(),
        pack(&collapse_entries(&listing, false)).unwrap()
    );
}

#[test]
fn pack_stores_a_directory_under_one_name() {
    let plain = pack(&vec![dir("docs"), file("docs/a.txt", b"hello")]).unwrap();
    let marked = pack(&vec![dir("docs/"), file("docs/a.txt", b"hello")]).unwrap();
    assert_eq!(plain, marked);
    assert_eq!(unpack(pack(&vec![dir("")]).unwrap()).unwrap(), vec![dir("/")]);
    assert_eq!(unpack(pack(&vec![dir("d\\")]).unwrap()).unwrap(), vec![dir("d\\")]);
    assert_eq!(pack(&vec![dir("docs"), dir("docs/")]), Err(OogitError::IoFailure));
}

#[test]
fn pack_of_nothing_is_an_empty_container() {
    let bytes = pack(&Vec::new()).unwrap();
    assert_eq!(unpack(bytes).unwrap(), Vec::new());
}

#[test]
fn pack_refuses_two_files_of_one_name() {
    assert_eq!(pack(&vec![file("a", b"1"), file("a", b"2")]), Err(OogitError::IoFailure));
}

#[test]
fn unpack_refuses_what_is_no_container() {
    assert_eq!(unpack(Vec::new()), Err(OogitError::ArchiveCorrupt));
    assert_eq!(unpack(b"not a zip container".to_vec()), Err(OogitError::ArchiveCorrupt));
}

#[test]
fn unpack_refuses_a_damaged_entry() {
    let content: Vec<u8> = (0..4000u32).map(|i| (i * 7 % 251) as u8).collect();
    let mut bytes = pack(&vec![file("a.bin", &content)]).unwrap();
    let mid = 60;
    for b in &mut bytes[mid..mid + 40] {
        *b ^= 0x5a;
    }
    assert_eq!(unpack(bytes), Err(OogitError::ArchiveCorrupt));
}

#[test]
fn enclosed_names() {
    for name in ["a", "a/b", "word/document.xml", "_rels/.rels", "a/", "..a", "a..", "a/..b/c",
        ".gitignore", "a/.github/x", "x.git", "./a", "a//b", "a/.git", "a/.git/hooks/x",
        ".github/x", ".gitx"]
    {
        assert!(is_enclosed(name, true), "{:?}", name);
        assert!(is_enclosed(name, false), "{:?}", name);
    }
    for name in ["", "/", "/a", "..", "../a", "a/..", "a/../b", ".git/../x"] {
        assert!(!is_enclosed(name, true), "{:?}", name);
        assert!(!is_enclosed(name, false), "{:?}", name);
    }
}

#[test]
fn engine_directory_is_shut_out_at_the_root_only() {
    for name in [".git", ".git/", ".git/config", ".git/hooks/x"] {
        assert!(!is_enclosed(name, true), "{:?}", name);
        assert!(is_enclosed(name, false), "{:?}", name);
    }
}

#[test]
fn root_of_the_working_tree() {
    for mount in ["w/repo", "w/repo/", "w/repo//"] {
        assert!(at_tree_root("w/repo", mount), "{:?}", mount);
    }
    for mount in ["w/repo/docs", "w/repo/d", "w/repo/.", "w/rep", "w/repox", "w/repo/ ", "", "x/repo/"] {
        assert!(!at_tree_root("w/repo", mount), "{:?}", mount);
    }
    assert!(at_tree_root("", ""));
    assert!(at_tree_root("", "/"));
    assert!(!at_tree_root("", "a"));
}

#[test]
fn components_are_bounded_by_separators() {
    let chars = |s: &str| s.chars().collect::<Vec<char>>();
    assert!(contains_component(&chars("a/bc/d"), &chars("bc")));
    assert!(contains_component(&chars("bc"), &chars("bc")));
    assert!(contains_component(&chars("a/bc"), &chars("bc")));
    assert!(contains_component(&chars("bc/a"), &chars("bc")));
    assert!(!contains_component(&chars("abc/d"), &chars("bc")));
    assert!(!contains_component(&chars("a/bcd"), &chars("bc")));
    assert!(!contains_component(&chars(""), &chars("bc")));
    assert!(contains_component(&chars(""), &chars("")));
    assert!(contains_component(&chars("a//b"), &chars("")));
    assert!(!contains_component(&chars("a/b"), &chars("")));
}

#[test]
fn expand_plan_places_entries_below_mount() {
    let ops = expand_plan(&document(), "report.docx.oogit/repo/docs", false, false).unwrap();
    assert_eq!(
        ops,
        vec![
            TreeOp::WriteFile {
                path: "report.docx.oogit/repo/docs/[Content_Types].xml".to_string(),
                content: b"<Types/>".to_vec(),
            },
            TreeOp::MakeDir { path: "report.docx.oogit/repo/docs/_rels/".to_string() },
            TreeOp::WriteFile {
                path: "report.docx.oogit/repo/docs/_rels/.rels".to_string(),
                content: b"<Relationships/>".to_vec(),
            },
            TreeOp::MakeDir { path: "report.docx.oogit/repo/docs/word/".to_string() },
            TreeOp::WriteFile {
                path: "report.docx.oogit/repo/docs/word/document.xml".to_string(),
                content: vec![0u8, 1, 2, 255, 254, 10, 13],
            },
            TreeOp::WriteFile {
                path: "report.docx.oogit/repo/docs/word/empty.bin".to_string(),
                content: Vec::new(),
            },
        ]
    );
}

#[test]
fn expand_plan_clears_first_when_replacing() {
    let ops = expand_plan(&vec![file("a", b"1")], "t/repo/", true, true).unwrap();
    assert_eq!(
        ops,
        vec![
            TreeOp::Clear { dir: "t/repo/".to_string(), spare_engine: true },
            TreeOp::WriteFile { path: "t/repo/a".to_string(), content: b"1".to_vec() },
        ]
    );
    assert_eq!(
        expand_plan(&Vec::new(), "t/repo/d", true, false).unwrap(),
        vec![TreeOp::Clear { dir: "t/repo/d".to_string(), spare_engine: false }]
    );
    assert_eq!(expand_plan(&Vec::new(), "t/repo/", false, true).unwrap(), Vec::new());
}

#[test]
fn expand_plan_refuses_names_that_leave_the_mount() {
    for bad in ["../evil", "/etc/passwd", "a/../../b", "", ".."] {
        for at_root in [false, true] {
            let entries = vec![file("ok.txt", b"1"), file(bad, b"2")];
            assert_eq!(
                expand_plan(&entries, "t/repo/", false, at_root),
                Err(OogitError::ArchiveCorrupt)
            );
            assert_eq!(
                expand_plan(&vec![dir(bad)], "t/repo/", true, at_root),
                Err(OogitError::ArchiveCorrupt)
            );
        }
    }
}

#[test]
fn expand_plan_refuses_the_engine_directory_at_the_root() {
    for bad in [".git/config", ".git", ".git/hooks/pre-commit"] {
        let entries = vec![file("ok.txt", b"1"), file(bad, b"2")];
        assert_eq!(expand_plan(&entries, "t/repo/", false, true), Err(OogitError::ArchiveCorrupt));
    }
}

#[test]
fn expand_plan_unpacks_the_engine_name_below_the_root() {
    let entries = vec![file(".git/x", b"1"), dir(".git/hooks/")];
    assert_eq!(
        expand_plan(&entries, "report.docx.oogit/repo/docs", false, false).unwrap(),
        vec![
            TreeOp::WriteFile {
                path: "report.docx.oogit/repo/docs/.git/x".to_string(),
                content: b"1".to_vec(),
            },
            TreeOp::MakeDir { path: "report.docx.oogit/repo/docs/.git/hooks/".to_string() },
        ]
    );
}

#[test]
fn expand_reads_the_container_and_plans() {
    let bytes = pack(&vec![dir("docs"), file("docs/a.txt", b"hello")]).unwrap();
    assert_eq!(
        expand(bytes, "w/repo", "w/repo/sub", true).unwrap(),
        vec![
            TreeOp::Clear { dir: "w/repo/sub".to_string(), spare_engine: false },
            TreeOp::MakeDir { path: "w/repo/sub/docs/".to_string() },
            TreeOp::WriteFile { path: "w/repo/sub/docs/a.txt".to_string(), content: b"hello".to_vec() },
        ]
    );
}

#[test]
fn expand_knows_the_root_of_the_working_tree() {
    let bytes = pack(&vec![file(".git/x", b"1")]).unwrap();
    assert_eq!(expand(bytes.clone(), "w/repo", "w/repo/", false), Err(OogitError::ArchiveCorrupt));
    assert_eq!(expand(bytes.clone(), "w/repo", "w/repo", true), Err(OogitError::ArchiveCorrupt));
    assert_eq!(
        expand(bytes, "w/repo", "w/repo/docs", true).unwrap(),
        vec![
            TreeOp::Clear { dir: "w/repo/docs".to_string(), spare_engine: false },
            TreeOp::WriteFile { path: "w/repo/docs/.git/x".to_string(), content: b"1".to_vec() },
        ]
    );
    let bytes = pack(&vec![file("a", b"1")]).unwrap();
    assert_eq!(
        expand(bytes, "w/repo", "w/repo/", true).unwrap(),
        vec![
            TreeOp::Clear { dir: "w/repo/".to_string(), spare_engine: true },
            TreeOp::WriteFile { path: "w/repo/a".to_string(), content: b"1".to_vec() },
        ]
    );
}

#[test]
fn expand_refuses_corrupt_and_escaping_archives() {
    assert_eq!(
        expand(b"garbage".to_vec(), "w/repo", "w/repo/", false),
        Err(OogitError::ArchiveCorrupt)
    );
    assert_eq!(
        expand(b"not a zip".to_vec(), "w/repo", "w/repo/docs", false),
        Err(OogitError::ArchiveCorrupt)
    );
    let bytes = pack(&vec![file("../x", b"1")]).unwrap();
    assert_eq!(expand(bytes, "w/repo", "w/repo/docs", false), Err(OogitError::ArchiveCorrupt));
}

fn engine_listing() -> Vec<TreeItem> {
    vec![
        folder(""),
        folder(".git"),
        item(".git/HEAD", b"ref: refs/heads/main\n"),
        folder("word"),
        item("word/document.xml", b"<w/>"),
        item(".gitignore", b"*.tmp\n"),
        item("sub/.git/config", b"x"),
    ]
}

#[test]
fn collapse_entries_skips_root_and_engine() {
    assert_eq!(
        collapse_entries(&engine_listing(), true),
        vec![
            dir("word"),
            file("word/document.xml", b"<w/>"),
            file(".gitignore", b"*.tmp\n"),
            file("sub/.git/config", b"x"),
        ]
    );
    assert_eq!(collapse_entries(&Vec::new(), true), Vec::new());
}

#[test]
fn collapse_entries_packs_everything_below_the_root() {
    assert_eq!(
        collapse_entries(&engine_listing(), false),
        vec![
            dir(".git"),
            file(".git/HEAD", b"ref: refs/heads/main\n"),
            dir("word"),
            file("word/document.xml", b"<w/>"),
            file(".gitignore", b"*.tmp\n"),
            file("sub/.git/config", b"x"),
        ]
    );
    assert_eq!(collapse_entries(&vec![item(".git/x", b"1")], false), vec![file(".git/x", b"1")]);
    assert_eq!(collapse_entries(&vec![folder("")], false), Vec::new());
}

#[test]
fn collapse_entries_gives_each_directory_one_entry() {
    let listing = vec![folder(""), folder("a"), folder("a/b"), folder("a/b/empty"), folder("c")];
    assert_eq!(
        collapse_entries(&listing, false),
        vec![dir("a"), dir("a/b"), dir("a/b/empty"), dir("c")]
    );
}

#[test]
fn collapse_entries_drops_content_of_non_files() {
    let odd = TreeItem { name: "link".to_string(), is_file: false, content: b"x".to_vec() };
    assert_eq!(collapse_entries(&vec![odd], true), vec![dir("link")]);
}

#[test]
fn collapse_refuses_existing_archive_without_leave() {
    let listing = vec![item("a.txt", b"hello")];
    assert_eq!(
        collapse(&listing, "w/repo", "w/repo/", true, false),
        Err(OogitError::DestinationExists)
    );
}

#[test]
fn collapse_packs_when_allowed() {
    let listing = vec![folder(""), folder("docs"), item("docs/a.txt", b"hello")];
    for (exists, overwrite) in [(false, false), (false, true), (true, true)] {
        let bytes = collapse(&listing, "w/repo", "w/repo/", exists, overwrite).unwrap();
        assert_eq!(unpack(bytes).unwrap(), vec![dir("docs/"), file("docs/a.txt", b"hello")]);
    }
}

#[test]
fn collapse_of_nothing_is_an_empty_container() {
    let bytes = collapse(&vec![folder("")], "w/repo", "w/repo/docs", false, false).unwrap();
    assert_eq!(unpack(bytes).unwrap(), Vec::new());
    let bytes = collapse(&vec![folder(""), folder(".git")], "w/repo", "w/repo", false, false);
    assert_eq!(unpack(bytes.unwrap()).unwrap(), Vec::new());
}

#[test]
fn collapse_knows_the_root_of_the_working_tree() {
    let listing = vec![folder(""), item(".git/x", b"1"), item("a", b"2")];
    let at_root = collapse(&listing, "w/repo", "w/repo/", false, false).unwrap();
    assert_eq!(unpack(at_root).unwrap(), vec![file("a", b"2")]);
    let below = collapse(&listing, "w/repo", "w/repo/docs", false, false).unwrap();
    assert_eq!(unpack(below).unwrap(), vec![file(".git/x", b"1"), file("a", b"2")]);
}

fn apply(tree: &mut BTreeMap<String, Vec<u8>>, ops: &[TreeOp]) {
    for op in ops {
        match op {
            TreeOp::Clear { dir, spare_engine } => {
                let below = if dir.ends_with('/') { dir.clone() } else { format!("{}/", dir) };
                let engine = format!("{}.git", below);
                tree.retain(|path, _| {
                    !path.starts_with(below.as_str())
                        || (*spare_engine
                            && (path == &engine || path.starts_with(&format!("{}/", engine))))
                });
            }
            TreeOp::MakeDir { .. } => {}
            TreeOp::WriteFile { path, content } => {
                tree.insert(path.clone(), content.clone());
            }
        }
    }
}

fn listing(tree: &BTreeMap<String, Vec<u8>>, mount: &str) -> Vec<TreeItem> {
    let mut items = vec![folder("")];
    for (path, content) in tree.iter().rev() {
        if let Some(name) = path.strip_prefix(mount) {
            items.push(item(name, content));
        }
    }
    items
}

#[test]
fn collapse_after_expand_gives_the_files_back() {
    let mount = "report.docx.oogit/repo/";
    let mut tree = BTreeMap::new();
    tree.insert(format!("{}.git/HEAD", mount), b"ref".to_vec());
    tree.insert(format!("{}stale.xml", mount), b"old".to_vec());
    tree.insert("elsewhere/file".to_string(), b"keep".to_vec());
    let ops = expand_plan(&document(), mount, true, true).unwrap();
    apply(&mut tree, &ops);
    assert_eq!(tree.get("elsewhere/file"), Some(&b"keep".to_vec()));
    assert_eq!(tree.get(&format!("{}.git/HEAD", mount)), Some(&b"ref".to_vec()));
    let packed = collapse_entries(&listing(&tree, mount), true);
    assert_eq!(files_of(&packed), files_of(&document()));
}

#[test]
fn collapse_after_expand_below_the_root_keeps_the_engine_name() {
    let mount = "report.docx.oogit/repo/docs/";
    let mut entries = document();
    entries.push(file(".git/x", b"mine"));
    let mut tree = BTreeMap::new();
    tree.insert(format!("{}.git/stale", mount), b"old".to_vec());
    tree.insert("report.docx.oogit/repo/.git/HEAD".to_string(), b"ref".to_vec());
    let ops = expand_plan(&entries, mount, true, false).unwrap();
    apply(&mut tree, &ops);
    assert_eq!(tree.get("report.docx.oogit/repo/.git/HEAD"), Some(&b"ref".to_vec()));
    assert_eq!(tree.get(&format!("{}.git/stale", mount)), None);
    let packed = collapse_entries(&listing(&tree, mount), false);
    assert_eq!(files_of(&packed), files_of(&entries));
}

#[test]
fn collapse_after_expand_through_the_container() {
    let mount = "d.oogit/repo/docs/";
    let bytes = pack(&document()).unwrap();
    let ops = expand(bytes, "d.oogit/repo", mount, false).unwrap();
    let mut tree = BTreeMap::new();
    apply(&mut tree, &ops);
    let again = collapse(&listing(&tree, mount), "d.oogit/repo", mount, true, true).unwrap();
    assert_eq!(files_of(&unpack(again).unwrap()), files_of(&document()));
}

#[test]
fn later_entry_of_a_name_wins() {
    let entries = vec![file("a", b"1"), file("b", b"2"), file("a", b"3")];
    let ops = expand_plan(&entries, "m/", false, false).unwrap();
    let mut tree = BTreeMap::new();
    apply(&mut tree, &ops);
    let packed = collapse_entries(&listing(&tree, "m/"), false);
    assert_eq!(files_of(&packed), files_of(&entries));
    assert_eq!(files_of(&packed).get("a"), Some(&b"3".to_vec()));
}
