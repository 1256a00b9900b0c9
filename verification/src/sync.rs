//! The mapping between the flat archive and the mount point of the working
//! tree: which files and directories an archive turns into, and which
//! entries a directory listing turns into.

use crate::archive::{
    entries_of, handed, pack, packable, unpack, unpacked, zip_image, ArchiveEntry, EntryView,
};
use crate::error::OogitError;
use crate::paths::{chars_of, is_rooted, join, joined, SEPARATOR};
use vstd::prelude::*;
use vstd::string::*;

verus! {

/// Whether the component `c` of a path stands in `name` from position `i`:
/// between two separators, or between a separator and an end of the name.
pub open spec fn component_at(name: Seq<char>, c: Seq<char>, i: int) -> bool {
    &&& 0 <= i
    &&& i + c.len() <= name.len()
    &&& name.subrange(i, i + c.len()) == c
    &&& (i == 0 || name[i - 1] == SEPARATOR)
    &&& (i + c.len() == name.len() || name[i + c.len()] == SEPARATOR)
}

/// Whether `c` is one of the components of `name`.
pub open spec fn has_component(name: Seq<char>, c: Seq<char>) -> bool {
    exists|i: int| component_at(name, c, i)
}

/// The component that leads out of a directory.
pub const PARENT_DIR: &'static str = "..";

/// The name of the directory in which the engine keeps its own data.
pub const ENGINE_DIR: &'static str = ".git";

/// The component that leads out of a directory, as characters.
pub open spec fn parent_name() -> Seq<char> {
    PARENT_DIR@
}

/// The name of the directory of the engine, as characters.
pub open spec fn engine_name() -> Seq<char> {
    ENGINE_DIR@
}

/// A name that stands for something below the directory it is joined to.
pub open spec fn is_relative(name: Seq<char>) -> bool {
    name.len() > 0 && !is_rooted(name)
}

/// Whether the mount point is the root of the working tree: the working
/// tree itself, with nothing but separators behind it. Only there does the
/// directory of the engine stand at the top of the mount point. Paths are
/// taken as they are written.
pub open spec fn is_tree_root(working_tree: Seq<char>, mount: Seq<char>) -> bool {
    &&& working_tree.len() <= mount.len()
    &&& mount.subrange(0, working_tree.len() as int) == working_tree
    &&& forall|i: int| working_tree.len() <= i < mount.len() ==> mount[i] == SEPARATOR
}

/// Whether a name has the name of the engine's directory as its first
/// component. Names are taken as they are written.
pub open spec fn in_engine(name: Seq<char>) -> bool {
    component_at(name, engine_name(), 0)
}

/// A name that an archive may give to an entry: relative and never leading
/// out of the mount point; and, where the mount point is the root of the
/// working tree, not leading into the directory of the engine. What is
/// outside the mount point is not the document's to touch, and the engine's
/// directory is the engine's alone. Below any other mount point a directory
/// of that name is content like any other.
pub open spec fn enclosed(name: Seq<char>, at_root: bool) -> bool {
    &&& is_relative(name)
    &&& !has_component(name, parent_name())
    &&& at_root ==> !in_engine(name)
}

/// Whether every entry has a name that may be unpacked.
pub open spec fn acceptable(entries: Seq<EntryView>, at_root: bool) -> bool {
    forall|i: int| 0 <= i < entries.len() ==> enclosed(#[trigger] entries[i].name, at_root)
}

/// One change to the working tree.
#[derive(Clone, Debug, PartialEq, Eq)]
pub enum TreeOp {
    /// Remove everything in `dir`; where `spare_engine` is set, everything
    /// but the directory of the engine.
    Clear { dir: String, spare_engine: bool },
    /// Create the directory `path` and those above it.
    MakeDir { path: String },
    /// Create the directories above `path` and write the file, replacing
    /// one that is there.
    WriteFile { path: String, content: Vec<u8> },
}

/// A change to the working tree as a mathematical value.
pub enum TreeOpView {
    Clear { dir: Seq<char>, spare_engine: bool },
    MakeDir { path: Seq<char> },
    WriteFile { path: Seq<char>, content: Seq<u8> },
}

impl View for TreeOp {
    type V = TreeOpView;

    open spec fn view(&self) -> TreeOpView {
        match *self {
            TreeOp::Clear { dir, spare_engine } => TreeOpView::Clear { dir: dir@, spare_engine },
            TreeOp::MakeDir { path } => TreeOpView::MakeDir { path: path@ },
            TreeOp::WriteFile { path, content } => TreeOpView::WriteFile {
                path: path@,
                content: content@,
            },
        }
    }
}

/// The changes of a list as mathematical values.
pub open spec fn ops_of(ops: Seq<TreeOp>) -> Seq<TreeOpView> {
    ops.map_values(|op: TreeOp| op@)
}

/// The change that unpacks one entry below `mount`.
pub open spec fn op_for(entry: EntryView, mount: Seq<char>) -> TreeOpView {
    if entry.is_dir {
        TreeOpView::MakeDir { path: joined(mount, entry.name) }
    } else {
        TreeOpView::WriteFile { path: joined(mount, entry.name), content: entry.content }
    }
}

/// The changes that unpack `entries` below `mount`, one for each entry and
/// in their order, after emptying the mount point where `replace` is set.
/// At the root of the working tree the emptying spares the directory of
/// the engine.
pub open spec fn planned(
    entries: Seq<EntryView>,
    mount: Seq<char>,
    replace: bool,
    at_root: bool,
) -> Seq<TreeOpView> {
    let writes = entries.map_values(|e: EntryView| op_for(e, mount));
    if replace {
        seq![TreeOpView::Clear { dir: mount, spare_engine: at_root }] + writes
    } else {
        writes
    }
}

/// One thing found below the mount point.
#[derive(Clone, Debug, PartialEq, Eq)]
pub struct TreeItem {
    /// Its path relative to the mount point; empty for the mount point
    /// itself.
    pub name: String,
    /// Whether it is a regular file.
    pub is_file: bool,
    /// The bytes of a regular file.
    pub content: Vec<u8>,
}

/// A thing found below the mount point, as a mathematical value.
pub struct ItemView {
    pub name: Seq<char>,
    pub is_file: bool,
    pub content: Seq<u8>,
}

impl View for TreeItem {
    type V = ItemView;

    open spec fn view(&self) -> ItemView {
        ItemView { name: self.name@, is_file: self.is_file, content: self.content@ }
    }
}

/// The items of a list as mathematical values.
pub open spec fn items_of(items: Seq<TreeItem>) -> Seq<ItemView> {
    items.map_values(|item: TreeItem| item@)
}

/// Whether an item goes into the archive: the mount point itself does not,
/// nor, at the root of the working tree, the directory of the engine with
/// what is inside. Everything else below the mount point does.
pub open spec fn is_packed(item: ItemView, at_root: bool) -> bool {
    item.name.len() > 0 && (at_root ==> !in_engine(item.name))
}

/// The entry that stands for an item: a file with its bytes, anything else
/// as a directory without content.
pub open spec fn entry_for(item: ItemView) -> EntryView {
    if item.is_file {
        EntryView { name: item.name, is_dir: false, content: item.content }
    } else {
        EntryView { name: item.name, is_dir: true, content: Seq::empty() }
    }
}

/// The entries that a listing packs into: one for each item that goes into
/// the archive, in the order of the listing.
pub open spec fn collapsed(items: Seq<ItemView>, at_root: bool) -> Seq<EntryView>
    decreases items.len(),
{
    if items.len() == 0 {
        Seq::empty()
    } else if is_packed(items.last(), at_root) {
        collapsed(items.drop_last(), at_root).push(entry_for(items.last()))
    } else {
        collapsed(items.drop_last(), at_root)
    }
}

/// Whether `c` stands in `name` from position `i` as a component.
fn is_component_at(name: &Vec<char>, c: &Vec<char>, i: usize) -> (out: bool)
    requires
        i <= name.len(),
    ensures
        out == component_at(name@, c@, i as int),
{
    let n = name.len();
    let k = c.len();
    if k > n - i {
        return false;
    }
    if i > 0 && name[i - 1] != SEPARATOR {
        return false;
    }
    if i + k < n && name[i + k] != SEPARATOR {
        return false;
    }
    let mut j: usize = 0;
    while j < k
        invariant
            j <= k,
            k == c.len(),
            i + k <= name.len(),
            forall|t: int| 0 <= t < j ==> name[i + t] == c[t],
        decreases k - j,
    {
        if name[i + j] != c[j] {
            assert(name@.subrange(i as int, i + k)[j as int] == name[i + j]);
            return false;
        }
        j += 1;
    }
    assert(name@.subrange(i as int, i + k) =~= c@);
    true
}

/// Whether `c` is one of the components of `name`.
pub fn contains_component(name: &Vec<char>, c: &Vec<char>) -> (out: bool)
    ensures
        out == has_component(name@, c@),
{
    let n = name.len();
    let mut i: usize = 0;
    while i < n
        invariant
            i <= n,
            n == name.len(),
            forall|t: int| 0 <= t < i ==> !component_at(name@, c@, t),
        decreases n - i,
    {
        if is_component_at(name, c, i) {
            return true;
        }
        i += 1;
    }
    is_component_at(name, c, n)
}

/// Whether `mount` is the root of `working_tree`.
pub fn at_tree_root(working_tree: &str, mount: &str) -> (out: bool)
    ensures
        out == is_tree_root(working_tree@, mount@),
{
    let tree = chars_of(working_tree);
    let path = chars_of(mount);
    if tree.len() > path.len() {
        return false;
    }
    let mut i: usize = 0;
    while i < tree.len()
        invariant
            i <= tree.len() <= path.len(),
            tree@ == working_tree@,
            path@ == mount@,
            forall|j: int| 0 <= j < i ==> path[j] == tree[j],
        decreases tree.len() - i,
    {
        if path[i] != tree[i] {
            assert(path@.subrange(0, tree.len() as int)[i as int] == path[i as int]);
            return false;
        }
        i += 1;
    }
    assert(path@.subrange(0, tree.len() as int) =~= tree@);
    while i < path.len()
        invariant
            tree.len() <= i <= path.len(),
            tree@ == working_tree@,
            path@ == mount@,
            path@.subrange(0, tree.len() as int) == tree@,
            forall|j: int| tree.len() <= j < i ==> path[j] == SEPARATOR,
        decreases path.len() - i,
    {
        if path[i] != SEPARATOR {
            return false;
        }
        i += 1;
    }
    true
}

/// Whether an archive may give `name` to an entry of a document that is
/// mounted at the root of the working tree (`at_root`) or below it.
pub fn is_enclosed(name: &str, at_root: bool) -> (out: bool)
    ensures
        out == enclosed(name@, at_root),
{
    let cs = chars_of(name);
    if cs.len() == 0 || cs[0] == SEPARATOR {
        return false;
    }
    let parent = chars_of(PARENT_DIR);
    let engine = chars_of(ENGINE_DIR);
    !contains_component(&cs, &parent) && !(at_root && is_component_at(&cs, &engine, 0))
}

/// The changes to the working tree that unpack `entries` below `mount`,
/// which is the root of the working tree (`at_root`) or a directory below
/// it.
///
/// Refuses with `ArchiveCorrupt` exactly when an entry has a name that is
/// not enclosed; then nothing is to be changed. Every other entry is
/// planned, none left out.
pub fn expand_plan(entries: &Vec<ArchiveEntry>, mount: &str, replace: bool, at_root: bool) -> (out:
    Result<Vec<TreeOp>, OogitError>)
    ensures
        match out {
            Ok(ops) => acceptable(entries_of(entries@), at_root) && ops_of(ops@) == planned(
                entries_of(entries@),
                mount@,
                replace,
                at_root,
            ),
            Err(error) => !acceptable(entries_of(entries@), at_root) && error
                == OogitError::ArchiveCorrupt,
        },
{
    let ghost views = entries_of(entries@);
    let mut ops: Vec<TreeOp> = Vec::new();
    if replace {
        ops.push(TreeOp::Clear { dir: String::from_str(mount), spare_engine: at_root });
    }
    let ghost lead = ops_of(ops@);
    let mut i: usize = 0;
    while i < entries.len()
        invariant
            i <= entries.len(),
            views == entries_of(entries@),
            lead == if replace {
                seq![TreeOpView::Clear { dir: mount@, spare_engine: at_root }]
            } else {
                Seq::<TreeOpView>::empty()
            },
            forall|j: int| 0 <= j < i ==> enclosed(#[trigger] views[j].name, at_root),
            ops_of(ops@) == lead + views.subrange(0, i as int).map_values(
                |e: EntryView| op_for(e, mount@),
            ),
        decreases entries.len() - i,
    {
        let entry = &entries[i];
        assert(views[i as int] == entry@);
        if !is_enclosed(entry.name.as_str(), at_root) {
            return Err(OogitError::ArchiveCorrupt);
        }
        let path = join(mount, entry.name.as_str());
        let op = if entry.is_dir {
            TreeOp::MakeDir { path }
        } else {
            TreeOp::WriteFile { path, content: entry.content.clone() }
        };
        assert(op@ == op_for(entry@, mount@));
        let ghost before = ops_of(ops@);
        ops.push(op);
        assert(ops_of(ops@) =~= before.push(op@));
        assert(views.subrange(0, i + 1).map_values(|e: EntryView| op_for(e, mount@))
            =~= views.subrange(0, i as int).map_values(|e: EntryView| op_for(e, mount@)).push(
            op@,
        ));
        i += 1;
    }
    assert(views.subrange(0, i as int) =~= views);
    Ok(ops)
}

/// The archive entries that a listing of the mount point packs into, the
/// mount point being the root of the working tree (`at_root`) or a
/// directory below it.
pub fn collapse_entries(items: &Vec<TreeItem>, at_root: bool) -> (out: Vec<ArchiveEntry>)
    ensures
        entries_of(out@) == collapsed(items_of(items@), at_root),
{
    let ghost views = items_of(items@);
    let engine = chars_of(ENGINE_DIR);
    let mut entries: Vec<ArchiveEntry> = Vec::new();
    let mut i: usize = 0;
    assert(views.subrange(0, 0) =~= Seq::<ItemView>::empty());
    while i < items.len()
        invariant
            i <= items.len(),
            views == items_of(items@),
            engine@ == engine_name(),
            entries_of(entries@) == collapsed(views.subrange(0, i as int), at_root),
        decreases items.len() - i,
    {
        let item = &items[i];
        let ghost upto = views.subrange(0, i + 1);
        assert(upto.last() == item@);
        assert(upto.drop_last() =~= views.subrange(0, i as int));
        let name = chars_of(item.name.as_str());
        if name.len() > 0 && !(at_root && is_component_at(&name, &engine, 0)) {
            let entry = if item.is_file {
                ArchiveEntry {
                    name: item.name.clone(),
                    is_dir: false,
                    content: item.content.clone(),
                }
            } else {
                ArchiveEntry { name: item.name.clone(), is_dir: true, content: Vec::new() }
            };
            assert(entry@ == entry_for(item@));
            let ghost before = entries_of(entries@);
            entries.push(entry);
            assert(entries_of(entries@) =~= before.push(entry@));
        }
        i += 1;
    }
    assert(views.subrange(0, i as int) =~= views);
    entries
}

/// What unpacking the bytes of an archive below `mount` comes to: the
/// changes for its entries, or `ArchiveCorrupt` where the container cannot
/// be read or an entry has a name that is not enclosed.
pub open spec fn expanded(
    bytes: Seq<u8>,
    working_tree: Seq<char>,
    mount: Seq<char>,
    replace: bool,
) -> Result<Seq<TreeOpView>, OogitError> {
    let at_root = is_tree_root(working_tree, mount);
    match unpacked(bytes) {
        Some(entries) => if acceptable(entries, at_root) {
            Ok(planned(entries, mount, replace, at_root))
        } else {
            Err(OogitError::ArchiveCorrupt)
        },
        None => Err(OogitError::ArchiveCorrupt),
    }
}

/// A result of `expand` as a mathematical value.
pub open spec fn expansion_of(result: Result<Vec<TreeOp>, OogitError>) -> Result<
    Seq<TreeOpView>,
    OogitError,
> {
    match result {
        Ok(ops) => Ok(ops_of(ops@)),
        Err(e) => Err(e),
    }
}

/// Turns the bytes of an archive into the changes that unpack it below
/// `mount`, a directory of `working_tree` or the working tree itself, after
/// emptying the mount point where `replace` is set.
pub fn expand(bytes: Vec<u8>, working_tree: &str, mount: &str, replace: bool) -> (out: Result<
    Vec<TreeOp>,
    OogitError,
>)
    ensures
        expansion_of(out) == expanded(bytes@, working_tree@, mount@, replace),
{
    let at_root = at_tree_root(working_tree, mount);
    match unpack(bytes) {
        Ok(entries) => expand_plan(&entries, mount, replace, at_root),
        Err(error) => Err(error),
    }
}

/// An archive may be written where none exists, and where overwriting is
/// allowed.
pub open spec fn may_write(archive_exists: bool, overwrite: bool) -> bool {
    overwrite || !archive_exists
}

/// The entries that a listing of `mount` packs into, `mount` being a
/// directory of `working_tree` or the working tree itself.
pub open spec fn collapsed_below(
    items: Seq<ItemView>,
    working_tree: Seq<char>,
    mount: Seq<char>,
) -> Seq<EntryView> {
    collapsed(items, is_tree_root(working_tree, mount))
}

/// Packs a listing of the mount point into the bytes of a new archive.
///
/// Refuses with `DestinationExists` exactly when the archive exists and may
/// not be overwritten. Otherwise the entries that `collapse_entries` gives
/// are handed to the container writer: it succeeds exactly when the writer
/// accepts them all and closes, as it always does where nothing is to be
/// packed; the bytes are then the container that it makes of them, and its
/// refusal is the only failure.
pub fn collapse(
    items: &Vec<TreeItem>,
    working_tree: &str,
    mount: &str,
    archive_exists: bool,
    overwrite: bool,
) -> (out: Result<Vec<u8>, OogitError>)
    ensures
        !may_write(archive_exists, overwrite) ==> out == Err::<Vec<u8>, OogitError>(
            OogitError::DestinationExists,
        ),
        may_write(archive_exists, overwrite) ==> (out is Ok <==> packable(
            collapsed_below(items_of(items@), working_tree@, mount@),
        )),
        may_write(archive_exists, overwrite) && collapsed_below(
            items_of(items@),
            working_tree@,
            mount@,
        ).len() == 0 ==> out is Ok,
        may_write(archive_exists, overwrite) && out is Err ==> out == Err::<Vec<u8>, OogitError>(
            OogitError::IoFailure,
        ),
        out matches Ok(bytes) ==> bytes@ == zip_image(
            handed(collapsed_below(items_of(items@), working_tree@, mount@)),
        ),
{
    if archive_exists && !overwrite {
        return Err(OogitError::DestinationExists);
    }
    let entries = collapse_entries(items, at_tree_root(working_tree, mount));
    pack(&entries)
}

} // verus!
