//! The files of the working tree as a map from paths to bytes, what the
//! changes of an unpacking do to it, and the round trip: packing what was
//! unpacked gives the files of the archive back.

use crate::archive::EntryView;
use crate::paths::{is_rooted, joined};
use crate::sync::{
    acceptable, collapsed, enclosed, entry_for, has_component, in_engine, is_packed, is_relative,
    op_for, parent_name, planned, ItemView, TreeOpView,
};
use vstd::prelude::*;

verus! {

/// The files of an archive: for each name of a file entry the bytes of the
/// last entry of that name, which is the one that unpacking leaves on disk.
pub open spec fn files_of(entries: Seq<EntryView>) -> Map<Seq<char>, Seq<u8>>
    decreases entries.len(),
{
    if entries.len() == 0 {
        Map::empty()
    } else if entries.last().is_dir {
        files_of(entries.drop_last())
    } else {
        files_of(entries.drop_last()).insert(entries.last().name, entries.last().content)
    }
}

/// Whether emptying `dir` removes the file at `path`: it does where the file
/// is below `dir`, unless the directory of the engine is spared and the
/// file is inside it.
pub open spec fn cleared(dir: Seq<char>, spare_engine: bool, path: Seq<char>) -> bool {
    exists|name: Seq<char>|
        is_relative(name) && !(spare_engine && in_engine(name)) && path == #[trigger] joined(
            dir,
            name,
        )
}

/// The files of the tree after one change.
pub open spec fn apply_op(tree: Map<Seq<char>, Seq<u8>>, op: TreeOpView) -> Map<
    Seq<char>,
    Seq<u8>,
> {
    match op {
        TreeOpView::Clear { dir, spare_engine } => tree.restrict(
            Set::new(|p: Seq<char>| !cleared(dir, spare_engine, p)),
        ),
        TreeOpView::MakeDir { .. } => tree,
        TreeOpView::WriteFile { path, content } => tree.insert(path, content),
    }
}

/// The files of the tree after the changes, made in their order.
pub open spec fn apply(tree: Map<Seq<char>, Seq<u8>>, ops: Seq<TreeOpView>) -> Map<
    Seq<char>,
    Seq<u8>,
>
    decreases ops.len(),
{
    if ops.len() == 0 {
        tree
    } else {
        apply_op(apply(tree, ops.drop_last()), ops.last())
    }
}

/// Whether the mount point holds no file of its own: none at all, or, at
/// the root of the working tree, none but inside the directory of the
/// engine.
pub open spec fn is_vacant(tree: Map<Seq<char>, Seq<u8>>, mount: Seq<char>, at_root: bool) -> bool {
    forall|name: Seq<char>|
        is_relative(name) && tree.contains_key(#[trigger] joined(mount, name)) ==> at_root
            && in_engine(name)
}

/// Whether a listing shows the files of the tree below `mount` as they are:
/// every name is relative to the mount point, every file item is in the
/// tree with its bytes, and every file of the tree below the mount point is
/// listed.
pub open spec fn is_faithful(
    items: Seq<ItemView>,
    tree: Map<Seq<char>, Seq<u8>>,
    mount: Seq<char>,
    at_root: bool,
) -> bool {
    &&& forall|i: int| 0 <= i < items.len() ==> !is_rooted(#[trigger] items[i].name)
    &&& forall|i: int|
        0 <= i < items.len() && (#[trigger] items[i]).is_file && is_packed(items[i], at_root)
            ==> tree.contains_key(joined(mount, items[i].name)) && tree[joined(
            mount,
            items[i].name,
        )] == items[i].content
    &&& forall|name: Seq<char>|
        is_relative(name) && tree.contains_key(#[trigger] joined(mount, name)) ==> exists|i: int|
            0 <= i < items.len() && (#[trigger] items[i]).is_file && items[i].name == name
}

/// Two relative names that lead to the same place below a directory are the
/// same name.
pub proof fn lemma_join_injective(dir: Seq<char>, a: Seq<char>, b: Seq<char>)
    requires
        !is_rooted(a),
        !is_rooted(b),
        joined(dir, a) == joined(dir, b),
    ensures
        a == b,
{
    let k = joined(dir, a).len() - a.len();
    assert(a =~= joined(dir, a).subrange(k, joined(dir, a).len() as int));
    assert(b =~= joined(dir, b).subrange(k, joined(dir, b).len() as int));
}

/// Every file of an archive is one of its file entries.
pub proof fn lemma_files_are_entries(entries: Seq<EntryView>, name: Seq<char>)
    requires
        files_of(entries).contains_key(name),
    ensures
        exists|j: int|
            0 <= j < entries.len() && (#[trigger] entries[j]).name == name && !entries[j].is_dir,
    decreases entries.len(),
{
    if entries.len() > 0 {
        let last = entries.last();
        if !last.is_dir && last.name == name {
            assert(entries[entries.len() - 1] == last);
        } else {
            lemma_files_are_entries(entries.drop_last(), name);
            let j = choose|j: int|
                0 <= j < entries.drop_last().len() && (#[trigger] entries.drop_last()[j]).name
                    == name && !entries.drop_last()[j].is_dir;
            assert(entries[j] == entries.drop_last()[j]);
        }
    }
}

/// What the changes of an unpacking leave below the mount point: the files
/// of the archive, and beside them what was there before.
pub proof fn lemma_unpacking_writes_files(
    base: Map<Seq<char>, Seq<u8>>,
    lead: Seq<TreeOpView>,
    entries: Seq<EntryView>,
    mount: Seq<char>,
)
    requires
        forall|i: int| 0 <= i < entries.len() ==> is_relative(#[trigger] entries[i].name),
    ensures
        ({
            let before = apply(base, lead);
            let after = apply(base, lead + entries.map_values(|e: EntryView| op_for(e, mount)));
            &&& forall|name: Seq<char>|
                is_relative(name) ==> (after.contains_key(#[trigger] joined(mount, name))
                    <==> files_of(entries).contains_key(name) || before.contains_key(
                    joined(mount, name),
                ))
            &&& forall|name: Seq<char>|
                is_relative(name) && files_of(entries).contains_key(name) ==> after[#[trigger] joined(
                    mount,
                    name,
                )] == files_of(entries)[name]
        }),
    decreases entries.len(),
{
    let writes = entries.map_values(|e: EntryView| op_for(e, mount));
    if entries.len() == 0 {
        assert(lead + writes =~= lead);
    } else {
        let shorter = entries.drop_last();
        let last = entries.last();
        let fewer = shorter.map_values(|e: EntryView| op_for(e, mount));
        assert forall|i: int| 0 <= i < shorter.len() implies is_relative(
            #[trigger] shorter[i].name,
        ) by {
            assert(shorter[i] == entries[i]);
        }
        lemma_unpacking_writes_files(base, lead, shorter, mount);
        assert((lead + writes).drop_last() =~= lead + fewer);
        assert((lead + writes).last() == op_for(last, mount));
        let middle = apply(base, lead + fewer);
        let after = apply(base, lead + writes);
        assert(after == apply_op(middle, op_for(last, mount)));
        assert(is_relative(entries[entries.len() - 1].name));
        if !last.is_dir {
            assert forall|name: Seq<char>|
                is_relative(name) && joined(mount, name) == joined(
                    mount,
                    last.name,
                ) implies name == last.name by {
                lemma_join_injective(mount, name, last.name);
            }
        }
    }
}

/// The files of the entries that a listing packs into are the file items
/// that go into the archive, with their bytes.
pub proof fn lemma_packed_files(items: Seq<ItemView>, at_root: bool)
    ensures
        forall|name: Seq<char>| #[trigger]
            files_of(collapsed(items, at_root)).contains_key(name) ==> exists|i: int|
                0 <= i < items.len() && (#[trigger] items[i]).is_file && items[i].name == name
                    && is_packed(items[i], at_root) && items[i].content == files_of(collapsed(items, at_root))[name],
        forall|i: int|
            0 <= i < items.len() && (#[trigger] items[i]).is_file && is_packed(items[i], at_root)
                ==> files_of(collapsed(items, at_root)).contains_key(items[i].name),
    decreases items.len(),
{
    if items.len() > 0 {
        let shorter = items.drop_last();
        let last = items.last();
        lemma_packed_files(shorter, at_root);
        let fewer = collapsed(shorter, at_root);
        if is_packed(last, at_root) {
            let all = fewer.push(entry_for(last));
            assert(collapsed(items, at_root) == all);
            assert(all.drop_last() =~= fewer);
            assert(all.last() == entry_for(last));
        }
        assert forall|name: Seq<char>| #[trigger]
            files_of(collapsed(items, at_root)).contains_key(name) implies exists|i: int|
            0 <= i < items.len() && (#[trigger] items[i]).is_file && items[i].name == name
                && is_packed(items[i], at_root) && items[i].content == files_of(collapsed(items, at_root))[name] by {
            if is_packed(last, at_root) && last.is_file && last.name == name {
                assert(items[items.len() - 1] == last);
            } else {
                assert(files_of(fewer).contains_key(name));
                let i = choose|i: int|
                    0 <= i < shorter.len() && (#[trigger] shorter[i]).is_file && shorter[i].name
                        == name && is_packed(shorter[i], at_root) && shorter[i].content == files_of(
                        fewer,
                    )[name];
                assert(items[i] == shorter[i]);
            }
        }
        assert forall|i: int|
            0 <= i < items.len() && (#[trigger] items[i]).is_file && is_packed(
                items[i],
                at_root,
            ) implies files_of(collapsed(items, at_root)).contains_key(items[i].name) by {
            if i < items.len() - 1 {
                assert(shorter[i] == items[i]);
            }
        }
    }
}

/// Packing what was unpacked gives the files of the archive back.
///
/// Take an archive whose entries have enclosed names and unpack it below a
/// mount point that is emptied first or holds no file of its own, at the
/// root of the working tree or below it. Then every listing that shows the
/// files below the mount point as they are packs into entries with the
/// same files as the archive: the same names, each with the same bytes.
pub proof fn lemma_collapse_inverts_expand(
    entries: Seq<EntryView>,
    base: Map<Seq<char>, Seq<u8>>,
    mount: Seq<char>,
    replace: bool,
    at_root: bool,
    items: Seq<ItemView>,
)
    requires
        acceptable(entries, at_root),
        replace || is_vacant(base, mount, at_root),
        is_faithful(items, apply(base, planned(entries, mount, replace, at_root)), mount, at_root),
    ensures
        files_of(collapsed(items, at_root)) == files_of(entries),
{
    let lead = if replace {
        seq![TreeOpView::Clear { dir: mount, spare_engine: at_root }]
    } else {
        Seq::<TreeOpView>::empty()
    };
    let writes = entries.map_values(|e: EntryView| op_for(e, mount));
    let tree = apply(base, planned(entries, mount, replace, at_root));
    let before = apply(base, lead);
    assert(planned(entries, mount, replace, at_root) =~= lead + writes);
    assert(is_vacant(before, mount, at_root)) by {
        if replace {
            let clear = TreeOpView::Clear { dir: mount, spare_engine: at_root };
            assert(lead.drop_last() =~= Seq::<TreeOpView>::empty());
            assert(apply(base, lead.drop_last()) == base);
            assert(lead.last() == clear);
            assert(before == apply_op(base, clear));
            assert forall|name: Seq<char>|
                is_relative(name) && before.contains_key(
                    #[trigger] joined(mount, name),
                ) implies at_root && in_engine(name) by {
                assert(!cleared(mount, at_root, joined(mount, name)));
            }
        }
    }
    assert forall|i: int| 0 <= i < entries.len() implies is_relative(
        #[trigger] entries[i].name,
    ) by {
        assert(enclosed(entries[i].name, at_root));
    }
    lemma_unpacking_writes_files(base, lead, entries, mount);
    lemma_packed_files(items, at_root);
    let packed = files_of(collapsed(items, at_root));
    let wanted = files_of(entries);
    assert forall|name: Seq<char>| packed.contains_key(name) implies wanted.contains_key(name)
        && packed[name] == wanted[name] by {
        let i = choose|i: int|
            0 <= i < items.len() && (#[trigger] items[i]).is_file && items[i].name == name
                && is_packed(items[i], at_root) && items[i].content == packed[name];
        assert(!is_rooted(items[i].name));
        assert(is_relative(name));
        assert(tree.contains_key(joined(mount, name)));
        if before.contains_key(joined(mount, name)) {
            assert(at_root && in_engine(name));
        }
    }
    assert forall|name: Seq<char>| wanted.contains_key(name) implies packed.contains_key(name) by {
        lemma_files_are_entries(entries, name);
        let j = choose|j: int|
            0 <= j < entries.len() && (#[trigger] entries[j]).name == name && !entries[j].is_dir;
        assert(enclosed(entries[j].name, at_root));
        assert(tree.contains_key(joined(mount, name)));
        let i = choose|i: int|
            0 <= i < items.len() && (#[trigger] items[i]).is_file && items[i].name == name;
        assert(is_packed(items[i], at_root));
    }
    assert(packed =~= wanted);
}

/// Whether `path` is not below `mount`: no relative name leads to it from
/// there.
pub open spec fn is_outside(mount: Seq<char>, path: Seq<char>) -> bool {
    forall|name: Seq<char>| is_relative(name) ==> path != #[trigger] joined(mount, name)
}

/// Whether `path` is inside a directory that stands directly in `mount`
/// and has the name of the engine's directory.
pub open spec fn is_engine_file(mount: Seq<char>, path: Seq<char>) -> bool {
    exists|name: Seq<char>|
        is_relative(name) && in_engine(name) && path == #[trigger] joined(mount, name)
}

/// Whether an unpacking below `mount` leaves the file at `path` alone: it
/// does where the file is not below the mount point, and, at the root of
/// the working tree, where the file is inside the directory of the engine.
pub open spec fn is_spared(mount: Seq<char>, at_root: bool, path: Seq<char>) -> bool {
    is_outside(mount, path) || (at_root && is_engine_file(mount, path))
}

/// What one change of an unpacking leaves alone.
proof fn lemma_change_spares(
    tree: Map<Seq<char>, Seq<u8>>,
    entry: EntryView,
    mount: Seq<char>,
    at_root: bool,
    path: Seq<char>,
)
    requires
        enclosed(entry.name, at_root),
        is_spared(mount, at_root, path),
    ensures
        apply_op(tree, op_for(entry, mount)).contains_key(path) == tree.contains_key(path),
        tree.contains_key(path) ==> apply_op(tree, op_for(entry, mount))[path] == tree[path],
{
    if joined(mount, entry.name) == path {
        if at_root && is_engine_file(mount, path) {
            let name = choose|name: Seq<char>|
                is_relative(name) && in_engine(name) && path == joined(mount, name);
            lemma_join_injective(mount, name, entry.name);
            assert(in_engine(entry.name));
        }
    }
}

/// Unpacking touches nothing but the mount point, and at the root of the
/// working tree nothing of the engine: a file that is spared is after the
/// changes what it was before them, whatever the archive holds.
pub proof fn lemma_unpacking_spares_the_rest(
    entries: Seq<EntryView>,
    base: Map<Seq<char>, Seq<u8>>,
    mount: Seq<char>,
    replace: bool,
    at_root: bool,
    path: Seq<char>,
)
    requires
        acceptable(entries, at_root),
        is_spared(mount, at_root, path),
    ensures
        apply(base, planned(entries, mount, replace, at_root)).contains_key(path)
            == base.contains_key(path),
        base.contains_key(path) ==> apply(base, planned(entries, mount, replace, at_root))[path]
            == base[path],
    decreases entries.len(),
{
    let clear = TreeOpView::Clear { dir: mount, spare_engine: at_root };
    let lead = if replace {
        seq![clear]
    } else {
        Seq::<TreeOpView>::empty()
    };
    let writes = entries.map_values(|e: EntryView| op_for(e, mount));
    assert(planned(entries, mount, replace, at_root) =~= lead + writes);
    if entries.len() == 0 {
        assert(lead + writes =~= lead);
        if replace {
            assert(lead.drop_last() =~= Seq::<TreeOpView>::empty());
            assert(apply(base, lead.drop_last()) == base);
            assert(lead.last() == clear);
            assert(!cleared(mount, at_root, path)) by {
                if cleared(mount, at_root, path) {
                    let n = choose|n: Seq<char>|
                        is_relative(n) && !(at_root && in_engine(n)) && path == joined(mount, n);
                    if at_root && is_engine_file(mount, path) {
                        let m = choose|m: Seq<char>|
                            is_relative(m) && in_engine(m) && path == joined(mount, m);
                        lemma_join_injective(mount, n, m);
                    }
                }
            }
        }
    } else {
        let shorter = entries.drop_last();
        let fewer = shorter.map_values(|e: EntryView| op_for(e, mount));
        assert forall|i: int| 0 <= i < shorter.len() implies enclosed(
            #[trigger] shorter[i].name,
            at_root,
        ) by {
            assert(shorter[i] == entries[i]);
        }
        lemma_unpacking_spares_the_rest(shorter, base, mount, replace, at_root, path);
        assert(planned(shorter, mount, replace, at_root) =~= lead + fewer);
        assert((lead + writes).drop_last() =~= lead + fewer);
        assert((lead + writes).last() == op_for(entries.last(), mount));
        assert(enclosed(entries[entries.len() - 1].name, at_root));
        lemma_change_spares(apply(base, lead + fewer), entries.last(), mount, at_root, path);
    }
}

/// Below a mount point that is not the root of the working tree nothing is
/// refused for its name but what leads out of the mount point, and nothing
/// but the mount point itself is left out of the archive: a directory with
/// the name of the engine's is content like any other.
pub proof fn lemma_engine_name_is_content_below_root(name: Seq<char>, item: ItemView)
    ensures
        enclosed(name, false) <==> is_relative(name) && !has_component(name, parent_name()),
        is_packed(item, false) <==> item.name.len() > 0,
{
}

} // verus!
