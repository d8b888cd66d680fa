//! What holds of the paths in the tree.

use vstd::prelude::*;

use super::fs_service;
use super::inodes;
use super::inodes::{DirRow, InodeManager, Node, Restoring, METADATA_INO, ROOT_INO};
use crate::domain::types::Torrent;
use crate::text;

verus! {

/// The names on the way to an entry are not empty and hold no slash, and only the root has none.
proof fn names_are_plain(nodes: Map<u64, Node>, ino: u64, n: nat)
    requires
        inodes::acyclic(nodes),
        inodes::proper(nodes),
        nodes.contains_key(ino),
        inodes::reaches_end(nodes, ino, n),
    ensures
        forall|i: int|
            0 <= i < inodes::path_names(nodes, ino).len() ==> (#[trigger] inodes::path_names(
                nodes,
                ino,
            )[i]).len() > 0 && !inodes::path_names(nodes, ino)[i].contains('/'),
        inodes::path_names(nodes, ino).len() == 0 <==> ino == ROOT_INO,
    decreases n,
{
    inodes::path_names_unfold(nodes, ino);
    if ino != ROOT_INO {
        names_are_plain(nodes, nodes[ino].parent(), (n - 1) as nat);
    }
}

/// Entries on the way to which there are the same names are the same.
proof fn names_tell_apart(nodes: Map<u64, Node>, a: u64, b: u64)
    requires
        inodes::acyclic(nodes),
        inodes::proper(nodes),
        nodes.contains_key(a),
        nodes.contains_key(b),
        inodes::path_names(nodes, a) == inodes::path_names(nodes, b),
    ensures
        a == b,
    decreases inodes::path_names(nodes, a).len(),
{
    let names = inodes::path_names(nodes, a);
    inodes::path_names_unfold(nodes, a);
    inodes::path_names_unfold(nodes, b);
    names_are_plain(nodes, a, inodes::height(nodes, a));
    names_are_plain(nodes, b, inodes::height(nodes, b));
    if names.len() > 0 {
        let p = nodes[a].parent();
        let q = nodes[b].parent();
        assert(inodes::path_names(nodes, p) =~= names.drop_last());
        assert(inodes::path_names(nodes, q) =~= names.drop_last());
        names_tell_apart(nodes, p, q);
        assert(nodes[a].name() == names.last() && nodes[b].name() == names.last());
    }
}

/// Names that are not empty and hold no slash can be told from the path that they make.
proof fn path_tells_names(a: Seq<Seq<char>>, b: Seq<Seq<char>>)
    requires
        forall|i: int| 0 <= i < a.len() ==> (#[trigger] a[i]).len() > 0 && !a[i].contains('/'),
        forall|i: int| 0 <= i < b.len() ==> (#[trigger] b[i]).len() > 0 && !b[i].contains('/'),
        text::join(a, seq!['/']) == text::join(b, seq!['/']),
    ensures
        a == b,
{
    if a.len() > 0 {
        text::split_undoes_join(a, '/');
    }
    if b.len() > 0 {
        text::split_undoes_join(b, '/');
    }
    if a.len() == 0 && b.len() > 0 {
        assert(b =~= seq![Seq::<char>::empty()]);
        assert(b[0].len() > 0);
    }
    if b.len() == 0 && a.len() > 0 {
        assert(a =~= seq![Seq::<char>::empty()]);
        assert(a[0].len() > 0);
    }
    if a.len() == 0 && b.len() == 0 {
        assert(a =~= b);
    }
}

/// No two entries have the same path.
pub proof fn paths_tell_entries_apart(mgr: InodeManager, a: u64, b: u64)
    requires
        mgr.wf(),
        inodes::proper(mgr.nodes()),
        mgr.nodes().contains_key(a),
        mgr.nodes().contains_key(b),
        inodes::full_path(mgr.nodes(), a) == inodes::full_path(mgr.nodes(), b),
    ensures
        a == b,
{
    let nodes = mgr.nodes();
    inodes::path_names_unfold(nodes, a);
    inodes::path_names_unfold(nodes, b);
    names_are_plain(nodes, a, inodes::height(nodes, a));
    names_are_plain(nodes, b, inodes::height(nodes, b));
    path_tells_names(inodes::path_names(nodes, a), inodes::path_names(nodes, b));
    names_tell_apart(nodes, a, b);
}

/// Looking for an entry by its own path gives it back.
pub proof fn own_path_leads_back(mgr: InodeManager, ino: u64, found: Option<u64>)
    requires
        mgr.wf(),
        inodes::proper(mgr.nodes()),
        mgr.nodes().contains_key(ino),
        inodes::found_at(mgr.nodes(), inodes::full_path(mgr.nodes(), ino), found),
    ensures
        found == Some(ino),
{
    if let Some(other) = found {
        paths_tell_entries_apart(mgr, ino, other);
    }
}

/// Making an entry under a name that is not empty and holds no slash keeps the tree proper.
pub proof fn new_entry_keeps_tree_proper(nodes: Map<u64, Node>, ino: u64, node: Node, file: bool)
    requires
        inodes::acyclic(nodes),
        inodes::has_fixed_entries(nodes),
        inodes::proper(nodes),
        !nodes.contains_key(ino),
        ino != 0,
        fs_service::new_entry_error(nodes, node.parent(), node.name(), file) is None,
        node.name().len() > 0,
        !node.name().contains('/'),
    ensures
        inodes::proper(nodes.insert(ino, node)),
{
    fs_service::new_entry_keeps_names_unique(nodes, ino, node, file);
    inodes::beneath_unfold(nodes, node.parent(), METADATA_INO);
    let after = nodes.insert(ino, node);
    assert forall|k: u64| #[trigger] after.contains_key(k) && k != ROOT_INO implies {
        &&& after.contains_key(after[k].parent())
        &&& after[k].name().len() > 0
        &&& !after[k].name().contains('/')
    } by {
        if k != ino {
            assert(nodes.contains_key(k));
        }
    }
}

/// Moving an entry to a directory that is there, under a free name that is not empty and holds no
/// slash, keeps the tree proper.
pub proof fn move_keeps_tree_proper(nodes: Map<u64, Node>, ino: u64, node: Node)
    requires
        inodes::proper(nodes),
        nodes.contains_key(ino),
        nodes.contains_key(node.parent()),
        forall|t: u64| !#[trigger] inodes::is_child(nodes, t, node.parent(), node.name()),
        node.name().len() > 0,
        !node.name().contains('/'),
    ensures
        inodes::proper(nodes.insert(ino, node)),
{
    fs_service::move_keeps_names_unique(nodes, ino, node);
    let after = nodes.insert(ino, node);
    assert forall|k: u64| #[trigger] after.contains_key(k) && k != ROOT_INO implies {
        &&& after.contains_key(after[k].parent())
        &&& after[k].name().len() > 0
        &&& !after[k].name().contains('/')
    } by {
        assert(nodes.contains_key(k));
    }
}

/// Taking an entry away that holds no other one keeps the tree proper.
pub proof fn removal_keeps_tree_proper(nodes: Map<u64, Node>, ino: u64)
    requires
        inodes::proper(nodes),
        forall|k: u64| #[trigger] nodes.contains_key(k) ==> nodes[k].parent() != ino,
    ensures
        inodes::proper(nodes.remove(ino)),
{
    fs_service::removal_keeps_names_unique(nodes, ino);
    let after = nodes.remove(ino);
    assert forall|k: u64| #[trigger] after.contains_key(k) && k != ROOT_INO implies {
        &&& after.contains_key(after[k].parent())
        &&& after[k].name().len() > 0
        &&& !after[k].name().contains('/')
    } by {
        assert(nodes.contains_key(k));
    }
}

/// A path of more than one name is the first one, a slash, and the path of the others.
proof fn path_of_first_and_others(names: Seq<Seq<char>>)
    requires
        names.len() > 1,
    ensures
        text::join(names, seq!['/']) == names[0] + seq!['/'] + text::join(
            names.skip(1),
            seq!['/'],
        ),
    decreases names.len(),
{
    let head = names.drop_last();
    if names.len() == 2 {
        assert(text::join(head, seq!['/']) == names[0]);
        assert(text::join(names.skip(1), seq!['/']) == names[1]);
    } else {
        path_of_first_and_others(head);
        assert(head.skip(1) =~= names.skip(1).drop_last());
        assert(text::join(names, seq!['/']) =~= names[0] + seq!['/'] + text::join(
            names.skip(1),
            seq!['/'],
        ));
    }
}

/// On the way to what is beneath `metadata/` its name comes first.
proof fn metadata_comes_first(nodes: Map<u64, Node>, ino: u64, n: nat)
    requires
        inodes::acyclic(nodes),
        inodes::has_fixed_entries(nodes),
        inodes::reaches_end(nodes, ino, n),
        inodes::beneath(nodes, ino, METADATA_INO),
    ensures
        nodes.contains_key(ino),
        inodes::path_names(nodes, ino).len() >= 1,
        inodes::path_names(nodes, ino)[0] == "metadata"@,
        ino == METADATA_INO ==> inodes::path_names(nodes, ino).len() == 1,
        ino != METADATA_INO && (nodes[ino] is File || nodes[ino].name().len() > 0)
            ==> inodes::path_names(nodes, ino).len() > 1,
    decreases n,
{
    inodes::path_names_unfold(nodes, ino);
    inodes::beneath_unfold(nodes, ino, METADATA_INO);
    if ino == METADATA_INO {
        reveal_strlit("metadata");
        inodes::path_names_unfold(nodes, ROOT_INO);
    } else {
        metadata_comes_first(nodes, nodes[ino].parent(), (n - 1) as nat);
    }
}

/// The first name on the way to an entry is that of an entry in the root above it.
proof fn entry_in_root(nodes: Map<u64, Node>, ino: u64, n: nat) -> (top: u64)
    requires
        inodes::acyclic(nodes),
        inodes::proper(nodes),
        nodes.contains_key(ino),
        ino != ROOT_INO,
        inodes::reaches_end(nodes, ino, n),
    ensures
        inodes::path_names(nodes, ino).len() >= 1,
        inodes::is_child(nodes, top, ROOT_INO, inodes::path_names(nodes, ino)[0]),
        inodes::beneath(nodes, ino, top),
    decreases n,
{
    inodes::path_names_unfold(nodes, ino);
    let p = nodes[ino].parent();
    if p == ROOT_INO {
        inodes::path_names_unfold(nodes, ROOT_INO);
        inodes::beneath_unfold(nodes, ino, ino);
        ino
    } else {
        let top = entry_in_root(nodes, p, (n - 1) as nat);
        inodes::beneath_unfold(nodes, ino, top);
        top
    }
}

proof fn slash_follows_metadata(rest: Seq<char>)
    ensures
        "metadata/"@ == "metadata"@ + seq!['/'],
        "metadata/"@.len() == 9,
        !"metadata"@.contains('/'),
        text::begins("metadata"@ + seq!['/'] + rest, "metadata/"@),
        ("metadata"@ + seq!['/'] + rest).skip(9) == rest,
{
    reveal_strlit("metadata");
    reveal_strlit("metadata/");
    assert("metadata/"@ =~= "metadata"@ + seq!['/']);
    let path = "metadata"@ + seq!['/'] + rest;
    assert(path.subrange(0, 9) =~= "metadata/"@);
    assert(path.skip(9) =~= rest);
}

/// A path that begins with `metadata` is one of names the first of which is that.
proof fn first_name_is_metadata(names: Seq<Seq<char>>)
    requires
        names.len() > 0,
        forall|i: int| 0 <= i < names.len() ==> !(#[trigger] names[i]).contains('/'),
        text::join(names, seq!['/']) == "metadata"@ || text::begins(
            text::join(names, seq!['/']),
            "metadata/"@,
        ),
    ensures
        names[0] == "metadata"@,
{
    let path = text::join(names, seq!['/']);
    text::split_undoes_join(names, '/');
    slash_follows_metadata(path);
    text::split_of_plain("metadata"@, '/');
    if path != "metadata"@ {
        let rest = path.skip(9);
        assert(path =~= path.subrange(0, 9) + rest);
        text::split_of_joined("metadata"@, rest, '/');
    }
}

/// What is beneath `metadata/` is what has a path that begins so.
pub proof fn metadata_is_told_by_its_path(mgr: InodeManager, ino: u64)
    requires
        mgr.wf(),
        inodes::proper(mgr.nodes()),
        mgr.nodes().contains_key(ino),
    ensures
        inodes::beneath(mgr.nodes(), ino, METADATA_INO) <==> (inodes::full_path(mgr.nodes(), ino)
            == "metadata"@ || text::begins(inodes::full_path(mgr.nodes(), ino), "metadata/"@)),
{
    let nodes = mgr.nodes();
    let names = inodes::path_names(nodes, ino);
    let n = inodes::height(nodes, ino);
    inodes::path_names_unfold(nodes, ino);
    names_are_plain(nodes, ino, n);
    if inodes::beneath(nodes, ino, METADATA_INO) {
        metadata_comes_first(nodes, ino, n);
        if names.len() > 1 {
            path_of_first_and_others(names);
            slash_follows_metadata(text::join(names.skip(1), seq!['/']));
        }
    } else if inodes::full_path(nodes, ino) == "metadata"@ || text::begins(
        inodes::full_path(nodes, ino),
        "metadata/"@,
    ) {
        if ino == ROOT_INO {
            reveal_strlit("metadata");
            slash_follows_metadata(Seq::empty());
        } else {
            let top = entry_in_root(nodes, ino, n);
            first_name_is_metadata(names);
            assert(inodes::is_child(nodes, METADATA_INO, ROOT_INO, "metadata"@));
            assert(top == METADATA_INO);
        }
    }
}

/// The path of what is beneath `metadata/` is that of `metadata/`, a slash, and its source path.
pub proof fn source_path_follows_metadata(mgr: InodeManager, ino: u64)
    requires
        mgr.wf(),
        inodes::beneath(mgr.nodes(), ino, METADATA_INO),
        ino != METADATA_INO,
        mgr.nodes()[ino] is File || mgr.nodes()[ino].name().len() > 0,
    ensures
        inodes::full_path(mgr.nodes(), ino) == "metadata/"@ + inodes::source_path(
            mgr.nodes(),
            ino,
        ),
{
    let nodes = mgr.nodes();
    let names = inodes::path_names(nodes, ino);
    inodes::path_names_unfold(nodes, ino);
    metadata_comes_first(nodes, ino, inodes::height(nodes, ino));
    path_of_first_and_others(names);
    slash_follows_metadata(text::join(names.skip(1), seq!['/']));
}

/// The rows of metadata directories as the catalogue keeps them: one row for an id, under a name
/// that is not empty, and with the path of its parent's row, a slash and its name, or its name
/// alone where it has no parent.
pub open spec fn rows_fit(rows: Seq<DirRow>) -> bool {
    &&& forall|a: DirRow, b: DirRow|
        #![trigger rows.contains(a), rows.contains(b)]
        rows.contains(a) && rows.contains(b) && a.id == b.id ==> a == b
    &&& forall|r: DirRow| #[trigger]
        rows.contains(r) ==> r.name.len() > 0 && match r.parent_id {
            Some(id) => exists|p: DirRow| #[trigger]
                rows.contains(p) && p.id == id && r.path == p.path + seq!['/'] + r.name,
            None => r.path == r.name,
        }
}

/// The directory of a row is there, under its name and its path.
pub open spec fn in_place(nodes: Map<u64, Node>, inos: Map<i64, u64>, row: DirRow) -> bool {
    let ino = inos[row.id];
    &&& inos.contains_key(row.id)
    &&& nodes.contains_key(ino)
    &&& nodes[ino] is Directory
    &&& nodes[ino].name() == row.name
    &&& inodes::full_path(nodes, ino) == "metadata/"@ + row.path
}

spec fn sound(st: Restoring) -> bool {
    &&& inodes::acyclic(st.nodes)
    &&& inodes::inos_below(st.nodes, st.next)
    &&& inodes::has_fixed_entries(st.nodes)
    &&& forall|id: i64| #[trigger] st.inos.contains_key(id) ==> st.inos[id] < st.next
}

proof fn slashes_add_up(a: Seq<char>, b: Seq<char>)
    ensures
        inodes::slashes(a + seq!['/'] + b) == inodes::slashes(a) + 1 + inodes::slashes(b),
    decreases b.len(),
{
    let s = a + seq!['/'] + b;
    if b.len() == 0 {
        assert(s.drop_last() =~= a);
    } else {
        slashes_add_up(a, b.drop_last());
        assert(s.drop_last() =~= a + seq!['/'] + b.drop_last());
    }
}

/// The path of a named entry that was added is that of its parent, a slash and its name, where
/// the parent has a path.
proof fn path_of_fresh_entry(nodes: Map<u64, Node>, fresh: u64, node: Node)
    requires
        inodes::acyclic(nodes),
        inodes::inos_below(nodes, fresh),
        node.parent() < fresh,
        node is File || node.name().len() > 0,
        fresh != ROOT_INO,
        inodes::full_path(nodes, node.parent()).len() > 0,
    ensures
        inodes::full_path(nodes.insert(fresh, node), fresh) == inodes::full_path(
            nodes,
            node.parent(),
        ) + seq!['/'] + node.name(),
{
    let after = nodes.insert(fresh, node);
    let above = inodes::path_names(nodes, node.parent());
    inodes::fresh_entry_keeps_tree(nodes, fresh, node);
    inodes::path_names_unfold(after, fresh);
    assert(inodes::path_names(after, node.parent()) == above);
    assert(above.push(node.name()).drop_last() =~= above);
}

proof fn path_of_metadata(nodes: Map<u64, Node>)
    requires
        inodes::acyclic(nodes),
        inodes::has_fixed_entries(nodes),
    ensures
        inodes::full_path(nodes, METADATA_INO) == "metadata"@,
        "metadata"@.len() > 0,
{
    reveal_strlit("metadata");
    inodes::path_names_unfold(nodes, METADATA_INO);
    inodes::path_names_unfold(nodes, ROOT_INO);
}

/// Where a row is placed: in a directory that is there.
spec fn place_of(st: Restoring, row: DirRow) -> u64 {
    match row.parent_id {
        Some(id) => if st.inos.contains_key(id) {
            st.inos[id]
        } else {
            METADATA_INO
        },
        None => METADATA_INO,
    }
}

proof fn placing_keeps_sound(st: Restoring, row: DirRow)
    requires
        sound(st),
        st.next < u64::MAX,
    ensures
        sound(inodes::restore_dir(st, row)),
        inodes::restore_dir(st, row).next == st.next + 1,
        place_of(st, row) < st.next,
        ROOT_INO < st.next,
        !st.nodes.contains_key(st.next),
{
    let node = Node::Directory { parent: place_of(st, row), name: row.name };
    assert(st.nodes.contains_key(METADATA_INO));
    assert(st.nodes.contains_key(ROOT_INO));
    inodes::fresh_entry_keeps_tree(st.nodes, st.next, node);
}

proof fn placing_leaves_others(st: Restoring, row: DirRow, r: DirRow)
    requires
        sound(st),
        st.next < u64::MAX,
        in_place(st.nodes, st.inos, r),
        r.id != row.id,
    ensures
        in_place(inodes::restore_dir(st, row).nodes, inodes::restore_dir(st, row).inos, r),
{
    let node = Node::Directory { parent: place_of(st, row), name: row.name };
    let ino = st.inos[r.id];
    placing_keeps_sound(st, row);
    inodes::fresh_entry_keeps_tree(st.nodes, st.next, node);
    assert(inodes::path_names(st.nodes.insert(st.next, node), ino) == inodes::path_names(
        st.nodes,
        ino,
    ));
}

/// The row of the directory that a row's directory stands in.
proof fn row_above(rows: Seq<DirRow>, row: DirRow) -> (p: DirRow)
    requires
        rows_fit(rows),
        rows.contains(row),
        row.parent_id is Some,
    ensures
        rows.contains(p),
        row.parent_id == Some(p.id),
        row.path == p.path + seq!['/'] + row.name,
{
    choose|p: DirRow| #[trigger]
        rows.contains(p) && row.parent_id == Some(p.id) && row.path == p.path + seq!['/'] + row.name
}

proof fn path_in_directory(st: Restoring, row: DirRow, p: DirRow)
    requires
        in_place(st.nodes, st.inos, p),
        row.parent_id == Some(p.id),
        row.path == p.path + seq!['/'] + row.name,
    ensures
        inodes::full_path(st.nodes, place_of(st, row)).len() > 0,
        inodes::full_path(st.nodes, place_of(st, row)) + seq!['/'] + row.name == "metadata/"@
            + row.path,
{
    slash_follows_metadata(row.path);
    assert("metadata/"@ + p.path + seq!['/'] + row.name =~= "metadata/"@ + row.path);
}

/// The path of a row follows from the path of the directory that it is placed in.
proof fn path_of_row(st: Restoring, rows: Seq<DirRow>, row: DirRow)
    requires
        sound(st),
        rows_fit(rows),
        rows.contains(row),
        forall|p: DirRow| #[trigger]
            rows.contains(p) && row.parent_id == Some(p.id) ==> in_place(st.nodes, st.inos, p),
    ensures
        inodes::full_path(st.nodes, place_of(st, row)).len() > 0,
        inodes::full_path(st.nodes, place_of(st, row)) + seq!['/'] + row.name == "metadata/"@
            + row.path,
{
    if row.parent_id is Some {
        let p = row_above(rows, row);
        path_in_directory(st, row, p);
    } else {
        slash_follows_metadata(row.path);
        path_of_metadata(st.nodes);
        assert("metadata"@ + seq!['/'] + row.name =~= "metadata/"@ + row.path);
    }
}

/// Placing the directory of a row whose parent is in place puts it in place, and leaves the others
/// there.
proof fn row_is_placed(st: Restoring, rows: Seq<DirRow>, row: DirRow)
    requires
        sound(st),
        st.next < u64::MAX,
        rows_fit(rows),
        rows.contains(row),
        forall|p: DirRow| #[trigger]
            rows.contains(p) && row.parent_id == Some(p.id) ==> in_place(st.nodes, st.inos, p),
    ensures
        sound(inodes::restore_dir(st, row)),
        inodes::restore_dir(st, row).next == st.next + 1,
        in_place(
            inodes::restore_dir(st, row).nodes,
            inodes::restore_dir(st, row).inos,
            row,
        ),
        forall|r: DirRow|
            rows.contains(r) && in_place(st.nodes, st.inos, r) ==> #[trigger] in_place(
                inodes::restore_dir(st, row).nodes,
                inodes::restore_dir(st, row).inos,
                r,
            ),
{
    let after = inodes::restore_dir(st, row);
    let node = Node::Directory { parent: place_of(st, row), name: row.name };
    placing_keeps_sound(st, row);
    path_of_row(st, rows, row);
    path_of_fresh_entry(st.nodes, st.next, node);
    assert(after.nodes == st.nodes.insert(st.next, node));
    assert forall|r: DirRow|
        rows.contains(r) && in_place(st.nodes, st.inos, r) implies #[trigger] in_place(
        after.nodes,
        after.inos,
        r,
    ) by {
        if r.id != row.id {
            placing_leaves_others(st, row, r);
        }
    }
}

proof fn depth_is_placed(start: Restoring, rows: Seq<DirRow>, depth: nat, k: int)
    requires
        sound(start),
        start.next + rows.len() <= u64::MAX,
        rows_fit(rows),
        0 <= k <= inodes::rows_at(rows, depth).len(),
    ensures
        ({
            let order = inodes::rows_above(rows, depth) + inodes::rows_at(rows, depth).take(k);
            let st = inodes::restore_dirs(start, order);
            &&& sound(st)
            &&& st.next == start.next + order.len()
            &&& forall|r: DirRow|
                rows.contains(r) && (inodes::slashes(r.path) < depth || inodes::rows_at(
                    rows,
                    depth,
                ).take(k).contains(r)) ==> #[trigger] in_place(st.nodes, st.inos, r)
        }),
    decreases depth, k,
{
    let above = inodes::rows_above(rows, depth);
    let level = inodes::rows_at(rows, depth);
    let order = above + level.take(k);
    let st = inodes::restore_dirs(start, order);
    if k > 0 {
        depth_is_placed(start, rows, depth, k - 1);
        let before = above + level.take(k - 1);
        let row = level[k - 1];
        let earlier = inodes::restore_dirs(start, before);
        assert(level.take(k) =~= level.take(k - 1).push(row));
        assert(order =~= before.push(row));
        assert(order.drop_last() =~= before);
        let here = |r: DirRow| inodes::slashes(r.path) == depth;
        assert(level =~= rows.filter(here));
        rows.lemma_filter_pred(here, k - 1);
        rows.lemma_filter_contains_rev(here, row);
        inodes::rows_all_counted(rows, depth + 1);
        assert(inodes::rows_above(rows, depth + 1) == above + level);
        assert forall|p: DirRow| #[trigger]
            rows.contains(p) && row.parent_id == Some(p.id) implies in_place(
            earlier.nodes,
            earlier.inos,
            p,
        ) by {
            let q = choose|q: DirRow| #[trigger]
                rows.contains(q) && Some(q.id) == row.parent_id && row.path == q.path + seq!['/']
                    + row.name;
            assert(p == q);
            slashes_add_up(p.path, row.name);
        }
        row_is_placed(earlier, rows, row);
        text::push_contains(level.take(k - 1), row);
    } else {
        assert(order =~= above);
        assert(level.take(0) =~= Seq::empty());
        if depth > 0 {
            let lower = (depth - 1) as nat;
            let last = inodes::rows_at(rows, lower);
            depth_is_placed(start, rows, lower, last.len() as int);
            assert(last.take(last.len() as int) =~= last);
            assert forall|r: DirRow|
                rows.contains(r) && inodes::slashes(r.path) < depth implies #[trigger] in_place(
                st.nodes,
                st.inos,
                r,
            ) by {
                if inodes::slashes(r.path) == lower {
                    let here = |r: DirRow| inodes::slashes(r.path) == lower;
                    assert(last =~= rows.filter(here));
                    rows.lemma_filter_contains(here, rows.index_of(r));
                }
            }
        }
    }
}

/// The tree with the directories of all rows.
pub open spec fn filled(mgr: InodeManager, rows: Seq<DirRow>, depth: nat) -> Restoring {
    inodes::restore_dirs(
        Restoring { nodes: mgr.nodes(), next: mgr.next_ino, inos: Map::empty() },
        inodes::rows_above(rows, depth),
    )
}

proof fn rows_are_in_place(mgr: InodeManager, rows: Seq<DirRow>, depth: nat)
    requires
        mgr.wf(),
        mgr.next_ino + rows.len() <= u64::MAX,
        rows_fit(rows),
        inodes::deeper_than_all(rows, depth),
    ensures
        sound(filled(mgr, rows, depth)),
        filled(mgr, rows, depth).next == mgr.next_ino + rows.len(),
        forall|r: DirRow| #[trigger]
            rows.contains(r) ==> in_place(
                filled(mgr, rows, depth).nodes,
                filled(mgr, rows, depth).inos,
                r,
            ),
{
    let start = Restoring { nodes: mgr.nodes(), next: mgr.next_ino, inos: Map::empty() };
    let above = inodes::rows_above(rows, depth);
    depth_is_placed(start, rows, depth, 0);
    assert(inodes::rows_at(rows, depth).take(0) =~= Seq::empty());
    assert(above + Seq::<DirRow>::empty() =~= above);
    inodes::rows_all_counted(rows, depth);
    assert forall|r: DirRow| #[trigger] rows.contains(r) implies in_place(
        filled(mgr, rows, depth).nodes,
        filled(mgr, rows, depth).inos,
        r,
    ) by {
        let i = rows.index_of(r);
        assert(inodes::slashes(rows[i].path) < depth);
    }
}

/// Adding the files of torrents keeps the tree one.
proof fn torrents_keep_tree(st: Restoring, torrents: Seq<Torrent>, parents: Seq<u64>, n: nat)
    requires
        sound(st),
        st.next + torrents.len() <= u64::MAX,
        inodes::parents_fit(st.nodes, st.next, torrents, parents),
        n <= torrents.len(),
    ensures
        ({
            let after = inodes::with_torrents(st.nodes, st.next, torrents, parents, n);
            &&& inodes::acyclic(after)
            &&& inodes::has_fixed_entries(after)
            &&& inodes::inos_below(after, (st.next + n) as u64)
            &&& n < torrents.len() ==> parents[n as int] < st.next + n
        }),
    decreases n,
{
    let after = inodes::with_torrents(st.nodes, st.next, torrents, parents, n);
    if n > 0 {
        let m = (n - 1) as nat;
        torrents_keep_tree(st, torrents, parents, m);
        let before = inodes::with_torrents(st.nodes, st.next, torrents, parents, m);
        let node = inodes::torrent_node(torrents[m as int], parents[m as int]);
        assert(before.contains_key(METADATA_INO) && before.contains_key(ROOT_INO));
        inodes::fresh_entry_keeps_tree(before, (st.next + m) as u64, node);
    }
    if n < torrents.len() {
        assert(inodes::torrent_parent(after, torrents[n as int], parents[n as int]));
        assert(after.contains_key(METADATA_INO));
    }
}

/// Adding the files of more torrents keeps every entry and its path.
proof fn later_torrents_keep(
    st: Restoring,
    torrents: Seq<Torrent>,
    parents: Seq<u64>,
    n: nat,
    m: nat,
    ino: u64,
)
    requires
        sound(st),
        st.next + torrents.len() <= u64::MAX,
        inodes::parents_fit(st.nodes, st.next, torrents, parents),
        n <= m <= torrents.len(),
        inodes::with_torrents(st.nodes, st.next, torrents, parents, n).contains_key(ino),
    ensures
        ({
            let before = inodes::with_torrents(st.nodes, st.next, torrents, parents, n);
            let after = inodes::with_torrents(st.nodes, st.next, torrents, parents, m);
            &&& after.contains_key(ino)
            &&& after[ino] == before[ino]
            &&& inodes::full_path(after, ino) == inodes::full_path(before, ino)
        }),
    decreases m - n,
{
    if n < m {
        let k = (m - 1) as nat;
        later_torrents_keep(st, torrents, parents, n, k, ino);
        torrents_keep_tree(st, torrents, parents, k);
        let before = inodes::with_torrents(st.nodes, st.next, torrents, parents, k);
        let fresh = (st.next + k) as u64;
        let node = inodes::torrent_node(torrents[k as int], parents[k as int]);
        inodes::fresh_entry_keeps_tree(before, fresh, node);
        assert(ino < fresh);
        assert(inodes::path_names(before.insert(fresh, node), ino) == inodes::path_names(
            before,
            ino,
        ));
    }
}

/// Each directory that is filled in from the catalogue has the path of its row beneath
/// `metadata/`.
pub proof fn restored_directories_have_their_paths(
    mgr: InodeManager,
    rows: Seq<DirRow>,
    torrents: Seq<Torrent>,
    depth: nat,
    parents: Seq<u64>,
    after: Map<u64, Node>,
    row: DirRow,
)
    requires
        mgr.wf(),
        mgr.next_ino + rows.len() + torrents.len() <= u64::MAX,
        inodes::restored(mgr.nodes(), mgr.next_ino, rows, torrents, depth, parents, after),
        rows_fit(rows),
        rows.contains(row),
    ensures
        in_place(after, filled(mgr, rows, depth).inos, row),
{
    let st = filled(mgr, rows, depth);
    rows_are_in_place(mgr, rows, depth);
    assert(in_place(st.nodes, st.inos, row));
    later_torrents_keep(st, torrents, parents, 0, torrents.len(), st.inos[row.id]);
}

/// The directory of a torrent's file has the torrent's source path.
proof fn torrent_parent_has_source_path(
    mgr: InodeManager,
    rows: Seq<DirRow>,
    torrents: Seq<Torrent>,
    depth: nat,
    parents: Seq<u64>,
    i: int,
)
    requires
        mgr.wf(),
        mgr.next_ino + rows.len() + torrents.len() <= u64::MAX,
        inodes::deeper_than_all(rows, depth),
        inodes::parents_fit(
            filled(mgr, rows, depth).nodes,
            filled(mgr, rows, depth).next,
            torrents,
            parents,
        ),
        rows_fit(rows),
        0 <= i < torrents.len(),
        torrents[i].source_path@.len() == 0 || exists|row: DirRow| #[trigger]
            rows.contains(row) && row.path == torrents[i].source_path@,
    ensures
        inodes::full_path(
            inodes::with_torrents(
                filled(mgr, rows, depth).nodes,
                filled(mgr, rows, depth).next,
                torrents,
                parents,
                i as nat,
            ),
            parents[i],
        ) == if torrents[i].source_path@.len() == 0 {
            "metadata"@
        } else {
            "metadata/"@ + torrents[i].source_path@
        },
{
    let st = filled(mgr, rows, depth);
    let t = torrents[i];
    let before = inodes::with_torrents(st.nodes, st.next, torrents, parents, i as nat);
    rows_are_in_place(mgr, rows, depth);
    torrents_keep_tree(st, torrents, parents, i as nat);
    assert(inodes::torrent_parent(before, t, parents[i]));
    path_of_metadata(before);
    if t.source_path@.len() > 0 {
        let row = choose|row: DirRow| #[trigger]
            rows.contains(row) && row.path == t.source_path@;
        assert(in_place(st.nodes, st.inos, row));
        later_torrents_keep(st, torrents, parents, 0, i as nat, st.inos[row.id]);
        assert(before.contains_key(st.inos[row.id]));
    }
}

/// The file of a torrent stands in its directory once the files of all torrents are added.
proof fn torrent_is_placed(st: Restoring, torrents: Seq<Torrent>, parents: Seq<u64>, i: int)
    requires
        sound(st),
        st.next + torrents.len() <= u64::MAX,
        inodes::parents_fit(st.nodes, st.next, torrents, parents),
        0 <= i < torrents.len(),
        inodes::full_path(
            inodes::with_torrents(st.nodes, st.next, torrents, parents, i as nat),
            parents[i],
        ).len() > 0,
    ensures
        ({
            let before = inodes::with_torrents(st.nodes, st.next, torrents, parents, i as nat);
            let after = inodes::with_torrents(
                st.nodes,
                st.next,
                torrents,
                parents,
                torrents.len(),
            );
            let node = inodes::torrent_node(torrents[i], parents[i]);
            let ino = (st.next + i) as u64;
            &&& after.contains_key(ino)
            &&& after[ino] == node
            &&& inodes::full_path(after, ino) == inodes::full_path(before, parents[i]) + seq!['/']
                + node.name()
        }),
{
    let before = inodes::with_torrents(st.nodes, st.next, torrents, parents, i as nat);
    let node = inodes::torrent_node(torrents[i], parents[i]);
    let ino = (st.next + i) as u64;
    torrents_keep_tree(st, torrents, parents, i as nat);
    assert(before.contains_key(ROOT_INO));
    path_of_fresh_entry(before, ino, node);
    assert(inodes::with_torrents(st.nodes, st.next, torrents, parents, i as nat + 1)
        == before.insert(ino, node));
    later_torrents_keep(st, torrents, parents, i as nat + 1, torrents.len(), ino);
}

/// The file of a torrent that is filled in from the catalogue stands, with what the catalogue
/// holds of it, beneath `metadata/` at the torrent's source path, where that is empty or the path
/// of a row.
pub proof fn restored_torrents_have_their_paths(
    mgr: InodeManager,
    rows: Seq<DirRow>,
    torrents: Seq<Torrent>,
    depth: nat,
    parents: Seq<u64>,
    after: Map<u64, Node>,
    i: int,
)
    requires
        mgr.wf(),
        mgr.next_ino + rows.len() + torrents.len() <= u64::MAX,
        inodes::restored(mgr.nodes(), mgr.next_ino, rows, torrents, depth, parents, after),
        rows_fit(rows),
        0 <= i < torrents.len(),
        torrents[i].source_path@.len() == 0 || exists|row: DirRow| #[trigger]
            rows.contains(row) && row.path == torrents[i].source_path@,
    ensures
        ({
            let t = torrents[i];
            let ino = (mgr.next_ino + rows.len() + i) as u64;
            &&& after.contains_key(ino)
            &&& after[ino] == inodes::torrent_node(t, parents[i])
            &&& after[ino] matches Node::File { data, .. } && data == (if t.torrent_data is Some {
                t.torrent_data->0@
            } else {
                Seq::<u8>::empty()
            })
            &&& inodes::full_path(after, ino) == (if t.source_path@.len() == 0 {
                "metadata/"@
            } else {
                "metadata/"@ + t.source_path@ + seq!['/']
            }) + inodes::torrent_file_name(t.filename@, t.name@)
        }),
{
    let st = filled(mgr, rows, depth);
    let t = torrents[i];
    rows_are_in_place(mgr, rows, depth);
    torrent_parent_has_source_path(mgr, rows, torrents, depth, parents, i);
    reveal_strlit("metadata");
    slash_follows_metadata(t.source_path@);
    torrent_is_placed(st, torrents, parents, i);
}

proof fn path_is_longer_than_first(names: Seq<Seq<char>>)
    requires
        names.len() > 0,
    ensures
        text::join(names, seq!['/']).len() >= names[0].len(),
    decreases names.len(),
{
    if names.len() > 1 {
        path_is_longer_than_first(names.drop_last());
    }
}

/// What has a name beneath `metadata/` has a source path.
pub proof fn source_path_is_not_empty(mgr: InodeManager, ino: u64)
    requires
        mgr.wf(),
        inodes::beneath(mgr.nodes(), ino, METADATA_INO),
        ino != METADATA_INO,
        mgr.nodes()[ino].name().len() > 0,
    ensures
        inodes::source_path(mgr.nodes(), ino).len() > 0,
{
    let nodes = mgr.nodes();
    let names = inodes::path_names(nodes, ino);
    inodes::path_names_unfold(nodes, ino);
    inodes::beneath_unfold(nodes, ino, METADATA_INO);
    metadata_comes_first(nodes, ino, inodes::height(nodes, ino));
    path_is_longer_than_first(names.drop_last());
    source_path_follows_metadata(mgr, ino);
    slash_follows_metadata(Seq::empty());
    reveal_strlit("metadata");
    assert(names.last() == nodes[ino].name());
}

/// The path of a named entry that is added below `metadata/` is that of `metadata/` and, where its
/// parent has a source path, that path, and its name, with slashes between them.
pub proof fn path_of_new_entry(mgr: InodeManager, ino: u64, node: Node)
    requires
        mgr.wf(),
        ino == mgr.next_ino,
        inodes::beneath(mgr.nodes(), node.parent(), METADATA_INO),
        node is File || node.name().len() > 0,
        node.parent() == METADATA_INO || mgr.nodes()[node.parent()].name().len() > 0,
    ensures
        inodes::full_path(mgr.nodes().insert(ino, node), ino) == "metadata/"@
            + fs_service::child_source_path(mgr.nodes(), node.parent(), node.name()),
{
    let nodes = mgr.nodes();
    let parent = node.parent();
    let path = inodes::source_path(nodes, parent);
    reveal_strlit("/");
    assert("/"@ =~= seq!['/']);
    slash_follows_metadata(path);
    path_of_metadata(nodes);
    inodes::beneath_unfold(nodes, parent, METADATA_INO);
    assert(nodes.contains_key(parent));
    assert(nodes.contains_key(ROOT_INO));
    if parent != METADATA_INO {
        source_path_follows_metadata(mgr, parent);
        source_path_is_not_empty(mgr, parent);
        assert("metadata/"@ + path + seq!['/'] + node.name() =~= "metadata/"@ + (path + seq!['/']
            + node.name()));
    }
    path_of_fresh_entry(nodes, ino, node);
}

/// The path of a named entry beneath `metadata/` is that of `metadata/` and, where its parent has a
/// source path, that path, and its name, with slashes between them.
pub proof fn path_by_parent(mgr: InodeManager, ino: u64)
    requires
        mgr.wf(),
        ino != ROOT_INO,
        ino != 0,
        mgr.nodes().contains_key(ino),
        mgr.nodes()[ino].name().len() > 0,
        inodes::beneath(mgr.nodes(), mgr.nodes()[ino].parent(), METADATA_INO),
        mgr.nodes()[ino].parent() == METADATA_INO
            || mgr.nodes()[mgr.nodes()[ino].parent()].name().len() > 0,
    ensures
        inodes::full_path(mgr.nodes(), ino) == "metadata/"@ + fs_service::child_source_path(
            mgr.nodes(),
            mgr.nodes()[ino].parent(),
            mgr.nodes()[ino].name(),
        ),
{
    let nodes = mgr.nodes();
    let parent = nodes[ino].parent();
    let name = nodes[ino].name();
    let path = inodes::source_path(nodes, parent);
    reveal_strlit("/");
    assert("/"@ =~= seq!['/']);
    slash_follows_metadata(path);
    path_of_metadata(nodes);
    inodes::path_names_unfold(nodes, ino);
    inodes::path_names_unfold(nodes, parent);
    let above = inodes::path_names(nodes, parent);
    metadata_comes_first(nodes, parent, inodes::height(nodes, parent));
    assert(above.push(name).drop_last() =~= above);
    if parent != METADATA_INO {
        source_path_follows_metadata(mgr, parent);
        source_path_is_not_empty(mgr, parent);
        assert("metadata/"@ + path + seq!['/'] + name =~= "metadata/"@ + (path + seq!['/']
            + name));
    }
}

} // verus!
