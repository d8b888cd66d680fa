//! The directories under which torrents are filed.

use vstd::prelude::*;

use crate::fuse::fs_service;
use crate::fuse::fs_service::move_path;
use crate::domain::types::Torrent;
use crate::text;

verus! {

/// The directories on a path: its parts but for the empty ones.
pub open spec fn directories_on(path: Seq<char>) -> Seq<Seq<char>> {
    text::split(path, '/').filter(|part: Seq<char>| part.len() > 0)
}

/// A directory to look for by its path, and to make where it is missing.
#[derive(Debug)]
pub struct DirectoryWanted {
    pub parent: Option<i64>,
    pub name: String,
    pub path: String,
}

/// Goes through the directories on a path, from the outermost to the innermost.
pub struct DirectoryChain {
    pub parts: Vec<String>,
    /// The rows of the directories gone through.
    pub rows: Vec<i64>,
}

impl DirectoryChain {
    pub open spec fn path(&self) -> Seq<Seq<char>> {
        text::views(self.parts@)
    }

    pub open spec fn wf(&self) -> bool {
        self.rows@.len() <= self.parts@.len()
    }

    pub fn new(source_path: &str) -> (r: Self)
        ensures
            r.wf(),
            r.path() == directories_on(source_path@),
            r.rows@.len() == 0,
    {
        let all = text::split_on(source_path, '/');
        let ghost parts = text::views(all@);
        let ghost filled = |part: Seq<char>| part.len() > 0;
        let mut kept: Vec<String> = Vec::new();
        let mut i: usize = 0;
        proof {
            reveal(Seq::filter);
            assert(text::views(kept@) =~= parts.take(0).filter(filled));
        }
        while i < all.len()
            invariant
                i <= all@.len(),
                parts == text::views(all@),
                filled == (|part: Seq<char>| part.len() > 0),
                text::views(kept@) == parts.take(i as int).filter(filled),
            decreases all@.len() - i,
        {
            proof {
                reveal(Seq::filter);
                assert(parts.take(i as int + 1).drop_last() =~= parts.take(i as int));
            }
            let ghost before = text::views(kept@);
            if !all[i].as_str().is_empty() {
                kept.push(all[i].clone());
                proof {
                    assert(text::views(kept@) =~= before.push(parts[i as int]));
                }
            }
            i = i + 1;
        }
        proof {
            assert(parts.take(all@.len() as int) =~= parts);
        }
        DirectoryChain { parts: kept, rows: Vec::new() }
    }

    /// `r` is the directory that comes after those gone through, if there is one.
    pub open spec fn wants(&self, r: Option<DirectoryWanted>) -> bool {
        let n = self.rows@.len() as int;
        match r {
            Some(d) => {
                &&& n < self.path().len()
                &&& d.name@ == self.path()[n]
                &&& d.path@ == text::join(self.path().take(n + 1), "/"@)
                &&& d.parent == if n == 0 {
                    None
                } else {
                    Some(self.rows@.last())
                }
            },
            None => n == self.path().len(),
        }
    }

    /// The next directory, or none after the last.
    pub fn wanted(&self) -> (r: Option<DirectoryWanted>)
        requires
            self.wf(),
        ensures
            self.wants(r),
    {
        let n: usize = self.rows.len();
        if n == self.parts.len() {
            return None;
        }
        let parent = if n == 0 {
            None
        } else {
            Some(self.rows[n - 1])
        };
        Some(
            DirectoryWanted {
                parent,
                name: self.parts[n].clone(),
                path: text::join_first(&self.parts, n + 1, "/"),
            },
        )
    }

    /// Takes note of the row of the directory that was wanted.
    pub fn directory_is(&mut self, id: i64)
        requires
            old(self).wf(),
            old(self).rows@.len() < old(self).parts@.len(),
        ensures
            final(self).wf(),
            final(self).parts == old(self).parts,
            final(self).rows@ == old(self).rows@.push(id),
    {
        self.rows.push(id);
    }
}

/// The last directory of a chain has the path that the chain was made for, where that path has
/// no empty parts.
pub proof fn chain_ends_at_its_path(path: Seq<char>)
    requires
        forall|i: int|
            0 <= i < text::split(path, '/').len() ==> (#[trigger] text::split(path, '/')[i]).len()
                > 0,
    ensures
        text::join(directories_on(path), "/"@) == path,
{
    let parts = text::split(path, '/');
    let filled = |part: Seq<char>| part.len() > 0;
    reveal_strlit("/");
    assert("/"@ =~= seq!['/']);
    text::join_undoes_split(path, '/');
    all_kept(parts, filled);
}

proof fn all_kept(parts: Seq<Seq<char>>, keep: spec_fn(Seq<char>) -> bool)
    requires
        forall|i: int| 0 <= i < parts.len() ==> keep(#[trigger] parts[i]),
    ensures
        parts.filter(keep) == parts,
    decreases parts.len(),
{
    reveal(Seq::filter);
    if parts.len() > 0 {
        let rest = parts.drop_last();
        assert forall|i: int| 0 <= i < rest.len() implies keep(#[trigger] rest[i]) by {
            assert(rest[i] == parts[i]);
        }
        all_kept(rest, keep);
        assert(keep(parts[parts.len() - 1]));
        assert(parts =~= rest.push(parts.last()));
    }
}

/// A row with a path.
#[derive(Debug)]
pub struct PathRow {
    pub id: i64,
    pub path: String,
}

/// The rows that change when the directory `old` becomes `new`, with their new paths.
pub open spec fn changed_rows(
    rows: Seq<PathRow>,
    old_path: Seq<char>,
    new_path: Seq<char>,
) -> Seq<(i64, Seq<char>)>
    decreases rows.len(),
{
    if rows.len() == 0 {
        Seq::empty()
    } else {
        let rest = changed_rows(rows.drop_last(), old_path, new_path);
        let row = rows.last();
        if row.path@ == old_path || text::begins(row.path@, old_path + "/"@) {
            rest.push((row.id, fs_service::moved_path(row.path@, old_path, new_path)))
        } else {
            rest
        }
    }
}

pub open spec fn row_views(rows: Seq<PathRow>) -> Seq<(i64, Seq<char>)> {
    Seq::new(rows.len(), |i: int| (rows[i].id, rows[i].path@))
}

/// The new paths of everything at or beneath the directory `old_path`, which becomes
/// `new_path`. All else stays where it is.
pub fn rename_metadata_directory(
    rows: &Vec<PathRow>,
    old_path: &str,
    new_path: &str,
) -> (r: Vec<PathRow>)
    ensures
        row_views(r@) == changed_rows(rows@, old_path@, new_path@),
{
    let prefix = text::concat2(old_path, "/");
    let mut changed: Vec<PathRow> = Vec::new();
    let mut i: usize = 0;
    proof {
        assert(row_views(changed@) =~= changed_rows(rows@.take(0), old_path@, new_path@));
    }
    while i < rows.len()
        invariant
            i <= rows@.len(),
            prefix@ == old_path@ + "/"@,
            row_views(changed@) == changed_rows(rows@.take(i as int), old_path@, new_path@),
        decreases rows@.len() - i,
    {
        let row = &rows[i];
        let ghost before = row_views(changed@);
        proof {
            assert(rows@.take(i as int + 1).drop_last() =~= rows@.take(i as int));
        }
        if text::same(row.path.as_str(), old_path) || text::starts_with(
            row.path.as_str(),
            prefix.as_str(),
        ) {
            let moved = PathRow {
                id: row.id,
                path: move_path(row.path.as_str(), old_path, new_path),
            };
            let ghost view = (moved.id, moved.path@);
            changed.push(moved);
            proof {
                assert(row_views(changed@) =~= before.push(view));
            }
        }
        i = i + 1;
    }
    proof {
        assert(rows@.take(rows@.len() as int) =~= rows@);
    }
    changed
}

/// A torrent is filed at a path or beneath it; everything is beneath the empty path.
pub open spec fn filed_under(source_path: Seq<char>, prefix: Seq<char>) -> bool {
    prefix.len() == 0 || source_path == prefix || text::begins(source_path, prefix + "/"@)
}

pub fn is_filed_under(source_path: &str, prefix: &str) -> (r: bool)
    ensures
        r == filed_under(source_path@, prefix@),
{
    if prefix.is_empty() || text::same(source_path, prefix) {
        return true;
    }
    text::starts_with(source_path, text::concat2(prefix, "/").as_str())
}

/// The torrents at a path or beneath it, in their order.
pub fn get_torrents_by_source_path_prefix(torrents: Vec<Torrent>, prefix: &str) -> (r: Vec<Torrent>)
    ensures
        r@ == torrents@.filter(|t: Torrent| filed_under(t.source_path@, prefix@)),
{
    let ghost all = torrents@;
    let ghost keep = |t: Torrent| filed_under(t.source_path@, prefix@);
    let mut rest = torrents;
    let mut kept: Vec<Torrent> = Vec::new();
    let ghost mut n: int = all.len() as int;
    proof {
        reveal(Seq::filter);
        assert(all.skip(n).filter(keep).reverse() =~= kept@);
        assert(all.take(n) =~= all);
    }
    while rest.len() > 0
        invariant
            0 <= n <= all.len(),
            rest@ == all.take(n),
            keep == (|t: Torrent| filed_under(t.source_path@, prefix@)),
            kept@ == all.skip(n).filter(keep).reverse(),
        decreases rest@.len(),
    {
        let t = rest.pop().unwrap();
        let ghost one = seq![t];
        proof {
            assert(all.skip(n - 1) =~= one + all.skip(n));
            Seq::filter_distributes_over_add(one, all.skip(n), keep);
            reveal(Seq::filter);
            reveal_with_fuel(Seq::filter, 2);
            assert(one.drop_last() =~= Seq::<Torrent>::empty());
        }
        if is_filed_under(t.source_path.as_str(), prefix) {
            proof {
                assert(one.filter(keep) =~= one);
                assert((one + all.skip(n).filter(keep)).reverse() =~= kept@.push(t));
            }
            kept.push(t);
        } else {
            proof {
                assert(one.filter(keep) =~= Seq::<Torrent>::empty());
                assert(Seq::<Torrent>::empty() + all.skip(n).filter(keep) =~= all.skip(n).filter(
                    keep,
                ));
            }
        }
        proof {
            n = n - 1;
            assert(rest@ =~= all.take(n));
        }
    }
    proof {
        assert(n == 0);
        assert(all.skip(0) =~= all);
    }
    let ghost back = kept@;
    let mut result: Vec<Torrent> = Vec::new();
    proof {
        assert(result@ =~= back.skip(back.len() as int).reverse());
    }
    while kept.len() > 0
        invariant
            kept@.len() <= back.len(),
            kept@ == back.take(kept@.len() as int),
            result@ == back.skip(kept@.len() as int).reverse(),
        decreases kept@.len(),
    {
        let ghost m = kept@.len() as int;
        let t = kept.pop().unwrap();
        proof {
            assert(back.skip(m - 1).reverse() =~= result@.push(t));
            assert(kept@ =~= back.take(m - 1));
        }
        result.push(t);
    }
    proof {
        assert(back.skip(0).reverse() =~= all.filter(keep));
    }
    result
}

/// Renaming a directory gives a new path to everything at it or beneath it, the new one in place of
/// the old one at the front, and to nothing else.
pub proof fn renamed_rows_have_moved(
    rows: Seq<PathRow>,
    old_path: Seq<char>,
    new_path: Seq<char>,
    i: int,
    rest: Seq<char>,
)
    requires
        0 <= i < rows.len(),
    ensures
        rows[i].path@ == old_path ==> changed_rows(rows, old_path, new_path).contains(
            (rows[i].id, new_path),
        ),
        rows[i].path@ == old_path + seq!['/'] + rest ==> changed_rows(
            rows,
            old_path,
            new_path,
        ).contains((rows[i].id, new_path + seq!['/'] + rest)),
    decreases rows.len(),
{
    reveal_strlit("/");
    assert("/"@ =~= seq!['/']);
    let fewer = rows.drop_last();
    let before = changed_rows(fewer, old_path, new_path);
    let after = changed_rows(rows, old_path, new_path);
    assert(rows.last() == rows[rows.len() - 1]);
    if i < rows.len() - 1 {
        assert(fewer[i] == rows[i]);
        renamed_rows_have_moved(fewer, old_path, new_path, i, rest);
        assert forall|x: (i64, Seq<char>)| before.contains(x) implies #[trigger] after.contains(
            x,
        ) by {
            let k = choose|k: int| 0 <= k < before.len() && before[k] == x;
            assert(after[k] == x);
        }
    } else {
        let p = rows[i].path@;
        let head = old_path + seq!['/'];
        if p == old_path {
            assert(after.last() == (rows[i].id, new_path));
        } else if p == head + rest {
            assert(p.subrange(0, head.len() as int) =~= head);
            assert(p.skip(old_path.len() as int + 1) =~= rest);
            assert(after.last() == (rows[i].id, new_path + seq!['/'] + rest));
        }
    }
}

/// Every row that a rename changes stood at the directory or beneath it.
pub proof fn changed_rows_stood_there(
    rows: Seq<PathRow>,
    old_path: Seq<char>,
    new_path: Seq<char>,
    k: int,
) -> (i: int)
    requires
        0 <= k < changed_rows(rows, old_path, new_path).len(),
    ensures
        0 <= i < rows.len(),
        rows[i].id == changed_rows(rows, old_path, new_path)[k].0,
        rows[i].path@ == old_path || text::begins(rows[i].path@, old_path + seq!['/']),
    decreases rows.len(),
{
    reveal_strlit("/");
    assert("/"@ =~= seq!['/']);
    let fewer = rows.drop_last();
    if k < changed_rows(fewer, old_path, new_path).len() {
        let i = changed_rows_stood_there(fewer, old_path, new_path, k);
        assert(fewer[i] == rows[i]);
        i
    } else {
        rows.len() - 1
    }
}

/// A torrent is filed under a directory where its path is that of the directory or goes on from it
/// with a slash; a directory whose name merely begins alike does not count. All are filed under the
/// empty path.
pub proof fn filed_under_is_by_parts(
    source_path: Seq<char>,
    prefix: Seq<char>,
    rest: Seq<char>,
    c: char,
)
    requires
        prefix.len() > 0,
        c != '/',
    ensures
        filed_under(prefix, prefix),
        filed_under(prefix + seq!['/'] + rest, prefix),
        !filed_under(prefix + seq![c] + rest, prefix),
        filed_under(source_path, Seq::empty()),
        filed_under(source_path, prefix) ==> source_path.len() >= prefix.len() && source_path.take(
            prefix.len() as int,
        ) == prefix,
{
    reveal_strlit("/");
    assert("/"@ =~= seq!['/']);
    let head = prefix + seq!['/'];
    let n = prefix.len() as int;
    assert((head + rest).subrange(0, n + 1) =~= head);
    let other = prefix + seq![c] + rest;
    assert(other[n] == c);
    assert(head[n] == '/');
    if text::begins(other, head) {
        assert(other.subrange(0, n + 1)[n] == other[n]);
    }
    if text::begins(source_path, head) {
        assert(source_path.subrange(0, n + 1) == head);
        assert forall|i: int| 0 <= i < n implies source_path[i] == prefix[i] by {
            assert(source_path.subrange(0, n + 1)[i] == head[i]);
        }
        assert(source_path.take(n) =~= prefix);
    } else if source_path == prefix {
        assert(source_path.take(n) =~= prefix);
    }
}

/// Of two directories that a chain asks for one after the other, the second stands in the first: its
/// parent is the row of the first, and its path is that of the first with a slash and its own name.
/// The first one of all has no parent, and a path of its name alone.
pub proof fn directories_stand_in_each_other(
    chain: DirectoryChain,
    after: DirectoryChain,
    outer: DirectoryWanted,
    id: i64,
    inner: DirectoryWanted,
)
    requires
        chain.wf(),
        chain.wants(Some(outer)),
        after.parts == chain.parts,
        after.rows@ == chain.rows@.push(id),
        after.wants(Some(inner)),
    ensures
        inner.parent == Some(id),
        inner.path@ == outer.path@ + seq!['/'] + inner.name@,
        chain.rows@.len() == 0 ==> outer.parent is None && outer.path@ == outer.name@,
{
    reveal_strlit("/");
    assert("/"@ =~= seq!['/']);
    let parts = chain.path();
    let n = chain.rows@.len() as int;
    assert(parts.take(n + 2).drop_last() =~= parts.take(n + 1));
    assert(parts.take(n + 2).last() == parts[n + 1]);
    if n == 0 {
        assert(parts.take(1)[0] == parts[0]);
    }
}

} // verus!
