//! The directories and files of a torrent, from the paths of its files.

use vstd::prelude::*;

use crate::table::TextMap;
use crate::text;

verus! {

/// What comes next for the file in hand.
#[derive(Debug)]
pub enum TreeStep {
    /// Look for the directory, and make it where it is missing; then tell its row.
    Directory { parent: Option<i64>, name: String },
    /// Make the file.
    File { parent: Option<i64>, name: String },
}

/// Takes the files of one torrent in turn, and finds or makes the directories on their paths.
pub struct FileTree {
    /// The rows of the directories that were found or made, by their paths.
    pub known: TextMap<i64>,
    /// The parts of the path of the file in hand.
    pub parts: Vec<String>,
    /// How many directories of the path have been gone through.
    pub depth: usize,
    /// The last of them.
    pub parent: Option<i64>,
}

/// The path of the first `n` parts.
pub open spec fn path_to(parts: Seq<Seq<char>>, n: int) -> Seq<char> {
    text::join(parts.take(n), "/"@)
}

/// The row of the directory that the first `n` parts lead to.
pub open spec fn directory_at(
    known: Map<Seq<char>, i64>,
    parts: Seq<Seq<char>>,
    n: int,
) -> Option<i64> {
    if n == 0 {
        None
    } else {
        Some(known[path_to(parts, n)])
    }
}

impl FileTree {
    pub open spec fn path(&self) -> Seq<Seq<char>> {
        text::views(self.parts@)
    }

    /// The directories on the path that were gone through are known, and the last of them is at
    /// hand.
    pub open spec fn wf(&self) -> bool {
        &&& self.known.wf()
        &&& self.parts@.len() > 0
        &&& self.depth < self.parts@.len()
        &&& forall|k: int|
            1 <= k <= self.depth ==> self.known@.contains_key(#[trigger] path_to(self.path(), k))
        &&& self.parent == directory_at(self.known@, self.path(), self.depth as int)
    }

    /// A torrent without any directory, and the path of its first file.
    pub fn new(path: &str) -> (r: Self)
        ensures
            r.wf(),
            r.known@ == Map::<Seq<char>, i64>::empty(),
            r.path() == text::split(path@, '/'),
            r.depth == 0,
    {
        let parts = text::split_on(path, '/');
        proof {
            text::split_is_not_empty(path@, '/');
        }
        FileTree { known: TextMap::new(), parts, depth: 0, parent: None }
    }

    /// Goes on to the path of another file.
    pub fn next_file(&mut self, path: &str)
        requires
            old(self).wf(),
        ensures
            final(self).wf(),
            final(self).known == old(self).known,
            final(self).path() == text::split(path@, '/'),
            final(self).depth == 0,
    {
        self.parts = text::split_on(path, '/');
        self.depth = 0;
        self.parent = None;
        proof {
            text::split_is_not_empty(path@, '/');
        }
    }

    /// `r` is for what stands on the path behind the directories that are known.
    pub open spec fn steps_to(&self, r: TreeStep, after: FileTree) -> bool {
        let parts = self.path();
        let depth = after.depth as int;
        let parent = directory_at(self.known@, parts, depth);
        match r {
            TreeStep::File { parent: p, name } => depth == parts.len() - 1 && p == parent && name@
                == parts.last(),
            TreeStep::Directory { parent: p, name } => depth < parts.len() - 1 && p == parent
                && name@ == parts[depth] && !self.known@.contains_key(path_to(parts, depth + 1)),
        }
    }

    /// Passes the directories that are known. The step is for the first directory on the path
    /// that is not, or for the file where all are.
    pub fn step(&mut self) -> (r: TreeStep)
        requires
            old(self).wf(),
        ensures
            final(self).wf(),
            final(self).known == old(self).known,
            final(self).parts == old(self).parts,
            old(self).depth <= final(self).depth,
            forall|k: int|
                old(self).depth < k <= final(self).depth ==> old(self).known@.contains_key(
                    #[trigger] path_to(old(self).path(), k),
                ),
            old(self).steps_to(r, *final(self)),
    {
        let last: usize = self.parts.len() - 1;
        while self.depth < last
            invariant
                self.wf(),
                self.known == old(self).known,
                self.parts == old(self).parts,
                old(self).depth <= self.depth <= last,
                last == self.parts@.len() - 1,
                forall|k: int|
                    old(self).depth < k <= self.depth ==> old(self).known@.contains_key(
                        #[trigger] path_to(old(self).path(), k),
                    ),
            decreases last - self.depth,
        {
            let path = text::join_first(&self.parts, self.depth + 1, "/");
            match self.known.get(path.as_str()) {
                Some(id) => {
                    self.parent = Some(*id);
                    self.depth = self.depth + 1;
                },
                None => {
                    return TreeStep::Directory {
                        parent: self.parent,
                        name: self.parts[self.depth].clone(),
                    };
                },
            }
        }
        TreeStep::File { parent: self.parent, name: self.parts[last].clone() }
    }

    /// Takes note of the row of the directory that the last step was for.
    pub fn directory_is(&mut self, id: i64)
        requires
            old(self).wf(),
            old(self).depth < old(self).parts@.len() - 1,
        ensures
            final(self).wf(),
            final(self).parts == old(self).parts,
            final(self).depth == old(self).depth + 1,
            final(self).known@ == old(self).known@.insert(
                path_to(old(self).path(), old(self).depth + 1),
                id,
            ),
    {
        let count: usize = self.parts.len();
        assert(self.depth < count - 1);
        let path = text::join_first(&self.parts, self.depth + 1, "/");
        self.known.insert(path, id);
        self.depth = self.depth + 1;
        self.parent = Some(id);
    }
}

/// The directories on the paths of files are told apart by their own paths.
pub proof fn paths_tell_directories_apart(a: Seq<char>, b: Seq<char>, n: int, m: int)
    requires
        1 <= n <= text::split(a, '/').len(),
        1 <= m <= text::split(b, '/').len(),
        path_to(text::split(a, '/'), n) == path_to(text::split(b, '/'), m),
    ensures
        text::split(a, '/').take(n) == text::split(b, '/').take(m),
{
    reveal_strlit("/");
    assert("/"@ =~= seq!['/']);
    let x = text::split(a, '/').take(n);
    let y = text::split(b, '/').take(m);
    text::split_parts_hold_no_separator(a, '/');
    text::split_parts_hold_no_separator(b, '/');
    assert forall|i: int| 0 <= i < x.len() implies !(#[trigger] x[i]).contains('/') by {
        assert(x[i] == text::split(a, '/')[i]);
    }
    assert forall|i: int| 0 <= i < y.len() implies !(#[trigger] y[i]).contains('/') by {
        assert(y[i] == text::split(b, '/')[i]);
    }
    text::split_undoes_join(x, '/');
    text::split_undoes_join(y, '/');
}

/// Where the search for a file by its path stands.
#[derive(Debug)]
pub enum LookupStep {
    /// Look for the directory, and tell its row.
    Directory { parent: Option<i64>, name: String },
    /// Look for the file in the directory.
    File { parent: Option<i64>, name: String },
    /// There is no such file.
    Missing,
}

/// The search for a file of a torrent by its path.
pub struct PathLookup {
    pub parts: Vec<String>,
    /// The rows of the directories on the path that were found.
    pub found: Vec<i64>,
    pub missing: bool,
}

impl PathLookup {
    pub open spec fn path(&self) -> Seq<Seq<char>> {
        text::views(self.parts@)
    }

    pub open spec fn wf(&self) -> bool {
        self.found@.len() < self.parts@.len()
    }

    /// The last directory that was found.
    pub open spec fn parent(&self) -> Option<i64> {
        if self.found@.len() == 0 {
            None
        } else {
            Some(self.found@.last())
        }
    }

    pub fn new(path: &str) -> (r: Self)
        ensures
            r.wf(),
            r.path() == text::split(path@, '/'),
            r.found@.len() == 0,
            !r.missing,
    {
        proof {
            text::split_is_not_empty(path@, '/');
        }
        PathLookup { parts: text::split_on(path, '/'), found: Vec::new(), missing: false }
    }

    /// `r` is for what stands on the path behind the directories that were found.
    pub open spec fn looks_for(&self, r: LookupStep) -> bool {
        if self.missing {
            r is Missing
        } else if self.found@.len() == self.parts@.len() - 1 {
            r matches LookupStep::File { parent, name } && parent == self.parent() && name@
                == self.path().last()
        } else {
            r matches LookupStep::Directory { parent, name } && parent == self.parent() && name@
                == self.path()[self.found@.len() as int]
        }
    }

    /// What to look for next.
    pub fn step(&self) -> (r: LookupStep)
        requires
            self.wf(),
        ensures
            self.looks_for(r),
    {
        if self.missing {
            return LookupStep::Missing;
        }
        let n: usize = self.found.len();
        let parent = if n == 0 {
            None
        } else {
            Some(self.found[n - 1])
        };
        let name = self.parts[n].clone();
        if n == self.parts.len() - 1 {
            LookupStep::File { parent, name }
        } else {
            LookupStep::Directory { parent, name }
        }
    }

    /// Takes the row of the directory that the last step was for, if there is one.
    pub fn directory_is(&mut self, id: Option<i64>)
        requires
            old(self).wf(),
            old(self).found@.len() < old(self).parts@.len() - 1,
        ensures
            final(self).wf(),
            final(self).parts == old(self).parts,
            match id {
                Some(row) => final(self).found@ == old(self).found@.push(row)
                    && final(self).missing == old(self).missing,
                None => final(self).found == old(self).found && final(self).missing,
            },
    {
        match id {
            Some(row) => {
                self.found.push(row);
            },
            None => {
                self.missing = true;
            },
        }
    }
}

/// `dir` with a slash, where there is a directory at all.
pub open spec fn within(dir: Option<Seq<char>>, name: Seq<char>) -> Seq<char> {
    match dir {
        Some(d) => d + seq!['/'] + name,
        None => name,
    }
}

proof fn last_part_follows(parts: Seq<Seq<char>>, n: int)
    requires
        1 <= n <= parts.len(),
    ensures
        path_to(parts, n) == within(
            if n == 1 {
                None
            } else {
                Some(path_to(parts, n - 1))
            },
            parts[n - 1],
        ),
{
    reveal_strlit("/");
    assert("/"@ =~= seq!['/']);
    let first = parts.take(n);
    assert(first.drop_last() =~= parts.take(n - 1));
    assert(first.last() == parts[n - 1]);
}

/// A file is made under the last part of its path, in the directory that the rest of the path names.
/// A directory that has to be made is one that the path goes through, under the one that it goes
/// through before, and it was not known.
pub proof fn files_stand_where_their_paths_say(
    tree: FileTree,
    after: FileTree,
    path: Seq<char>,
    r: TreeStep,
)
    requires
        tree.wf(),
        after.wf(),
        after.known == tree.known,
        after.parts == tree.parts,
        tree.path() == text::split(path, '/'),
        tree.steps_to(r, after),
    ensures
        match r {
            TreeStep::File { parent, name } => {
                &&& !name@.contains('/')
                &&& parent is None ==> path == name@
                &&& parent matches Some(row) ==> exists|dir: Seq<char>|
                    {
                        &&& path == #[trigger] within(Some(dir), name@)
                        &&& tree.known@.contains_key(dir)
                        &&& tree.known@[dir] == row
                    }
            },
            TreeStep::Directory { parent, name } => {
                &&& !name@.contains('/')
                &&& parent is None ==> !tree.known@.contains_key(name@) && text::begins(
                    path,
                    name@ + seq!['/'],
                )
                &&& parent matches Some(row) ==> exists|dir: Seq<char>|
                    {
                        &&& text::begins(path, #[trigger] within(Some(dir), name@) + seq!['/'])
                        &&& tree.known@.contains_key(dir)
                        &&& tree.known@[dir] == row
                        &&& !tree.known@.contains_key(within(Some(dir), name@))
                    }
            },
        },
{
    let parts = tree.path();
    let depth = after.depth as int;
    text::split_is_not_empty(path, '/');
    text::split_parts_hold_no_separator(path, '/');
    text::join_undoes_split(path, '/');
    reveal_strlit("/");
    assert("/"@ =~= seq!['/']);
    assert(parts.take(parts.len() as int) =~= parts);
    assert(!parts[depth].contains('/'));
    last_part_follows(parts, depth + 1);
    if depth > 0 {
        assert(after.known@.contains_key(path_to(after.path(), depth)));
        let dir = path_to(parts, depth);
        assert(within(Some(dir), parts[depth]) == path_to(parts, depth + 1));
    }
    if r is Directory {
        begins_with_its_parts(parts, depth + 1);
    }
}

proof fn begins_with_its_parts(parts: Seq<Seq<char>>, n: int)
    requires
        1 <= n < parts.len(),
    ensures
        text::begins(path_to(parts, parts.len() as int), path_to(parts, n) + seq!['/']),
    decreases parts.len() - n,
{
    let whole = path_to(parts, parts.len() as int);
    let head = path_to(parts, n) + seq!['/'];
    last_part_follows(parts, n + 1);
    let next = path_to(parts, n + 1);
    assert(next.subrange(0, head.len() as int) =~= head);
    if n + 1 < parts.len() {
        begins_with_its_parts(parts, n + 1);
        let longer = next + seq!['/'];
        assert(whole.subrange(0, longer.len() as int) == longer);
        assert forall|i: int| 0 <= i < head.len() implies whole[i] == head[i] by {
            assert(whole.subrange(0, longer.len() as int)[i] == longer[i]);
            assert(longer[i] == next[i]);
            assert(next.subrange(0, head.len() as int)[i] == next[i]);
        }
        assert(whole.subrange(0, head.len() as int) =~= head);
    }
}

/// A search asks for the parts of the path in turn, each in the directory that was found for the part
/// before it; the file is asked for by what stands behind the last slash.
pub proof fn search_follows_the_path(search: PathLookup, path: Seq<char>, r: LookupStep)
    requires
        search.wf(),
        search.path() == text::split(path, '/'),
        search.looks_for(r),
    ensures
        ({
            let n = search.found@.len() as int;
            let parent = if n == 0 {
                None
            } else {
                Some(search.found@[n - 1])
            };
            let parts = text::split(path, '/');
            match r {
                LookupStep::Missing => search.missing,
                LookupStep::Directory { parent: p, name } => !search.missing && p == parent && n
                    < parts.len() - 1 && name@ == parts[n] && !name@.contains('/'),
                LookupStep::File { parent: p, name } => {
                    &&& !search.missing
                    &&& p == parent
                    &&& n == parts.len() - 1
                    &&& !name@.contains('/')
                    &&& n == 0 ==> name@ == path
                    &&& n > 0 ==> path == path_to(parts, n) + seq!['/'] + name@
                },
            }
        }),
{
    let parts = text::split(path, '/');
    text::split_is_not_empty(path, '/');
    text::split_parts_hold_no_separator(path, '/');
    text::join_undoes_split(path, '/');
    reveal_strlit("/");
    assert("/"@ =~= seq!['/']);
    assert(parts.take(parts.len() as int) =~= parts);
    let n = search.found@.len() as int;
    assert(!parts[n].contains('/'));
    last_part_follows(parts, n + 1);
}

} // verus!
