//! What the filesystem operations give back.

use vstd::prelude::*;

verus! {

#[derive(Debug, Clone, Copy, PartialEq, Eq, Structural)]
pub enum FileKind {
    Directory,
    RegularFile,
}

/// The attributes of an entry. Owner and times belong to the mount, not to the entry.
#[derive(Debug, Clone, Copy, PartialEq, Eq, Structural)]
pub struct Attr {
    pub ino: u64,
    pub size: u64,
    pub kind: FileKind,
    pub perm: u16,
    pub nlink: u32,
}

/// Blocks of 512 bytes that hold `size` bytes.
pub open spec fn blocks_for(size: u64) -> int {
    (size + 511) / 512
}

impl Attr {
    pub open spec fn dir(ino: u64, writable: bool) -> Attr {
        Attr {
            ino,
            size: 0,
            kind: FileKind::Directory,
            perm: if writable {
                0o755
            } else {
                0o555
            },
            nlink: 2,
        }
    }

    pub open spec fn file(ino: u64, size: u64) -> Attr {
        Attr { ino, size, kind: FileKind::RegularFile, perm: 0o444, nlink: 1 }
    }

    /// How many blocks of 512 bytes the entry takes; a directory takes none.
    pub fn blocks(&self) -> (r: u64)
        ensures
            r == blocks_for(self.size),
    {
        let whole: u64 = self.size / 512;
        if self.size % 512 == 0 {
            whole
        } else {
            whole + 1
        }
    }
}

/// An entry in a listing. The offset is where the listing goes on after this entry.
#[derive(Debug)]
pub struct DirEntry {
    pub ino: u64,
    pub offset: i64,
    pub kind: FileKind,
    pub name: String,
}

/// What an entry in a listing says.
pub struct Listed {
    pub ino: u64,
    pub offset: i64,
    pub kind: FileKind,
    pub name: Seq<char>,
}

impl View for DirEntry {
    type V = Listed;

    open spec fn view(&self) -> Listed {
        Listed { ino: self.ino, offset: self.offset, kind: self.kind, name: self.name@ }
    }
}

impl Clone for DirEntry {
    fn clone(&self) -> (r: Self)
        ensures
            r@ == self@,
    {
        DirEntry {
            ino: self.ino,
            offset: self.offset,
            kind: self.kind,
            name: self.name.clone(),
        }
    }
}

/// A looked-up entry.
#[derive(Debug, Clone, Copy, PartialEq, Eq, Structural)]
pub struct Entry {
    pub ino: u64,
    pub attr: Attr,
}

/// A created file and its open handle.
#[derive(Debug, Clone, Copy, PartialEq, Eq, Structural)]
pub struct Created {
    pub attr: Attr,
    pub fh: u64,
}

/// An open handle. With `direct_io` the kernel's page cache is left out, so that the error of a
/// failed read reaches the reader as it is.
#[derive(Debug, Clone, Copy, PartialEq, Eq, Structural)]
pub struct OpenOutcome {
    pub fh: u64,
    pub direct_io: bool,
}

impl vstd::std_specs::convert::FromSpecImpl<u64> for OpenOutcome {
    open spec fn obeys_from_spec() -> bool {
        true
    }

    open spec fn from_spec(fh: u64) -> OpenOutcome {
        OpenOutcome { fh, direct_io: false }
    }
}

impl From<u64> for OpenOutcome {
    fn from(fh: u64) -> OpenOutcome {
        OpenOutcome { fh, direct_io: false }
    }
}

/// The outcome of an attempt to serve a read at once.
#[derive(Debug)]
pub enum ReadOutcome {
    /// These bytes answer the read.
    Ready(Vec<u8>),
    /// The pieces still have to be downloaded.
    Pending { file_index: i32, offset: u64, size: u32, info_hash: String, torrent_id: i64 },
}

/// Which `.stats` file to render.
#[derive(Debug, Clone, Copy, PartialEq, Eq, Structural)]
pub enum StatsKind {
    /// The one at the root.
    Global,
    /// The one of a directory or a torrent, by its inode.
    StatsInode { ino: u64 },
}

} // verus!
