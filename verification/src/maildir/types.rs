//! The Maildir type and its subdirectories.

use vstd::prelude::*;
use vstd::string::*;

use crate::path::{self, FsPath};

verus! {

/// A subdirectory of a Maildir.
#[derive(Clone, Copy, Debug, PartialEq, Eq, PartialOrd, Ord, Hash, Structural)]
pub enum MaildirSubdir {
    /// Entries that have been seen by a mail reader.
    Cur,
    /// Entries that have been delivered and not been seen yet.
    New,
    /// Entries under delivery.
    Tmp,
}

impl MaildirSubdir {
    /// The directory name of the subdirectory.
    pub open spec fn name(self) -> Seq<char> {
        match self {
            MaildirSubdir::Cur => seq!['c', 'u', 'r'],
            MaildirSubdir::New => seq!['n', 'e', 'w'],
            MaildirSubdir::Tmp => seq!['t', 'm', 'p'],
        }
    }
}

/// The path of a subdirectory of the Maildir at `root`.
pub open spec fn subdir_path(root: Seq<char>, subdir: MaildirSubdir) -> Seq<char> {
    path::joined(root, subdir.name())
}

/// The path of the file `name` in a subdirectory of the Maildir at `root`.
pub open spec fn file_path(root: Seq<char>, subdir: MaildirSubdir, name: Seq<char>) -> Seq<char> {
    path::joined(subdir_path(root, subdir), name)
}

/// Files of one Maildir have the same path only where both subdirectory and name agree.
pub proof fn law_file_path_injective(
    root: Seq<char>,
    subdir1: MaildirSubdir,
    name1: Seq<char>,
    subdir2: MaildirSubdir,
    name2: Seq<char>,
)
    requires
        file_path(root, subdir1, name1) == file_path(root, subdir2, name2),
    ensures
        subdir1 == subdir2,
        name1 == name2,
{
    let p1 = file_path(root, subdir1, name1);
    let p2 = file_path(root, subdir2, name2);
    let k = if root.len() == 0 || root.last() == '/' {
        root.len() as int
    } else {
        root.len() + 1int
    };
    assert(subdir_path(root, subdir1).last() == subdir1.name()[2]);
    assert(subdir_path(root, subdir2).last() == subdir2.name()[2]);
    assert(p1[k] == subdir1.name()[0]);
    assert(p2[k] == subdir2.name()[0]);
    path::law_joined_injective(subdir_path(root, subdir1), name1, name2);
}

/// A Maildir, known by the path of its root directory.
#[derive(Debug, PartialEq, Eq, PartialOrd, Ord, Hash)]
pub struct Maildir {
    path: FsPath,
}

impl View for Maildir {
    type V = Seq<char>;

    closed spec fn view(&self) -> Seq<char> {
        self.path@
    }
}

impl Clone for Maildir {
    fn clone(&self) -> (copy: Maildir)
        ensures
            copy == *self,
    {
        Maildir { path: self.path.clone() }
    }
}

impl Maildir {
    /// The root directory as a path value.
    pub closed spec fn root(&self) -> FsPath {
        self.path
    }

    /// The Maildir at `path`.
    pub fn from_path(path: impl Into<FsPath>) -> (maildir: Maildir)
        ensures
            call_ensures(Into::into, (path,), maildir.root()),
            maildir@ == maildir.root()@,
    {
        Maildir { path: path.into() }
    }

    /// The root directory.
    pub fn path(&self) -> (path: &FsPath)
        ensures
            path@ == self@,
    {
        &self.path
    }

    /// The `cur` subdirectory.
    pub fn cur(&self) -> (path: FsPath)
        ensures
            path@ == subdir_path(self@, MaildirSubdir::Cur),
    {
        proof {
            reveal_strlit("cur");
            assert("cur"@ =~= MaildirSubdir::Cur.name());
        }
        self.path.join("cur")
    }

    /// The `new` subdirectory.
    pub fn new(&self) -> (path: FsPath)
        ensures
            path@ == subdir_path(self@, MaildirSubdir::New),
    {
        proof {
            reveal_strlit("new");
            assert("new"@ =~= MaildirSubdir::New.name());
        }
        self.path.join("new")
    }

    /// The `tmp` subdirectory.
    pub fn tmp(&self) -> (path: FsPath)
        ensures
            path@ == subdir_path(self@, MaildirSubdir::Tmp),
    {
        proof {
            reveal_strlit("tmp");
            assert("tmp"@ =~= MaildirSubdir::Tmp.name());
        }
        self.path.join("tmp")
    }

    /// The given subdirectory.
    pub fn subdir(&self, subdir: &MaildirSubdir) -> (path: FsPath)
        ensures
            path@ == subdir_path(self@, *subdir),
    {
        match subdir {
            MaildirSubdir::Cur => self.cur(),
            MaildirSubdir::New => self.new(),
            MaildirSubdir::Tmp => self.tmp(),
        }
    }
}

/// A subdirectory stands right below the root of its Maildir, under its own name.
pub proof fn law_subdir_path(root: Seq<char>, subdir: MaildirSubdir)
    ensures
        ({
            let dir = subdir_path(root, subdir);
            let gap = if root.len() == 0 || root.last() == '/' {
                0int
            } else {
                1
            };
            &&& dir.len() == root.len() + gap + 3
            &&& dir.take(root.len() as int) == root
            &&& gap == 1 ==> dir[root.len() as int] == '/'
            &&& dir.skip(root.len() + gap) == match subdir {
                MaildirSubdir::Cur => seq!['c', 'u', 'r'],
                MaildirSubdir::New => seq!['n', 'e', 'w'],
                MaildirSubdir::Tmp => seq!['t', 'm', 'p'],
            }
        }),
{
    path::law_joined(root, subdir.name());
}

/// A file of a Maildir stands below its root, in the subdirectory, under its name: behind the root
/// come the name of the subdirectory, one separator and the name of the file.
pub proof fn law_file_path(root: Seq<char>, subdir: MaildirSubdir, name: Seq<char>)
    ensures
        ({
            let path = file_path(root, subdir, name);
            let gap = if root.len() == 0 || root.last() == '/' {
                0int
            } else {
                1
            };
            let tail = match subdir {
                MaildirSubdir::Cur => seq!['c', 'u', 'r', '/'],
                MaildirSubdir::New => seq!['n', 'e', 'w', '/'],
                MaildirSubdir::Tmp => seq!['t', 'm', 'p', '/'],
            };
            &&& path.take(root.len() as int) == root
            &&& gap == 1 ==> path[root.len() as int] == '/'
            &&& path.skip(root.len() + gap) == tail + name
        }),
{
    let dir = subdir_path(root, subdir);
    let path = file_path(root, subdir, name);
    law_subdir_path(root, subdir);
    path::law_joined(dir, name);
    let gap = if root.len() == 0 || root.last() == '/' {
        0int
    } else {
        1
    };
    assert(dir.last() == dir.skip(root.len() + gap)[2]);
    assert(path.take(dir.len() as int) == dir);
    assert(path.take(root.len() as int) =~= dir.take(root.len() as int));
    assert(path.skip(root.len() + gap) =~= dir.skip(root.len() + gap) + seq!['/'] + name) by {
        assert forall|i: int| 0 <= i < 3 implies path[root.len() + gap + i] == #[trigger] dir.skip(
            root.len() + gap,
        )[i] by {
            assert(path.take(dir.len() as int)[root.len() + gap + i] == dir[root.len() + gap + i]);
        }
        assert forall|i: int| 0 <= i < name.len() implies path[dir.len() + 1 + i]
            == #[trigger] name[i] by {
            assert(path.skip(path.len() - name.len())[i] == name[i]);
        }
    }
}

} // verus!
