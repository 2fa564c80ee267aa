//! Slash-separated filesystem paths held as text.

use vstd::prelude::*;
use vstd::string::*;

use crate::text;

verus! {

/// `base` extended by `segment`: exactly one separator is added where `base` neither is empty
/// nor ends in one.
pub open spec fn joined(base: Seq<char>, segment: Seq<char>) -> Seq<char> {
    if base.len() == 0 {
        segment
    } else if base.last() == '/' {
        base + segment
    } else {
        base + seq!['/'] + segment
    }
}

/// The part of `path` behind its last separator, unless that part is empty.
pub open spec fn file_name_of(path: Seq<char>) -> Option<Seq<char>> {
    let name = match text::rsplit(path, '/') {
        Some((_, name)) => name,
        None => path,
    };
    if name.len() == 0 {
        None
    } else {
        Some(name)
    }
}

/// A segment without separators is the file name of every path it was joined to.
pub proof fn law_file_name_of_joined(base: Seq<char>, segment: Seq<char>)
    requires
        segment.len() > 0,
        !segment.contains('/'),
    ensures
        file_name_of(joined(base, segment)) == Some(segment),
{
    if base.len() == 0 {
        text::lemma_rsplit_none(segment, '/');
    } else if base.last() == '/' {
        let dir = base.drop_last();
        assert(base + segment =~= dir + seq!['/'] + segment);
        text::lemma_rsplit_of_joined(dir, '/', segment);
    } else {
        text::lemma_rsplit_of_joined(base, '/', segment);
    }
}

/// What stands in front of a text that holds a separator does not change its file name.
pub proof fn lemma_file_name_of_suffix(front: Seq<char>, path: Seq<char>)
    requires
        path.contains('/'),
    ensures
        file_name_of(front + path) == file_name_of(path),
{
    let whole = front + path;
    let k = text::last_index(path, '/');
    text::lemma_last_index(path, '/');
    let n = front.len() as int;
    assert forall|j: int| n + k < j < whole.len() implies whole[j] != '/' by {
        assert(whole[j] == path[j - n]);
    }
    assert(whole[n + k] == path[k]);
    text::lemma_last_index_is(whole, '/', n + k);
    assert(whole.skip(n + k + 1) =~= path.skip(k + 1));
}

/// Different segments lead to different paths below one directory.
pub proof fn law_joined_injective(base: Seq<char>, a: Seq<char>, b: Seq<char>)
    requires
        joined(base, a) == joined(base, b),
    ensures
        a == b,
{
    let n = joined(base, a).len() - a.len();
    assert(joined(base, a).len() - b.len() == n);
    assert(joined(base, a).skip(n) =~= a);
    assert(joined(base, b).skip(n) =~= b);
}

/// A filesystem path.
#[derive(Debug, Eq, PartialOrd, Ord, Hash)]
pub struct FsPath {
    text: String,
}

impl View for FsPath {
    type V = Seq<char>;

    closed spec fn view(&self) -> Seq<char> {
        self.text@
    }
}

impl PartialEq for FsPath {
    fn eq(&self, other: &FsPath) -> (same: bool)
        ensures
            same == (self@ == other@),
    {
        self.text == other.text
    }
}

impl vstd::std_specs::cmp::PartialEqSpecImpl for FsPath {
    open spec fn obeys_eq_spec() -> bool {
        true
    }

    open spec fn eq_spec(&self, other: &FsPath) -> bool {
        self@ == other@
    }
}

impl Clone for FsPath {
    fn clone(&self) -> (copy: FsPath)
        ensures
            copy == *self,
    {
        FsPath { text: self.text.clone() }
    }
}

impl Default for FsPath {
    fn default() -> (path: FsPath)
        ensures
            path@ == Seq::<char>::empty(),
    {
        FsPath { text: String::new() }
    }
}

impl From<&str> for FsPath {
    fn from(text: &str) -> (path: FsPath)
        ensures
            path@ == text@,
    {
        FsPath { text: text.to_owned() }
    }
}

impl vstd::std_specs::convert::FromSpecImpl<&str> for FsPath {
    open spec fn obeys_from_spec() -> bool {
        false
    }

    open spec fn from_spec(text: &str) -> FsPath {
        arbitrary()
    }
}

impl From<String> for FsPath {
    fn from(text: String) -> (path: FsPath)
        ensures
            path@ == text@,
    {
        FsPath { text }
    }
}

impl vstd::std_specs::convert::FromSpecImpl<String> for FsPath {
    open spec fn obeys_from_spec() -> bool {
        false
    }

    open spec fn from_spec(text: String) -> FsPath {
        arbitrary()
    }
}

impl FsPath {
    /// The path as text.
    pub fn as_str(&self) -> (text: &str)
        ensures
            text@ == self@,
    {
        self.text.as_str()
    }

    /// Moves the path out, leaving the empty one in its place.
    pub fn take(&mut self) -> (path: FsPath)
        ensures
            path == *old(self),
            final(self)@ == Seq::<char>::empty(),
    {
        let mut path = FsPath::default();
        core::mem::swap(&mut path, self);
        path
    }

    /// The path extended by `segment`.
    pub fn join(&self, segment: &str) -> (path: FsPath)
        ensures
            path@ == joined(self@, segment@),
    {
        let len = self.text.as_str().unicode_len();
        let mut text = self.text.clone();
        if len > 0 && self.text.as_str().get_char(len - 1) != '/' {
            proof {
                reveal_strlit("/");
            }
            text.append("/");
            assert(text@ =~= self@ + seq!['/']);
        }
        text.append(segment);
        assert(text@ =~= joined(self@, segment@));
        FsPath { text }
    }

    /// The last segment of the path, or `None` when the path is empty or ends in a separator.
    pub fn file_name(&self) -> (name: Option<&str>)
        ensures
            match name {
                Some(name) => file_name_of(self@) == Some(name@),
                None => file_name_of(self@) is None,
            },
    {
        let name = match text::rsplit_once(self.text.as_str(), '/') {
            Some((_, name)) => name,
            None => self.text.as_str(),
        };
        if name.is_empty() {
            None
        } else {
            Some(name)
        }
    }
}

/// A joined path begins with its base and ends with its segment. In between stands nothing where the
/// base is empty or ends in a separator, and one separator otherwise.
pub proof fn law_joined(base: Seq<char>, segment: Seq<char>)
    ensures
        ({
            let path = joined(base, segment);
            let gap = path.len() - base.len() - segment.len();
            &&& gap == 0 || gap == 1
            &&& path.take(base.len() as int) == base
            &&& path.skip(path.len() - segment.len()) == segment
            &&& gap == 0 <==> base.len() == 0 || base.last() == '/'
            &&& gap == 1 ==> path[base.len() as int] == '/'
        }),
{
    let path = joined(base, segment);
    assert(path.take(base.len() as int) =~= base);
    assert(path.skip(path.len() - segment.len()) =~= segment);
}

/// The file name of a path is what stands behind its last separator, or the whole path where it holds
/// none, as long as that is not empty.
pub proof fn law_file_name_of(path: Seq<char>, name: Seq<char>)
    ensures
        file_name_of(path) == Some(name) <==> name.len() > 0 && !name.contains('/') && (path == name
            || (name.len() < path.len() && path.skip(path.len() - name.len()) == name
            && path[path.len() - name.len() - 1] == '/')),
{
    text::law_rsplit_none(path, '/');
    let n = path.len() - name.len();
    if file_name_of(path) == Some(name) && path.contains('/') {
        let (dir, _) = text::rsplit(path, '/')->0;
        text::law_rsplit(path, '/', dir, name);
        assert(path.skip(n) =~= name);
    }
    if name.len() > 0 && !name.contains('/') && path == name {
        text::lemma_rsplit_none(path, '/');
    }
    if name.len() > 0 && !name.contains('/') && name.len() < path.len() && path.skip(n) == name
        && path[n - 1] == '/' {
        let dir = path.take(n - 1);
        assert(path =~= dir + seq!['/'] + name);
        text::law_rsplit(path, '/', dir, name);
    }
}

/// A path has no file name exactly where it is empty or ends in a separator.
pub proof fn law_file_name_of_none(path: Seq<char>)
    ensures
        file_name_of(path) is None <==> path.len() == 0 || path.last() == '/',
{
    text::law_rsplit_none(path, '/');
    text::lemma_last_index(path, '/');
    if path.len() > 0 && path.last() == '/' {
        assert(path.contains('/'));
        let dir = path.drop_last();
        assert(path =~= dir + seq!['/'] + seq![]);
        text::law_rsplit(path, '/', dir, seq![]);
    }
}

/// Paths are equal exactly where they are the same text.
pub proof fn law_eq(a: FsPath, b: FsPath)
    ensures
        vstd::std_specs::cmp::PartialEqSpec::eq_spec(&a, &b) == (a@ == b@),
{
}

} // verus!
