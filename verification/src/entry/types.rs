//! Maildir entry types: full body, lightweight handle, unique names, and the info-section
//! separator.

use core::hash::{Hash, Hasher};

use vstd::prelude::*;
use vstd::string::*;

use crate::entry::body;
use crate::entry::message;
use crate::flag::types::{self as flag, MaildirFlags};
use crate::maildir::types::{self as maildir, Maildir, MaildirSubdir};
use crate::path::{self, FsPath};
use crate::text;

verus! {

/// Separates the unique name of an entry from its info section.
pub const INFORMATIONAL_SUFFIX_SEPARATOR: char = ':';

// ------------------------------------------------------------- unique names

/// The counter value that follows `counter`.
pub open spec fn next_count(counter: u32) -> u32 {
    if counter == u32::MAX {
        0
    } else {
        (counter + 1) as u32
    }
}

/// The counter value `draws` steps behind `counter`.
pub open spec fn count_after(counter: u32, draws: nat) -> u32
    decreases draws,
{
    if draws == 0 {
        counter
    } else {
        next_count(count_after(counter, (draws - 1) as nat))
    }
}

/// Counter disambiguating ids minted within the same clock tick. Every delivery of a process,
/// be it by storing, copying or moving, has to draw from one counter, so that no two deliveries
/// into the same Maildir collide.
#[derive(Debug)]
pub struct MaildirIdCounter {
    next: u32,
}

impl View for MaildirIdCounter {
    type V = u32;

    closed spec fn view(&self) -> u32 {
        self.next
    }
}

impl MaildirIdCounter {
    /// A counter that nothing has been drawn from.
    pub fn new() -> (counter: MaildirIdCounter)
        ensures
            counter@ == 0,
    {
        MaildirIdCounter { next: 0 }
    }

    /// Takes the next value; behind the largest one the counter starts over.
    pub fn draw(&mut self) -> (value: u32)
        ensures
            value == old(self)@,
            final(self)@ == next_count(old(self)@),
    {
        let value = self.next;
        self.next = value.wrapping_add(1);
        value
    }
}

/// The unique name `{secs}.#{counter:x}M{nanos}P{pid}.{hostname}`.
pub open spec fn unique_name(
    secs: u64,
    counter: u32,
    nanos: u32,
    pid: u32,
    hostname: Seq<char>,
) -> Seq<char> {
    text::digits(secs as nat, 10) + seq!['.'] + (seq!['#'] + text::digits(counter as nat, 16)
        + seq!['M'] + (text::digits(nanos as nat, 10) + seq!['P'] + (text::digits(pid as nat, 10)
        + seq!['.'] + hostname)))
}

/// Mints a fresh Maildir unique name, `{secs}.#{counter:x}M{nanos}P{pid}.{hostname}`, drawing
/// the counter from `ids`.
///
/// Every delivery goes through here, so a relocated entry never reuses its former name, which
/// may carry metadata that only has a meaning in the folder it comes from.
pub fn mint_id(
    ids: &mut MaildirIdCounter,
    secs: u64,
    nanos: u32,
    pid: u32,
    hostname: &str,
) -> (id: String)
    ensures
        id@ == unique_name(secs, old(ids)@, nanos, pid, hostname@),
        final(ids)@ == next_count(old(ids)@),
{
    let counter = ids.draw();
    proof {
        reveal_strlit(".#");
        reveal_strlit("M");
        reveal_strlit("P");
        reveal_strlit(".");
    }
    let mut id = String::new();
    text::push_digits(&mut id, secs, 10);
    id.append(".#");
    text::push_digits(&mut id, counter as u64, 16);
    id.append("M");
    text::push_digits(&mut id, nanos as u64, 10);
    id.append("P");
    text::push_digits(&mut id, pid as u64, 10);
    id.append(".");
    id.append(hostname);
    assert(id@ =~= unique_name(secs, counter, nanos, pid, hostname@));
    id
}

// --------------------------------------------------------------- file names

/// The file name of the entry `id` in a subdirectory: in `cur` the flags are written behind it.
pub open spec fn entry_name(
    subdir: MaildirSubdir,
    id: Seq<char>,
    flags: Set<flag::MaildirFlag>,
) -> Seq<char> {
    match subdir {
        MaildirSubdir::Cur => {
            id + seq![INFORMATIONAL_SUFFIX_SEPARATOR] + flag::info_section(flag::rendered(flags))
        },
        _ => id,
    }
}

/// The path under which the entry `id` stands in a subdirectory of the Maildir at `root`.
pub open spec fn target_path(
    root: Seq<char>,
    subdir: MaildirSubdir,
    id: Seq<char>,
    flags: Set<flag::MaildirFlag>,
) -> Seq<char> {
    maildir::file_path(root, subdir, entry_name(subdir, id, flags))
}

/// The file name of the relocated entry `id`: where it is copied or moved to, the flags are written
/// behind it in every subdirectory. Outside `cur` an entry without flags has the bare id.
pub open spec fn relocated_name(
    subdir: MaildirSubdir,
    id: Seq<char>,
    flags: Set<flag::MaildirFlag>,
) -> Seq<char> {
    if subdir == MaildirSubdir::Cur || flags != Set::<flag::MaildirFlag>::empty() {
        id + seq![INFORMATIONAL_SUFFIX_SEPARATOR] + flag::info_section(flag::rendered(flags))
    } else {
        id
    }
}

/// The path to which the entry `id` is copied or moved in the Maildir at `root`.
pub open spec fn relocated_path(
    root: Seq<char>,
    subdir: MaildirSubdir,
    id: Seq<char>,
    flags: Set<flag::MaildirFlag>,
) -> Seq<char> {
    maildir::file_path(root, subdir, relocated_name(subdir, id, flags))
}

/// The part of a file name before the `:2,` flags separator, the last one where there are several.
/// Where there is none, the name ends at the last `:`, if it holds one.
pub open spec fn id_of_name(name: Seq<char>) -> Seq<char> {
    if flag::info_index(name) >= 0 {
        name.take(flag::info_index(name))
    } else {
        match text::rsplit(name, INFORMATIONAL_SUFFIX_SEPARATOR) {
            Some((id, _)) => id,
            None => name,
        }
    }
}

/// The id of the entry at `path`.
pub open spec fn id_of_path(path: Seq<char>) -> Option<Seq<char>> {
    match path::file_name_of(path) {
        Some(name) => Some(id_of_name(name)),
        None => None,
    }
}

/// Writes the flags behind the id.
fn name_with_flags(id: &str, flags: &MaildirFlags) -> (name: String)
    ensures
        name@ == id@ + seq![INFORMATIONAL_SUFFIX_SEPARATOR] + flag::info_section(
            flag::rendered(flags@),
        ),
{
    proof {
        reveal_strlit(":2,");
    }
    let mut name = id.to_owned();
    name.append(":2,");
    name.append(flags.to_string().as_str());
    assert(name@ =~= id@ + seq![INFORMATIONAL_SUFFIX_SEPARATOR] + flag::info_section(
        flag::rendered(flags@),
    ));
    name
}

/// Builds the path under which the entry `id` is delivered into `target`.
pub fn build_target_path(
    target: &Maildir,
    subdir: &MaildirSubdir,
    id: &str,
    flags: &MaildirFlags,
) -> (path: FsPath)
    ensures
        path@ == target_path(target@, *subdir, id@, flags@),
{
    match subdir {
        MaildirSubdir::Cur => target.cur().join(name_with_flags(id, flags).as_str()),
        MaildirSubdir::New => target.new().join(id),
        MaildirSubdir::Tmp => target.tmp().join(id),
    }
}

/// Builds the path to which the entry `id` is copied or moved in `target`, flags included.
pub fn build_relocated_path(
    target: &Maildir,
    subdir: &MaildirSubdir,
    id: &str,
    flags: &MaildirFlags,
) -> (path: FsPath)
    ensures
        path@ == relocated_path(target@, *subdir, id@, flags@),
{
    if flags.is_empty() {
        build_target_path(target, subdir, id, flags)
    } else {
        target.subdir(subdir).join(name_with_flags(id, flags).as_str())
    }
}

/// Cuts the flags separator and what follows it off the file name of `path`.
fn entry_id(path: &FsPath) -> (id: Option<&str>)
    ensures
        match id {
            Some(id) => id_of_path(path@) == Some(id@),
            None => id_of_path(path@) is None,
        },
{
    match path.file_name() {
        Some(name) => Some(
            match flag::split_info(name) {
                Some((id, _)) => id,
                None => match text::rsplit_once(name, INFORMATIONAL_SUFFIX_SEPARATOR) {
                    Some((id, _)) => id,
                    None => name,
                },
            },
        ),
        None => None,
    }
}

// ------------------------------------------------------------------ entries

/// A Maildir entry: on-disk path plus body bytes.
#[derive(Debug, Clone, PartialEq, Eq, PartialOrd, Ord)]
pub struct MaildirFullEntry {
    path: FsPath,
    contents: Vec<u8>,
}

impl View for MaildirFullEntry {
    type V = (Seq<char>, Seq<u8>);

    closed spec fn view(&self) -> (Seq<char>, Seq<u8>) {
        (self.path@, self.contents@)
    }
}

impl MaildirFullEntry {
    /// Where the entry stands.
    pub fn path(&self) -> (path: &FsPath)
        ensures
            path@ == self@.0,
    {
        &self.path
    }

    /// The entry id: the file name before the `:2,` flags separator.
    pub fn id(&self) -> (id: Option<&str>)
        ensures
            match id {
                Some(id) => id_of_path(self@.0) == Some(id@),
                None => id_of_path(self@.0) is None,
            },
    {
        entry_id(&self.path)
    }

    /// The body bytes.
    pub fn contents(&self) -> (contents: &[u8])
        ensures
            contents@ == self@.1,
    {
        self.contents.as_slice()
    }

    /// The body parsed as a message, with the default settings of the parser. The body has to be one
    /// that the parser gets through, which [`MaildirFullEntry::try_parsed`] tests.
    pub fn parsed(&self) -> (message: Option<mail_parser::Message<'_>>)
        requires
            body::is_parsable(self@.1),
        ensures
            message == message::parsed_message(self@.1),
            self@.1.len() == 0 ==> message is None,
    {
        message::parse_message(self.contents.as_slice())
    }

    /// The body parsed as a message, with the minimal set of headers. The body has to be one that the
    /// parser gets through, which [`MaildirFullEntry::try_headers`] tests.
    pub fn headers(&self) -> (message: Option<mail_parser::Message<'_>>)
        requires
            body::is_readable(self@.1),
        ensures
            message == message::parsed_headers(self@.1),
            self@.1.len() == 0 ==> message is None,
    {
        message::parse_headers(self.contents.as_slice())
    }

    /// What [`MaildirFullEntry::parsed`] gives, or `None` where the parser may not get through the
    /// body.
    pub fn try_parsed(&self) -> (outcome: Option<Option<mail_parser::Message<'_>>>)
        ensures
            match outcome {
                Some(message) => {
                    &&& body::is_parsable(self@.1)
                    &&& message == message::parsed_message(self@.1)
                    &&& self@.1.len() == 0 ==> message is None
                },
                None => !body::is_parsable(self@.1),
            },
    {
        if body::can_be_parsed(self.contents.as_slice()) {
            Some(self.parsed())
        } else {
            None
        }
    }

    /// What [`MaildirFullEntry::headers`] gives, or `None` where the parser may not get through the
    /// body.
    pub fn try_headers(&self) -> (outcome: Option<Option<mail_parser::Message<'_>>>)
        ensures
            match outcome {
                Some(message) => {
                    &&& body::is_readable(self@.1)
                    &&& message == message::parsed_headers(self@.1)
                    &&& self@.1.len() == 0 ==> message is None
                },
                None => !body::is_readable(self@.1),
            },
    {
        if body::can_be_read(self.contents.as_slice()) {
            Some(self.headers())
        } else {
            None
        }
    }
}

impl From<MaildirFullEntry> for Vec<u8> {
    fn from(msg: MaildirFullEntry) -> (contents: Vec<u8>)
        ensures
            contents@ == msg@.1,
    {
        msg.contents
    }
}

impl vstd::std_specs::convert::FromSpecImpl<MaildirFullEntry> for Vec<u8> {
    open spec fn obeys_from_spec() -> bool {
        true
    }

    closed spec fn from_spec(msg: MaildirFullEntry) -> Vec<u8> {
        msg.contents
    }
}

impl From<(FsPath, Vec<u8>)> for MaildirFullEntry {
    fn from(parts: (FsPath, Vec<u8>)) -> (entry: MaildirFullEntry)
        ensures
            entry@ == (parts.0@, parts.1@),
    {
        let (path, contents) = parts;
        MaildirFullEntry { path, contents }
    }
}

impl vstd::std_specs::convert::FromSpecImpl<(FsPath, Vec<u8>)> for MaildirFullEntry {
    open spec fn obeys_from_spec() -> bool {
        true
    }

    closed spec fn from_spec(parts: (FsPath, Vec<u8>)) -> MaildirFullEntry {
        MaildirFullEntry { path: parts.0, contents: parts.1 }
    }
}

/// Calls `<str as std::hash::Hash>::hash`. Nothing is claimed of what it makes of the hasher: that
/// depends on the hasher's own `Hasher` impl.
#[verifier::external_body]
pub fn hash_text<H: Hasher>(text: &str, state: &mut H)
{
    text.hash(state);
}

/// Hands `text` and `state` to `feed`, once.
fn feed_with<H: Hasher, F: Fn(&str, &mut H)>(feed: F, text: &str, state: &mut H)
    requires
        forall|s: &mut H| call_requires(feed, (text, s)),
    ensures
        exists|s: &mut H|
            *s == *old(state) && *final(s) == *final(state) && #[trigger] call_ensures(
                feed,
                (text, s),
                (),
            ),
{
    feed(text, state);
}

/// Entries are hashed by their path: whatever hashing one may make of a hasher, hashing another with
/// the same path may too, whatever their contents.
pub proof fn law_hash_ignores_contents<H: Hasher>(
    a: MaildirFullEntry,
    b: MaildirFullEntry,
    before: H,
    after: H,
)
    requires
        a@.0 == b@.0,
    ensures
        (exists|text: &str, s: &mut H|
            text@ == a@.0 && *s == before && *final(s) == after && #[trigger] call_ensures(
                hash_text::<H>,
                (text, s),
                (),
            )) ==> (exists|text: &str, s: &mut H|
            text@ == b@.0 && *s == before && *final(s) == after && #[trigger] call_ensures(
                hash_text::<H>,
                (text, s),
                (),
            )),
{
}

impl Hash for MaildirFullEntry {
    /// Entries are hashed by their path alone: the hasher ends up as [`hash_text`] leaves it when
    /// given the text of the path.
    fn hash<H: Hasher>(&self, state: &mut H)
        ensures
            exists|text: &str, s: &mut H|
                text@ == self@.0 && *s == *old(state) && *final(s) == *final(state)
                    && #[trigger] call_ensures(hash_text::<H>, (text, s), ()),
    {
        feed_with(hash_text::<H>, self.path.as_str(), state);
    }
}

/// `From<T> for T` hands its argument back unchanged.
pub assume_specification<X>[ <X as std::convert::From<X>>::from ](value: X) -> (same: X)
    ensures
        same == value,
;

/// Lightweight handle to a Maildir entry file (path only, no body).
#[derive(Debug, Clone, PartialEq, Eq, PartialOrd, Ord)]
pub struct MaildirEntry {
    path: FsPath,
}

impl View for MaildirEntry {
    type V = Seq<char>;

    closed spec fn view(&self) -> Seq<char> {
        self.path@
    }
}

impl MaildirEntry {
    /// The path of the entry as a path value.
    pub closed spec fn location(&self) -> FsPath {
        self.path
    }

    /// The entry at `path`.
    pub fn from_path(path: impl Into<FsPath>) -> (entry: MaildirEntry)
        ensures
            call_ensures(Into::into, (path,), entry.location()),
            entry@ == entry.location()@,
    {
        MaildirEntry { path: path.into() }
    }

    /// Where the entry stands.
    pub fn path(&self) -> (path: &FsPath)
        ensures
            *path == self.location(),
            path@ == self@,
    {
        &self.path
    }

    /// The entry id: the file name before the `:2,` flags separator.
    pub fn id(&self) -> (id: Option<&str>)
        ensures
            match id {
                Some(id) => id_of_path(self@) == Some(id@),
                None => id_of_path(self@) is None,
            },
    {
        entry_id(&self.path)
    }

    /// The flags written in the file name.
    pub fn flags(&self) -> (flags: MaildirFlags)
        ensures
            flags@ == flag::flags_of_path(self@),
    {
        MaildirFlags::from(&self.path)
    }
}

impl From<FsPath> for MaildirEntry {
    fn from(path: FsPath) -> (entry: MaildirEntry)
        ensures
            entry@ == path@,
    {
        MaildirEntry::from_path(path)
    }
}

impl vstd::std_specs::convert::FromSpecImpl<FsPath> for MaildirEntry {
    open spec fn obeys_from_spec() -> bool {
        true
    }

    closed spec fn from_spec(path: FsPath) -> MaildirEntry {
        MaildirEntry { path }
    }
}

impl From<MaildirEntry> for FsPath {
    fn from(entry: MaildirEntry) -> (path: FsPath)
        ensures
            path@ == entry@,
    {
        entry.path
    }
}

impl vstd::std_specs::convert::FromSpecImpl<MaildirEntry> for FsPath {
    open spec fn obeys_from_spec() -> bool {
        true
    }

    closed spec fn from_spec(entry: MaildirEntry) -> FsPath {
        entry.path
    }
}

// --------------------------------------------------------------------- laws

/// The counter goes up by one and starts over behind the largest value.
pub proof fn law_next_count(counter: u32)
    ensures
        next_count(counter) == (counter + 1) % 0x1_0000_0000,
{
}

/// A unique name reads back field by field: the number before the first `.` is the seconds, the
/// hexadecimal one between `#` and `M` the counter, the one between `M` and `P` the nanoseconds, the
/// one between `P` and `.` the process id, and the rest is the host name.
pub proof fn law_unique_name_reads_back(
    secs: u64,
    counter: u32,
    nanos: u32,
    pid: u32,
    hostname: Seq<char>,
) -> (fields: (Seq<char>, Seq<char>, Seq<char>, Seq<char>))
    ensures
        unique_name(secs, counter, nanos, pid, hostname) == fields.0 + seq!['.', '#'] + fields.1
            + seq!['M'] + fields.2 + seq!['P'] + fields.3 + seq!['.'] + hostname,
        text::is_numeral(fields.0, 10) && text::value(fields.0, 10) == secs,
        text::is_numeral(fields.1, 16) && text::value(fields.1, 16) == counter,
        text::is_numeral(fields.2, 10) && text::value(fields.2, 10) == nanos,
        text::is_numeral(fields.3, 10) && text::value(fields.3, 10) == pid,
{
    let s = text::digits(secs as nat, 10);
    let c = text::digits(counter as nat, 16);
    let n = text::digits(nanos as nat, 10);
    let p = text::digits(pid as nat, 10);
    text::law_digits_read_back(secs as nat, 10);
    text::law_digits_read_back(counter as nat, 16);
    text::law_digits_read_back(nanos as nat, 10);
    text::law_digits_read_back(pid as nat, 10);
    assert(unique_name(secs, counter, nanos, pid, hostname) =~= s + seq!['.', '#'] + c + seq!['M']
        + n + seq!['P'] + p + seq!['.'] + hostname);
    (s, c, n, p)
}

/// A stored entry is named by its id; in `cur` the flags separator and the rendered flags follow.
pub proof fn law_entry_name(id: Seq<char>, flags: Set<flag::MaildirFlag>)
    ensures
        entry_name(MaildirSubdir::New, id, flags) == id,
        entry_name(MaildirSubdir::Tmp, id, flags) == id,
        entry_name(MaildirSubdir::Cur, id, flags) == id + seq![':', '2', ','] + flag::rendered(
            flags,
        ),
{
    assert(entry_name(MaildirSubdir::Cur, id, flags) =~= id + seq![':', '2', ','] + flag::rendered(
        flags,
    ));
}

/// A relocated entry is named by its id, the flags separator and the rendered flags; without flags it
/// is named by its id alone, except in `cur`.
pub proof fn law_relocated_name(
    subdir: MaildirSubdir,
    id: Seq<char>,
    flags: Set<flag::MaildirFlag>,
)
    ensures
        subdir == MaildirSubdir::Cur || (exists|flag: flag::MaildirFlag| flags.contains(flag))
            ==> relocated_name(subdir, id, flags) == id + seq![':', '2', ','] + flag::rendered(
            flags,
        ),
        subdir != MaildirSubdir::Cur && !(exists|flag: flag::MaildirFlag| flags.contains(flag))
            ==> relocated_name(subdir, id, flags) == id,
{
    assert(id + seq![INFORMATIONAL_SUFFIX_SEPARATOR] + flag::info_section(flag::rendered(flags))
        =~= id + seq![':', '2', ','] + flag::rendered(flags));
    if !(exists|flag: flag::MaildirFlag| flags.contains(flag)) {
        assert(flags =~= Set::<flag::MaildirFlag>::empty());
    }
}

/// Entries stand below the root of their Maildir, in the subdirectory they are delivered to, under
/// their name.
pub proof fn law_delivery_paths(
    root: Seq<char>,
    subdir: MaildirSubdir,
    id: Seq<char>,
    flags: Set<flag::MaildirFlag>,
)
    ensures
        target_path(root, subdir, id, flags) == maildir::file_path(
            root,
            subdir,
            entry_name(subdir, id, flags),
        ),
        relocated_path(root, subdir, id, flags) == maildir::file_path(
            root,
            subdir,
            relocated_name(subdir, id, flags),
        ),
        target_path(root, subdir, id, flags).take(root.len() as int) == root,
        relocated_path(root, subdir, id, flags).take(root.len() as int) == root,
{
    maildir::law_file_path(root, subdir, entry_name(subdir, id, flags));
    maildir::law_file_path(root, subdir, relocated_name(subdir, id, flags));
}

/// The id of a name with a flags separator is what stands before the last one, whatever follows.
pub proof fn law_id_of_name(before: Seq<char>, letters: Seq<char>)
    requires
        forall|j: int|
            0 <= j <= letters.len() - 3 ==> #[trigger] letters.subrange(j, j + 3) != seq![
                ':',
                '2',
                ',',
            ],
    ensures
        id_of_name(before + seq![':', '2', ','] + letters) == before,
{
    flag::law_flags_of_name(before, letters);
    let name = before + seq![':', '2', ','] + letters;
    assert(name.take(before.len() as int) =~= before);
}

/// The id of a name without a `:` is the whole name, whoever minted it.
pub proof fn law_id_of_plain_name(name: Seq<char>)
    requires
        !name.contains(':'),
    ensures
        id_of_name(name) == name,
{
    flag::lemma_info_index_none(name);
    text::law_rsplit_none(name, ':');
}

/// The id of a name without a flags separator ends at the last `:`.
pub proof fn law_id_of_name_without_separator(before: Seq<char>, after: Seq<char>)
    requires
        !after.contains(':'),
        ({
            let name = before + seq![':'] + after;
            forall|j: int|
                0 <= j <= name.len() - 3 ==> #[trigger] name.subrange(j, j + 3) != seq![
                    ':',
                    '2',
                    ',',
                ]
        }),
    ensures
        id_of_name(before + seq![':'] + after) == before,
{
    let name = before + seq![':'] + after;
    flag::law_flags_of_name_without_separator(name);
    text::law_rsplit(name, ':', before, after);
}

/// The id of a path is that of its file name, below whatever directory; without a file name there is
/// none.
pub proof fn law_id_of_path(dir: Seq<char>, name: Seq<char>)
    requires
        name.len() > 0,
        !name.contains('/'),
    ensures
        id_of_path(name) == Some(id_of_name(name)),
        id_of_path(dir + seq!['/'] + name) == Some(id_of_name(name)),
        id_of_path(dir + seq!['/']) is None,
        id_of_path(seq![]) is None,
{
    let whole = dir + seq!['/'] + name;
    path::law_file_name_of(name, name);
    assert(whole.skip(whole.len() - name.len()) =~= name);
    path::law_file_name_of(whole, name);
    path::law_file_name_of_none(dir + seq!['/']);
    path::law_file_name_of_none(seq![]);
}

} // verus!
