//! What holds of entries and their deliveries as a whole.

use vstd::prelude::*;

use crate::coroutine::{MaildirCoroutineState, ReplyView, YieldView};
use crate::entry::locate::{self, LocateErrorView, LocateStep, LocateView, LocatedView};
use crate::entry::relocation::{
    self, Relocation, RelocationErrorView, RelocationView, StateView,
};
use crate::entry::store::{self, StoreErrorView, StoreStateView, StoreView, StoredView};
use crate::entry::types::{self, INFORMATIONAL_SUFFIX_SEPARATOR};
use crate::flag::types::{self as flag, MaildirFlag};
use crate::maildir::types::{self as maildir, MaildirSubdir};
use crate::path;
use crate::text;

verus! {

// ------------------------------------------------------------- unique names

/// Unique names agree only where time, counter, process and host all agree.
pub proof fn law_unique_name_injective(
    secs1: u64,
    counter1: u32,
    nanos1: u32,
    pid1: u32,
    hostname1: Seq<char>,
    secs2: u64,
    counter2: u32,
    nanos2: u32,
    pid2: u32,
    hostname2: Seq<char>,
)
    requires
        types::unique_name(secs1, counter1, nanos1, pid1, hostname1) == types::unique_name(
            secs2,
            counter2,
            nanos2,
            pid2,
            hostname2,
        ),
    ensures
        secs1 == secs2,
        counter1 == counter2,
        nanos1 == nanos2,
        pid1 == pid2,
        hostname1 == hostname2,
{
    let s1 = text::digits(secs1 as nat, 10);
    let s2 = text::digits(secs2 as nat, 10);
    let c1 = text::digits(counter1 as nat, 16);
    let c2 = text::digits(counter2 as nat, 16);
    let n1 = text::digits(nanos1 as nat, 10);
    let n2 = text::digits(nanos2 as nat, 10);
    let p1 = text::digits(pid1 as nat, 10);
    let p2 = text::digits(pid2 as nat, 10);
    let after_pid1 = p1 + seq!['.'] + hostname1;
    let after_pid2 = p2 + seq!['.'] + hostname2;
    let after_nanos1 = n1 + seq!['P'] + after_pid1;
    let after_nanos2 = n2 + seq!['P'] + after_pid2;
    let after_secs1 = seq!['#'] + c1 + seq!['M'] + after_nanos1;
    let after_secs2 = seq!['#'] + c2 + seq!['M'] + after_nanos2;
    text::lemma_digits_free_of(secs1 as nat, 10, '.');
    text::lemma_digits_free_of(secs2 as nat, 10, '.');
    text::lemma_joined_parts(s1, after_secs1, s2, after_secs2, '.');
    text::lemma_digits_free_of(counter1 as nat, 16, 'M');
    text::lemma_digits_free_of(counter2 as nat, 16, 'M');
    lemma_joined_free_of(seq![], '#', c1, 'M');
    lemma_joined_free_of(seq![], '#', c2, 'M');
    assert(seq![] + seq!['#'] + c1 =~= seq!['#'] + c1);
    assert(seq![] + seq!['#'] + c2 =~= seq!['#'] + c2);
    text::lemma_joined_parts(seq!['#'] + c1, after_nanos1, seq!['#'] + c2, after_nanos2, 'M');
    assert((seq!['#'] + c1).skip(1) =~= c1);
    assert((seq!['#'] + c2).skip(1) =~= c2);
    text::lemma_digits_free_of(nanos1 as nat, 10, 'P');
    text::lemma_digits_free_of(nanos2 as nat, 10, 'P');
    text::lemma_joined_parts(n1, after_pid1, n2, after_pid2, 'P');
    text::lemma_digits_free_of(pid1 as nat, 10, '.');
    text::lemma_digits_free_of(pid2 as nat, 10, '.');
    text::lemma_joined_parts(p1, hostname1, p2, hostname2, '.');
    text::lemma_digits_injective(secs1 as nat, secs2 as nat, 10);
    text::lemma_digits_injective(counter1 as nat, counter2 as nat, 16);
    text::lemma_digits_injective(nanos1 as nat, nanos2 as nat, 10);
    text::lemma_digits_injective(pid1 as nat, pid2 as nat, 10);
}

/// The counter walks through all its values before it starts over.
proof fn lemma_count_after(counter: u32, draws: nat)
    ensures
        types::count_after(counter, draws) == (counter + draws) % 0x1_0000_0000,
    decreases draws,
{
    if draws > 0 {
        lemma_count_after(counter, (draws - 1) as nat);
    }
}

/// Two different draws from one counter give different values, unless the counter has walked
/// through all its values in between.
pub proof fn law_draws_differ(counter: u32, m: nat, n: nat)
    requires
        m < n < m + 0x1_0000_0000,
    ensures
        types::count_after(counter, m) != types::count_after(counter, n),
{
    lemma_count_after(counter, m);
    lemma_count_after(counter, n);
}

/// A unique name holds no character that is neither one of its own nor one of the host name.
proof fn lemma_unique_name_free_of(
    secs: u64,
    counter: u32,
    nanos: u32,
    pid: u32,
    hostname: Seq<char>,
    c: char,
)
    requires
        c == '/' || c == ':',
        !hostname.contains(c),
    ensures
        !types::unique_name(secs, counter, nanos, pid, hostname).contains(c),
        types::unique_name(secs, counter, nanos, pid, hostname).len() > 0,
{
    let s = text::digits(secs as nat, 10);
    let k = text::digits(counter as nat, 16);
    let n = text::digits(nanos as nat, 10);
    let p = text::digits(pid as nat, 10);
    text::lemma_digits_free_of(secs as nat, 10, c);
    text::lemma_digits_free_of(counter as nat, 16, c);
    text::lemma_digits_free_of(nanos as nat, 10, c);
    text::lemma_digits_free_of(pid as nat, 10, c);
    let after_pid = p + seq!['.'] + hostname;
    assert(!after_pid.contains(c)) by {
        lemma_joined_free_of(p, '.', hostname, c);
    }
    let after_nanos = n + seq!['P'] + after_pid;
    lemma_joined_free_of(n, 'P', after_pid, c);
    lemma_joined_free_of(seq![], '#', k, c);
    assert(seq![] + seq!['#'] + k =~= seq!['#'] + k);
    lemma_joined_free_of(seq!['#'] + k, 'M', after_nanos, c);
    lemma_joined_free_of(s, '.', seq!['#'] + k + seq!['M'] + after_nanos, c);
}

/// A text joined from parts that do not hold `c`, around another character, does not hold it.
proof fn lemma_joined_free_of(a: Seq<char>, separator: char, b: Seq<char>, c: char)
    requires
        !a.contains(c),
        !b.contains(c),
        separator != c,
    ensures
        !(a + seq![separator] + b).contains(c),
{
    let s = a + seq![separator] + b;
    assert forall|i: int| 0 <= i < s.len() implies s[i] != c by {
        if i < a.len() {
            assert(s[i] == a[i]);
        } else if i > a.len() {
            assert(s[i] == b[i - a.len() - 1]);
        }
    }
}

// --------------------------------------------------------------- file names

/// The name of the entry `id` with the flags written behind it.
spec fn name_with_flags(id: Seq<char>, flags: Set<MaildirFlag>) -> Seq<char> {
    id + seq![INFORMATIONAL_SUFFIX_SEPARATOR] + flag::info_section(flag::rendered(flags))
}

/// Entries are stored under the same path of one Maildir only where subdirectory and id agree, and
/// in `cur` the flags too.
pub proof fn law_target_path_injective(
    root: Seq<char>,
    subdir1: MaildirSubdir,
    id1: Seq<char>,
    flags1: Set<MaildirFlag>,
    subdir2: MaildirSubdir,
    id2: Seq<char>,
    flags2: Set<MaildirFlag>,
)
    requires
        types::target_path(root, subdir1, id1, flags1) == types::target_path(
            root,
            subdir2,
            id2,
            flags2,
        ),
    ensures
        subdir1 == subdir2,
        id1 == id2,
        subdir1 == MaildirSubdir::Cur ==> flags1 == flags2,
{
    let name1 = types::entry_name(subdir1, id1, flags1);
    let name2 = types::entry_name(subdir2, id2, flags2);
    maildir::law_file_path_injective(root, subdir1, name1, subdir2, name2);
    if subdir1 == MaildirSubdir::Cur {
        lemma_name_with_flags(id1, flags1);
        lemma_name_with_flags(id2, flags2);
    }
}

/// A name with flags gives back id and flags.
proof fn lemma_name_with_flags(id: Seq<char>, flags: Set<MaildirFlag>)
    ensures
        types::id_of_name(name_with_flags(id, flags)) == id,
        flag::flags_of_name(name_with_flags(id, flags)) == flags,
{
    flag::lemma_info_index_with_info(id, flags);
    assert(name_with_flags(id, flags).take(id.len() as int) =~= id);
    flag::law_flags_of_name_with_info(id, flags);
}

/// Info sections hold no path separator.
proof fn lemma_info_section_is_no_path(flags: Set<MaildirFlag>)
    ensures
        !flag::info_section(flag::rendered(flags)).contains('/'),
{
    let info = flag::info_section(flag::rendered(flags));
    flag::lemma_rendered_alphabet(flags, '/');
    assert forall|i: int| 0 <= i < info.len() implies info[i] != '/' by {
        if i >= 2 {
            assert(info[i] == flag::rendered(flags)[i - 2]);
        }
    }
}

/// A path that ends in an info section gives back its flags.
proof fn lemma_flags_of_path_with_info(front: Seq<char>, flags: Set<MaildirFlag>)
    ensures
        flag::flags_of_path(name_with_flags(front, flags)) == flags,
{
    let info = flag::info_section(flag::rendered(flags));
    let whole = name_with_flags(front, flags);
    let k = text::last_index(whole, '/');
    text::lemma_last_index(whole, '/');
    lemma_info_section_is_no_path(flags);
    if k > front.len() {
        assert(whole[k] == info[k - front.len() - 1]);
    }
    let stem = front.skip(k + 1);
    assert(whole.skip(k + 1) =~= name_with_flags(stem, flags));
    assert(whole.skip(0) =~= whole);
    lemma_name_with_flags(stem, flags);
}

/// The path of a file named by a minted id and flags gives back the flags, and the id where the
/// host name holds no path separator.
proof fn lemma_flagged_path_reads_back(
    dir: Seq<char>,
    flags: Set<MaildirFlag>,
    secs: u64,
    counter: u32,
    nanos: u32,
    pid: u32,
    hostname: Seq<char>,
)
    ensures
        ({
            let id = types::unique_name(secs, counter, nanos, pid, hostname);
            let path = path::joined(dir, name_with_flags(id, flags));
            &&& flag::flags_of_path(path) == flags
            &&& !hostname.contains('/') ==> types::id_of_path(path) == Some(id)
        }),
{
    let id = types::unique_name(secs, counter, nanos, pid, hostname);
    let info = flag::info_section(flag::rendered(flags));
    let name = name_with_flags(id, flags);
    assert(path::joined(dir, name) =~= name_with_flags(path::joined(dir, id), flags));
    lemma_flags_of_path_with_info(path::joined(dir, id), flags);
    if !hostname.contains('/') {
        lemma_unique_name_free_of(secs, counter, nanos, pid, hostname, '/');
        lemma_info_section_is_no_path(flags);
        lemma_joined_free_of(id, INFORMATIONAL_SUFFIX_SEPARATOR, info, '/');
        path::law_file_name_of_joined(dir, name);
        lemma_name_with_flags(id, flags);
    }
}

/// The path of a file named by a minted id alone carries the flags that the host name reads as, and
/// gives back the id where the host name holds neither separator.
proof fn lemma_bare_path_reads_back(
    dir: Seq<char>,
    secs: u64,
    counter: u32,
    nanos: u32,
    pid: u32,
    hostname: Seq<char>,
)
    ensures
        ({
            let id = types::unique_name(secs, counter, nanos, pid, hostname);
            let path = path::joined(dir, id);
            &&& flag::flags_of_path(path) == flag::flags_of_path(hostname)
            &&& !hostname.contains('/') && !hostname.contains(INFORMATIONAL_SUFFIX_SEPARATOR)
                ==> types::id_of_path(path) == Some(id)
        }),
{
    let id = types::unique_name(secs, counter, nanos, pid, hostname);
    let front = types::unique_name(secs, counter, nanos, pid, seq![]);
    assert(id =~= front + hostname);
    lemma_unique_name_free_of(secs, counter, nanos, pid, seq![], ':');
    if hostname.contains('/') {
        assert(path::joined(dir, id) =~= path::joined(dir, front) + hostname);
        path::lemma_file_name_of_suffix(path::joined(dir, front), hostname);
    } else {
        lemma_unique_name_free_of(secs, counter, nanos, pid, hostname, '/');
        path::law_file_name_of_joined(dir, id);
        text::lemma_rsplit_none(hostname, '/');
        flag::lemma_info_index_behind(front, hostname);
        let i = flag::info_index(hostname);
        flag::lemma_info_index(hostname);
        if i >= 0 {
            assert(id.skip(front.len() + i + 3) =~= hostname.skip(i + 3));
        }
        if !hostname.contains(INFORMATIONAL_SUFFIX_SEPARATOR) {
            flag::lemma_info_index_none(hostname);
            lemma_unique_name_free_of(secs, counter, nanos, pid, hostname, ':');
            text::lemma_rsplit_none(id, INFORMATIONAL_SUFFIX_SEPARATOR);
        }
    }
}

/// The path of a stored entry gives back its id where the host name holds no path separator nor,
/// outside `cur`, the separator of the info section. In `cur` it always gives back the flags;
/// elsewhere it carries those that the host name itself reads as, mostly none.
pub proof fn law_target_path_reads_back(
    root: Seq<char>,
    subdir: MaildirSubdir,
    flags: Set<MaildirFlag>,
    secs: u64,
    counter: u32,
    nanos: u32,
    pid: u32,
    hostname: Seq<char>,
)
    ensures
        ({
            let id = types::unique_name(secs, counter, nanos, pid, hostname);
            let path = types::target_path(root, subdir, id, flags);
            let is_cur = subdir == MaildirSubdir::Cur;
            let is_plain = !hostname.contains(INFORMATIONAL_SUFFIX_SEPARATOR);
            &&& !hostname.contains('/') && (is_cur || is_plain) ==> types::id_of_path(path)
                == Some(id)
            &&& flag::flags_of_path(path) == (if is_cur {
                flags
            } else {
                flag::flags_of_path(hostname)
            })
        }),
{
    let dir = maildir::subdir_path(root, subdir);
    lemma_flagged_path_reads_back(dir, flags, secs, counter, nanos, pid, hostname);
    lemma_bare_path_reads_back(dir, secs, counter, nanos, pid, hostname);
}

/// The path of a relocated entry gives back its flags, in every subdirectory: the one exception is
/// an entry without flags outside `cur` under a host name that itself reads as flags. It gives back
/// the id where the host name holds no path separator nor, for a bare name, the separator of the
/// info section.
pub proof fn law_relocated_path_reads_back(
    root: Seq<char>,
    subdir: MaildirSubdir,
    flags: Set<MaildirFlag>,
    secs: u64,
    counter: u32,
    nanos: u32,
    pid: u32,
    hostname: Seq<char>,
)
    ensures
        ({
            let id = types::unique_name(secs, counter, nanos, pid, hostname);
            let path = types::relocated_path(root, subdir, id, flags);
            let is_flagged = subdir == MaildirSubdir::Cur || flags
                != Set::<MaildirFlag>::empty();
            let is_plain = !hostname.contains(INFORMATIONAL_SUFFIX_SEPARATOR);
            &&& is_flagged || flag::flags_of_path(hostname) == Set::<MaildirFlag>::empty()
                ==> flag::flags_of_path(path) == flags
            &&& !hostname.contains('/') && (is_flagged || is_plain) ==> types::id_of_path(path)
                == Some(id)
        }),
{
    let dir = maildir::subdir_path(root, subdir);
    lemma_flagged_path_reads_back(dir, flags, secs, counter, nanos, pid, hostname);
    lemma_bare_path_reads_back(dir, secs, counter, nanos, pid, hostname);
}

/// A host name without the separator of the info section does not read as flags.
pub proof fn law_plain_hostname_reads_as_no_flags(hostname: Seq<char>)
    requires
        !hostname.contains(INFORMATIONAL_SUFFIX_SEPARATOR),
    ensures
        flag::flags_of_path(hostname) == Set::<MaildirFlag>::empty(),
{
    let k = text::last_index(hostname, '/');
    text::lemma_last_index(hostname, '/');
    let name = hostname.skip(k + 1);
    assert forall|i: int| 0 <= i < name.len() implies name[i]
        != INFORMATIONAL_SUFFIX_SEPARATOR by {
        assert(name[i] == hostname[k + 1 + i]);
    }
    flag::lemma_info_index_none(name);
    assert(hostname.skip(0) =~= hostname);
}

/// Whether `name` is one that the entry `id` is delivered under.
spec fn is_name_of(id: Seq<char>, name: Seq<char>) -> bool {
    name == id || exists|flags: Set<MaildirFlag>| name == #[trigger] name_with_flags(id, flags)
}

/// Names of entries that were minted with different counter values differ, with flags or without.
proof fn lemma_names_differ(
    secs1: u64,
    counter1: u32,
    nanos1: u32,
    pid1: u32,
    hostname1: Seq<char>,
    name1: Seq<char>,
    secs2: u64,
    counter2: u32,
    nanos2: u32,
    pid2: u32,
    hostname2: Seq<char>,
    name2: Seq<char>,
)
    requires
        counter1 != counter2,
        is_name_of(types::unique_name(secs1, counter1, nanos1, pid1, hostname1), name1),
        is_name_of(types::unique_name(secs2, counter2, nanos2, pid2, hostname2), name2),
    ensures
        name1 != name2,
{
    let host1 = lemma_name_is_unique_name(secs1, counter1, nanos1, pid1, hostname1, name1);
    let host2 = lemma_name_is_unique_name(secs2, counter2, nanos2, pid2, hostname2, name2);
    if name1 == name2 {
        law_unique_name_injective(
            secs1,
            counter1,
            nanos1,
            pid1,
            host1,
            secs2,
            counter2,
            nanos2,
            pid2,
            host2,
        );
    }
}

/// A name with flags has the form of a unique name whose host name ends in the flags.
proof fn lemma_name_is_unique_name(
    secs: u64,
    counter: u32,
    nanos: u32,
    pid: u32,
    hostname: Seq<char>,
    name: Seq<char>,
) -> (host: Seq<char>)
    requires
        is_name_of(types::unique_name(secs, counter, nanos, pid, hostname), name),
    ensures
        name == types::unique_name(secs, counter, nanos, pid, host),
{
    let id = types::unique_name(secs, counter, nanos, pid, hostname);
    if name == id {
        hostname
    } else {
        let flags = choose|flags: Set<MaildirFlag>| name == #[trigger] name_with_flags(id, flags);
        let host = name_with_flags(hostname, flags);
        assert(name =~= types::unique_name(secs, counter, nanos, pid, host));
        host
    }
}

/// The paths that the delivery of the entry `id` into the Maildir at `root` may use: the one it is
/// stored under, the one it is copied or moved to, and the temporary one.
pub open spec fn delivery_paths(
    root: Seq<char>,
    subdir: MaildirSubdir,
    id: Seq<char>,
    flags: Set<MaildirFlag>,
) -> Set<Seq<char>> {
    set![
        types::target_path(root, subdir, id, flags),
        types::relocated_path(root, subdir, id, flags),
        maildir::file_path(root, MaildirSubdir::Tmp, id),
    ]
}

/// Two deliveries into the same Maildir that draw from the same counter never collide, whatever
/// the clock, the process id and the host name say, unless the counter has walked through all
/// its values in between: of the paths they may use, none is one of the other's, be it by storing,
/// copying or moving.
pub proof fn law_deliveries_never_collide(
    root: Seq<char>,
    counter: u32,
    m: nat,
    secs1: u64,
    nanos1: u32,
    pid1: u32,
    hostname1: Seq<char>,
    subdir1: MaildirSubdir,
    flags1: Set<MaildirFlag>,
    n: nat,
    secs2: u64,
    nanos2: u32,
    pid2: u32,
    hostname2: Seq<char>,
    subdir2: MaildirSubdir,
    flags2: Set<MaildirFlag>,
)
    requires
        m < n < m + 0x1_0000_0000,
    ensures
        ({
            let id1 = types::unique_name(
                secs1,
                types::count_after(counter, m),
                nanos1,
                pid1,
                hostname1,
            );
            let id2 = types::unique_name(
                secs2,
                types::count_after(counter, n),
                nanos2,
                pid2,
                hostname2,
            );
            &&& id1 != id2
            &&& delivery_paths(root, subdir1, id1, flags1).disjoint(
                delivery_paths(root, subdir2, id2, flags2),
            )
        }),
{
    let counter1 = types::count_after(counter, m);
    let counter2 = types::count_after(counter, n);
    law_draws_differ(counter, m, n);
    let id1 = types::unique_name(secs1, counter1, nanos1, pid1, hostname1);
    let id2 = types::unique_name(secs2, counter2, nanos2, pid2, hostname2);
    let paths1 = delivery_paths(root, subdir1, id1, flags1);
    let paths2 = delivery_paths(root, subdir2, id2, flags2);
    assert forall|name1: Seq<char>, name2: Seq<char>| #[trigger]
        is_name_of(id1, name1) && #[trigger] is_name_of(id2, name2) implies name1 != name2 by {
        lemma_names_differ(
            secs1,
            counter1,
            nanos1,
            pid1,
            hostname1,
            name1,
            secs2,
            counter2,
            nanos2,
            pid2,
            hostname2,
            name2,
        );
    }
    assert(is_name_of(id1, id1) && is_name_of(id2, id2));
    assert forall|path: Seq<char>| !(paths1.contains(path) && paths2.contains(path)) by {
        if paths1.contains(path) && paths2.contains(path) {
            let (dir1, name1) = lemma_delivery_path(root, subdir1, id1, flags1, path);
            let (dir2, name2) = lemma_delivery_path(root, subdir2, id2, flags2, path);
            maildir::law_file_path_injective(root, dir1, name1, dir2, name2);
        }
    }
}

/// Each path of a delivery ends in a name of the entry.
proof fn lemma_delivery_path(
    root: Seq<char>,
    subdir: MaildirSubdir,
    id: Seq<char>,
    flags: Set<MaildirFlag>,
    path: Seq<char>,
) -> (place: (MaildirSubdir, Seq<char>))
    requires
        delivery_paths(root, subdir, id, flags).contains(path),
    ensures
        path == maildir::file_path(root, place.0, place.1),
        is_name_of(id, place.1),
{
    assert(is_name_of(id, name_with_flags(id, flags)));
    if path == types::target_path(root, subdir, id, flags) {
        (subdir, types::entry_name(subdir, id, flags))
    } else if path == types::relocated_path(root, subdir, id, flags) {
        (subdir, types::relocated_name(subdir, id, flags))
    } else {
        (MaildirSubdir::Tmp, id)
    }
}

// ------------------------------------------------------------------ storing

/// A store that is answered in turn asks for time, process id and host name, writes the contents
/// to one file in `tmp`, moves exactly that file to its final path, and hands back the minted id
/// and the final path. It draws from the counter once, and keeps neither contents nor result.
pub proof fn law_store_run(
    root: Seq<char>,
    subdir: MaildirSubdir,
    flags: Set<MaildirFlag>,
    contents: Seq<u8>,
    counter: u32,
    secs: u64,
    nanos: u32,
    pid: u32,
    hostname: Seq<char>,
)
    ensures
        ({
            let id = types::unique_name(secs, counter, nanos, pid, hostname);
            let tmp_path = maildir::file_path(root, MaildirSubdir::Tmp, id);
            let final_path = types::target_path(root, subdir, id, flags);
            let s0 = StoreView {
                maildir: root,
                subdir,
                flags,
                contents,
                state: StoreStateView::Start,
            };
            let (s1, c1, o1) = store::store_step(s0, counter, None);
            let (s2, c2, o2) = store::store_step(s1, c1, Some(ReplyView::Time { secs, nanos }));
            let (s3, c3, o3) = store::store_step(s2, c2, Some(ReplyView::Pid(pid)));
            let (s4, c4, o4) = store::store_step(s3, c3, Some(ReplyView::Hostname(hostname)));
            let (s5, c5, o5) = store::store_step(s4, c4, Some(ReplyView::FileCreate));
            let (s6, c6, o6) = store::store_step(s5, c5, Some(ReplyView::Rename));
            &&& o1 == store::StoreOutcome::Yielded(YieldView::WantsTime)
            &&& o2 == store::StoreOutcome::Yielded(YieldView::WantsPid)
            &&& o3 == store::StoreOutcome::Yielded(YieldView::WantsHostname)
            &&& o4 == store::StoreOutcome::Yielded(
                YieldView::WantsFileCreate(map![tmp_path => contents]),
            )
            &&& o5 == store::StoreOutcome::Yielded(
                YieldView::WantsRename(seq![(tmp_path, final_path)]),
            )
            &&& o6 == store::StoreOutcome::Complete(Ok(StoredView { id, path: final_path }))
            &&& s6 == (StoreView {
                contents: seq![],
                state: StoreStateView::AwaitRename { final_path: seq![], id: seq![] },
                ..s0
            })
            &&& c6 == types::next_count(counter)
        }),
{
}

/// Whether `reply` is one that a store in `state` waits for.
pub open spec fn store_expects(state: StoreStateView, reply: Option<ReplyView>) -> bool {
    match state {
        StoreStateView::Start => reply is None,
        StoreStateView::AwaitTime => reply matches Some(reply) && reply is Time,
        StoreStateView::AwaitPid { .. } => reply matches Some(reply) && reply is Pid,
        StoreStateView::AwaitHostname { .. } => reply matches Some(reply) && reply is Hostname,
        StoreStateView::AwaitCreateTmp { .. } => reply == Some(ReplyView::FileCreate),
        StoreStateView::AwaitRename { .. } => reply == Some(ReplyView::Rename),
    }
}

/// A store fails exactly where it gets a reply it does not wait for. It then hands that reply
/// back and stands where it stood before.
pub proof fn law_store_rejects_unexpected(
    store: StoreView,
    counter: u32,
    reply: Option<ReplyView>,
)
    ensures
        ({
            let (after, counter_after, outcome) = store::store_step(store, counter, reply);
            &&& store_expects(store.state, reply) <==> !(outcome matches
                MaildirCoroutineState::Complete(Err(_)))
            &&& !store_expects(store.state, reply) ==> after == store && counter_after == counter
                && outcome == store::StoreOutcome::Complete(
                Err(StoreErrorView::UnexpectedArg(reply)),
            )
        }),
{
}

/// A store draws from the counter where it mints the id, on the host name, and nowhere else.
pub proof fn law_store_draws_on_hostname(store: StoreView, counter: u32, reply: Option<ReplyView>)
    ensures
        store::store_step(store, counter, reply).1 == (if store.state is AwaitHostname
            && store_expects(store.state, reply) {
            types::next_count(counter)
        } else {
            counter
        }),
{
}

// ----------------------------------------------------------------- locating

/// A finite set that holds a match holds a first one.
proof fn lemma_first_match_exists(paths: Set<Seq<char>>, id: Seq<char>, path: Seq<char>) -> (first:
    Seq<char>)
    requires
        paths.finite(),
        locate::is_match(paths, id, path),
    ensures
        locate::is_first_match(paths, id, first),
    decreases paths.len(),
{
    if locate::is_first_match(paths, id, path) {
        path
    } else {
        let other = choose|other: Seq<char>| #[trigger]
            locate::is_match(paths, id, other) && other != path && !text::less(path, other);
        text::lemma_less_total(path, other);
        let rest = paths.remove(path);
        assert(locate::is_match(rest, id, other));
        let first = lemma_first_match_exists(rest, id, other);
        if first != other {
            text::lemma_less_transitive(first, other, path);
        }
        assert forall|q: Seq<char>| #[trigger] locate::is_match(paths, id, q) implies q == first
            || text::less(first, q) by {
            if q != path {
                assert(locate::is_match(rest, id, q));
            }
        }
        first
    }
}

/// Whether `path` is a place where the entry `id` of the Maildir at `root` can be found: the file
/// of that name in `new` or `tmp`, or any file of that id.
pub open spec fn is_place_of(
    root: Seq<char>,
    id: Seq<char>,
    subdir: MaildirSubdir,
    path: Seq<char>,
) -> bool {
    ||| types::id_of_path(path) == Some(id)
    ||| subdir != MaildirSubdir::Cur && path == maildir::file_path(root, subdir, id)
}

/// What a search comes to is an entry of the id asked for, with the flags its file name carries.
pub proof fn law_located_is_asked_for(search: LocateView, reply: Option<ReplyView>)
    ensures
        locate::locate_step(search, reply).1 matches MaildirCoroutineState::Complete(Ok(found))
            ==> is_place_of(search.maildir, search.id, found.subdir, found.path) && found.flags
            == flag::flags_of_path(found.path),
{
    if let Some(ReplyView::DirRead(listings)) = reply {
        assert forall|subdir: MaildirSubdir, path: Seq<char>|
            #![trigger maildir::subdir_path(search.maildir, subdir), types::id_of_path(path)]
            locate::first_match(
                locate::listing(listings, maildir::subdir_path(search.maildir, subdir)),
                search.id,
            ) == Some(path) implies types::id_of_path(path) == Some(search.id) by {
            let paths = locate::listing(listings, maildir::subdir_path(search.maildir, subdir));
            assert(locate::is_first_match(paths, search.id, path));
        }
    }
}

/// The files listed in a subdirectory of the Maildir at `root`.
pub open spec fn listed_in(
    root: Seq<char>,
    listings: Map<Seq<char>, Set<Seq<char>>>,
    subdir: MaildirSubdir,
) -> Set<Seq<char>> {
    locate::listing(listings, maildir::subdir_path(root, subdir))
}

/// A finite set holds a first match exactly where it holds one at all.
proof fn lemma_first_match_none(paths: Set<Seq<char>>, id: Seq<char>)
    requires
        paths.finite(),
    ensures
        locate::first_match(paths, id) is None <==> !(exists|path: Seq<char>|
            locate::is_match(paths, id, path)),
{
    if exists|path: Seq<char>| locate::is_match(paths, id, path) {
        let path = choose|path: Seq<char>| locate::is_match(paths, id, path);
        let first = lemma_first_match_exists(paths, id, path);
        locate::lemma_first_match(paths, id, first);
    } else {
        assert forall|path: Seq<char>| !locate::is_first_match(paths, id, path) by {
            assert(!locate::is_match(paths, id, path));
        }
    }
}

/// A search that has found no file of the bare name in `new` or `tmp` fails exactly where no file
/// of the id is listed in any subdirectory.
pub proof fn law_not_found_means_no_match(
    root: Seq<char>,
    id: Seq<char>,
    listings: Map<Seq<char>, Set<Seq<char>>>,
)
    requires
        forall|subdir: MaildirSubdir| #[trigger] listed_in(root, listings, subdir).finite(),
    ensures
        ({
            let search = LocateView { maildir: root, id, step: LocateStep::AwaitDirRead };
            let outcome = locate::locate_step(search, Some(ReplyView::DirRead(listings))).1;
            outcome == locate::LocateOutcome::Complete(Err(LocateErrorView::NotFound(id))) <==> !(
            exists|subdir: MaildirSubdir, path: Seq<char>|
                locate::is_match(listed_in(root, listings, subdir), id, path))
        }),
{
    assert forall|subdir: MaildirSubdir| #[trigger]
        locate::first_match(listed_in(root, listings, subdir), id) is None <==> !(exists|
            path: Seq<char>,
        |
            locate::is_match(listed_in(root, listings, subdir), id, path)) by {
        lemma_first_match_none(listed_in(root, listings, subdir), id);
    }
    let search = LocateView { maildir: root, id, step: LocateStep::AwaitDirRead };
    let outcome = locate::locate_step(search, Some(ReplyView::DirRead(listings))).1;
    let in_cur = locate::first_match(listed_in(root, listings, MaildirSubdir::Cur), id);
    let in_new = locate::first_match(listed_in(root, listings, MaildirSubdir::New), id);
    let in_tmp = locate::first_match(listed_in(root, listings, MaildirSubdir::Tmp), id);
    assert(outcome == locate::LocateOutcome::Complete(Err(LocateErrorView::NotFound(id))) <==>
        in_cur is None && in_new is None && in_tmp is None);
    if exists|subdir: MaildirSubdir, path: Seq<char>|
        locate::is_match(listed_in(root, listings, subdir), id, path) {
        let (subdir, path) = choose|subdir: MaildirSubdir, path: Seq<char>|
            locate::is_match(listed_in(root, listings, subdir), id, path);
        assert(locate::first_match(listed_in(root, listings, subdir), id) is Some);
    }
}

/// Whether `reply` is one that a search waits for.
pub open spec fn locate_expects(step: LocateStep, reply: Option<ReplyView>) -> bool {
    match step {
        LocateStep::Start => reply is None,
        LocateStep::AwaitFileExists => reply matches Some(reply) && reply is FileExists,
        LocateStep::AwaitDirRead => reply matches Some(reply) && reply is DirRead,
    }
}

/// A search that gets a reply it does not wait for fails, hands that reply back, and stands where
/// it stood before. No other reply makes it fail that way.
pub proof fn law_locate_rejects_unexpected(search: LocateView, reply: Option<ReplyView>)
    ensures
        ({
            let (after, outcome) = locate::locate_step(search, reply);
            &&& locate_expects(search.step, reply) <==> !(outcome matches
                MaildirCoroutineState::Complete(Err(LocateErrorView::UnexpectedArg(_))))
            &&& !locate_expects(search.step, reply) ==> after == search && outcome
                == locate::LocateOutcome::Complete(Err(LocateErrorView::UnexpectedArg(reply)))
        }),
{
}

/// A stored entry is found again by its id: in `new` and `tmp` as soon as its file is there (and,
/// for `tmp`, no file of that name in `new`), in `cur` as soon as its file is listed and is the
/// only one of that id. The search gives back the path it was stored under, and in `cur` its
/// flags. For `cur` the host name must not hold a path separator.
pub proof fn law_stored_entry_is_located(
    root: Seq<char>,
    flags: Set<MaildirFlag>,
    secs: u64,
    counter: u32,
    nanos: u32,
    pid: u32,
    hostname: Seq<char>,
    found: Map<Seq<char>, bool>,
    listings: Map<Seq<char>, Set<Seq<char>>>,
)
    ensures
        ({
            let id = types::unique_name(secs, counter, nanos, pid, hostname);
            let probing = LocateView { maildir: root, id, step: LocateStep::AwaitFileExists };
            let listing = LocateView { maildir: root, id, step: LocateStep::AwaitDirRead };
            let in_new = types::target_path(root, MaildirSubdir::New, id, flags);
            let in_tmp = types::target_path(root, MaildirSubdir::Tmp, id, flags);
            let in_cur = types::target_path(root, MaildirSubdir::Cur, id, flags);
            let probed = locate::locate_step(probing, Some(ReplyView::FileExists(found))).1;
            let listed = locate::locate_step(listing, Some(ReplyView::DirRead(listings))).1;
            let cur = locate::listing(
                listings,
                maildir::subdir_path(root, MaildirSubdir::Cur),
            );
            &&& locate::is_found(found, in_new) ==> probed == locate::LocateOutcome::Complete(
                Ok(locate::located(in_new, MaildirSubdir::New)),
            )
            &&& locate::is_found(found, in_tmp) && !locate::is_found(found, in_new) ==> probed
                == locate::LocateOutcome::Complete(
                Ok(locate::located(in_tmp, MaildirSubdir::Tmp)),
            )
            &&& !hostname.contains('/') && cur.contains(in_cur) && (forall|path: Seq<char>| #[trigger]
                locate::is_match(cur, id, path) ==> path == in_cur) ==> listed
                == locate::LocateOutcome::Complete(
                Ok(LocatedView { path: in_cur, subdir: MaildirSubdir::Cur, flags }),
            )
        }),
{
    let id = types::unique_name(secs, counter, nanos, pid, hostname);
    let in_cur = types::target_path(root, MaildirSubdir::Cur, id, flags);
    let cur = locate::listing(listings, maildir::subdir_path(root, MaildirSubdir::Cur));
    law_target_path_reads_back(
        root,
        MaildirSubdir::Cur,
        flags,
        secs,
        counter,
        nanos,
        pid,
        hostname,
    );
    if !hostname.contains('/') && cur.contains(in_cur) && (forall|path: Seq<char>| #[trigger]
        locate::is_match(cur, id, path) ==> path == in_cur) {
        assert(locate::is_match(cur, id, in_cur));
        locate::lemma_first_match(cur, id, in_cur);
    }
}

/// Whether `path` is the only file of the entry `id` that is listed in `subdir`, and none is listed
/// in the subdirectories that are searched before.
pub open spec fn is_listed_first(
    root: Seq<char>,
    id: Seq<char>,
    listings: Map<Seq<char>, Set<Seq<char>>>,
    subdir: MaildirSubdir,
    path: Seq<char>,
) -> bool {
    &&& listed_in(root, listings, subdir).contains(path)
    &&& forall|other: Seq<char>| #[trigger]
        locate::is_match(listed_in(root, listings, subdir), id, other) ==> other == path
    &&& subdir != MaildirSubdir::Cur ==> forall|other: Seq<char>|
        !#[trigger] locate::is_match(listed_in(root, listings, MaildirSubdir::Cur), id, other)
    &&& subdir == MaildirSubdir::Tmp ==> forall|other: Seq<char>|
        !#[trigger] locate::is_match(listed_in(root, listings, MaildirSubdir::New), id, other)
}

/// A relocated entry is found again by its fresh id, with its path, subdirectory and flags: where
/// its name carries flags, as soon as its file is listed and no other of that id goes before it. The
/// host name must not hold a path separator. (Under a bare name it is found as a stored entry is.)
pub proof fn law_relocated_entry_is_located(
    root: Seq<char>,
    subdir: MaildirSubdir,
    flags: Set<MaildirFlag>,
    secs: u64,
    counter: u32,
    nanos: u32,
    pid: u32,
    hostname: Seq<char>,
    listings: Map<Seq<char>, Set<Seq<char>>>,
)
    requires
        !hostname.contains('/'),
        subdir == MaildirSubdir::Cur || flags != Set::<MaildirFlag>::empty(),
        ({
            let id = types::unique_name(secs, counter, nanos, pid, hostname);
            let path = types::relocated_path(root, subdir, id, flags);
            is_listed_first(root, id, listings, subdir, path)
        }),
    ensures
        ({
            let id = types::unique_name(secs, counter, nanos, pid, hostname);
            let path = types::relocated_path(root, subdir, id, flags);
            let search = LocateView { maildir: root, id, step: LocateStep::AwaitDirRead };
            locate::locate_step(search, Some(ReplyView::DirRead(listings))).1
                == locate::LocateOutcome::Complete(Ok(LocatedView { path, subdir, flags }))
        }),
{
    let id = types::unique_name(secs, counter, nanos, pid, hostname);
    let path = types::relocated_path(root, subdir, id, flags);
    law_relocated_path_reads_back(root, subdir, flags, secs, counter, nanos, pid, hostname);
    let paths = listed_in(root, listings, subdir);
    assert(locate::is_match(paths, id, path));
    locate::lemma_first_match(paths, id, path);
    let in_cur = listed_in(root, listings, MaildirSubdir::Cur);
    let in_new = listed_in(root, listings, MaildirSubdir::New);
    if subdir != MaildirSubdir::Cur {
        assert forall|other: Seq<char>| !locate::is_first_match(in_cur, id, other) by {
            assert(!locate::is_match(in_cur, id, other));
        }
    }
    if subdir == MaildirSubdir::Tmp {
        assert forall|other: Seq<char>| !locate::is_first_match(in_new, id, other) by {
            assert(!locate::is_match(in_new, id, other));
        }
    }
}

// ------------------------------------------------------- copying and moving

/// A relocation whose source has been found, and that is answered in turn, asks for time, process
/// id and host name, and then for exactly one delivery: from where the source was found to a path
/// made of the target Maildir, the subdirectory asked for, or that of the source where none was,
/// the freshly minted id and the flags of the source. It draws from the counter once.
pub proof fn law_relocation_run(
    kind: Relocation,
    target: Seq<char>,
    target_subdir: Option<MaildirSubdir>,
    search: LocateView,
    reply: Option<ReplyView>,
    found: LocatedView,
    counter: u32,
    secs: u64,
    nanos: u32,
    pid: u32,
    hostname: Seq<char>,
)
    requires
        locate::locate_step(search, reply).1 == locate::LocateOutcome::Complete(Ok(found)),
    ensures
        ({
            let subdir = match target_subdir {
                Some(subdir) => subdir,
                None => found.subdir,
            };
            let id = types::unique_name(secs, counter, nanos, pid, hostname);
            let path = types::relocated_path(target, subdir, id, found.flags);
            let confirmation = match kind {
                Relocation::Copy => ReplyView::Copy,
                Relocation::Move => ReplyView::Rename,
            };
            let s0 = RelocationView { target, target_subdir, state: StateView::Locate(search) };
            let (s1, c1, o1) = relocation::relocation_step(kind, s0, counter, reply);
            let (s2, c2, o2) = relocation::relocation_step(
                kind,
                s1,
                c1,
                Some(ReplyView::Time { secs, nanos }),
            );
            let (s3, c3, o3) = relocation::relocation_step(
                kind,
                s2,
                c2,
                Some(ReplyView::Pid(pid)),
            );
            let (s4, c4, o4) = relocation::relocation_step(
                kind,
                s3,
                c3,
                Some(ReplyView::Hostname(hostname)),
            );
            let (s5, c5, o5) = relocation::relocation_step(kind, s4, c4, Some(confirmation));
            &&& o1 == relocation::RelocationOutcome::Yielded(YieldView::WantsTime)
            &&& o2 == relocation::RelocationOutcome::Yielded(YieldView::WantsPid)
            &&& o3 == relocation::RelocationOutcome::Yielded(YieldView::WantsHostname)
            &&& o4 == relocation::RelocationOutcome::Yielded(kind.delivery(found.path, path))
            &&& o5 == relocation::RelocationOutcome::Complete(Ok(()))
            &&& s5 == (RelocationView { target, target_subdir, state: StateView::AwaitDelivery })
            &&& c5 == types::next_count(counter)
        }),
{
}

/// Nothing of the source but its flags, and its subdirectory where no other was asked for, gets
/// into the path that an entry is relocated to: of two sources that agree in these, whatever
/// their names, the deliveries differ in the source path alone.
pub proof fn law_relocation_ignores_source_name(
    kind: Relocation,
    target: Seq<char>,
    target_subdir: Option<MaildirSubdir>,
    source1: Seq<char>,
    source2: Seq<char>,
    subdir: MaildirSubdir,
    flags: Set<MaildirFlag>,
    counter: u32,
    secs: u64,
    nanos: u32,
    pid: u32,
    hostname: Seq<char>,
)
    ensures
        ({
            let before1 = RelocationView {
                target,
                target_subdir,
                state: StateView::AwaitHostname {
                    source: source1,
                    subdir,
                    flags,
                    secs,
                    nanos,
                    pid,
                },
            };
            let before2 = RelocationView {
                target,
                target_subdir,
                state: StateView::AwaitHostname {
                    source: source2,
                    subdir,
                    flags,
                    secs,
                    nanos,
                    pid,
                },
            };
            let reply = Some(ReplyView::Hostname(hostname));
            let (after1, counter1, outcome1) = relocation::relocation_step(
                kind,
                before1,
                counter,
                reply,
            );
            let (after2, counter2, outcome2) = relocation::relocation_step(
                kind,
                before2,
                counter,
                reply,
            );
            let id = types::unique_name(secs, counter, nanos, pid, hostname);
            let path = types::relocated_path(target, subdir, id, flags);
            &&& after1 == after2
            &&& counter1 == counter2
            &&& outcome1 == relocation::RelocationOutcome::Yielded(kind.delivery(source1, path))
            &&& outcome2 == relocation::RelocationOutcome::Yielded(kind.delivery(source2, path))
        }),
{
}

/// The flags of the source are preserved, whatever subdirectory an entry is relocated to: its new
/// path carries the flags that the source path carried, and, where the host name holds neither
/// separator, the freshly minted id. The one exception is an entry without flags that goes outside
/// `cur` under a host name that itself reads as flags.
pub proof fn law_relocation_preserves_flags(
    target: Seq<char>,
    target_subdir: Option<MaildirSubdir>,
    search: LocateView,
    reply: Option<ReplyView>,
    found: LocatedView,
    counter: u32,
    secs: u64,
    nanos: u32,
    pid: u32,
    hostname: Seq<char>,
)
    requires
        locate::locate_step(search, reply).1 == locate::LocateOutcome::Complete(Ok(found)),
        ({
            let subdir = match target_subdir {
                Some(subdir) => subdir,
                None => found.subdir,
            };
            ||| subdir == MaildirSubdir::Cur
            ||| found.flags != Set::<MaildirFlag>::empty()
            ||| flag::flags_of_path(hostname) == Set::<MaildirFlag>::empty()
        }),
    ensures
        ({
            let subdir = match target_subdir {
                Some(subdir) => subdir,
                None => found.subdir,
            };
            let id = types::unique_name(secs, counter, nanos, pid, hostname);
            let path = types::relocated_path(target, subdir, id, found.flags);
            &&& flag::flags_of_path(path) == found.flags
            &&& found.flags == flag::flags_of_path(found.path)
            &&& !hostname.contains('/') && !hostname.contains(INFORMATIONAL_SUFFIX_SEPARATOR)
                ==> types::id_of_path(path) == Some(id)
        }),
{
    let subdir = match target_subdir {
        Some(subdir) => subdir,
        None => found.subdir,
    };
    law_located_is_asked_for(search, reply);
    law_relocated_path_reads_back(
        target,
        subdir,
        found.flags,
        secs,
        counter,
        nanos,
        pid,
        hostname,
    );
}

/// Copying never asks for a file to be moved, and moving never asks for one to be copied.
pub proof fn law_delivery_is_of_its_kind(
    kind: Relocation,
    relocation: RelocationView,
    counter: u32,
    reply: Option<ReplyView>,
)
    ensures
        relocation::relocation_step(kind, relocation, counter, reply).2 matches
            MaildirCoroutineState::Yielded(request) ==> match kind {
            Relocation::Copy => !(request is WantsRename),
            Relocation::Move => !(request is WantsCopy),
        },
{
}

/// Whether `reply` is one that a relocation in `state` waits for.
pub open spec fn relocation_expects(
    kind: Relocation,
    state: StateView,
    reply: Option<ReplyView>,
) -> bool {
    match state {
        StateView::Locate(search) => locate_expects(search.step, reply),
        StateView::AwaitTime { .. } => reply matches Some(reply) && reply is Time,
        StateView::AwaitPid { .. } => reply matches Some(reply) && reply is Pid,
        StateView::AwaitHostname { .. } => reply matches Some(reply) && reply is Hostname,
        StateView::AwaitDelivery => kind.is_confirmed_by(reply),
    }
}

/// A relocation that gets a reply it does not wait for fails, hands that reply back, through its
/// search while it looks for the source, and stands where it stood before. Otherwise it fails only
/// where the search finds nothing.
pub proof fn law_relocation_rejects_unexpected(
    kind: Relocation,
    relocation: RelocationView,
    counter: u32,
    reply: Option<ReplyView>,
)
    ensures
        ({
            let (after, counter_after, outcome) = relocation::relocation_step(
                kind,
                relocation,
                counter,
                reply,
            );
            &&& !relocation_expects(kind, relocation.state, reply) ==> after == relocation
                && counter_after == counter && outcome
                == relocation::RelocationOutcome::Complete(
                Err(
                    if relocation.state is Locate {
                        RelocationErrorView::Locate(LocateErrorView::UnexpectedArg(reply))
                    } else {
                        RelocationErrorView::UnexpectedArg(reply)
                    },
                ),
            )
            &&& relocation_expects(kind, relocation.state, reply) ==> (outcome matches
                MaildirCoroutineState::Complete(Err(err)) ==> err
                matches RelocationErrorView::Locate(LocateErrorView::NotFound(_)))
        }),
{
    if let StateView::Locate(search) = relocation.state {
        law_locate_rejects_unexpected(search, reply);
    }
}

/// A relocation draws from the counter where it mints the id, on the host name, and nowhere else.
pub proof fn law_relocation_draws_on_hostname(
    kind: Relocation,
    relocation: RelocationView,
    counter: u32,
    reply: Option<ReplyView>,
)
    ensures
        relocation::relocation_step(kind, relocation, counter, reply).1 == (
        if relocation.state is AwaitHostname && relocation_expects(
            kind,
            relocation.state,
            reply,
        ) {
            types::next_count(counter)
        } else {
            counter
        }),
{
}

// ---------------------------------------------------------- requests of a search

/// A search first asks for the files of the bare name in `new` and `tmp` of the Maildir searched, and
/// for no others.
pub proof fn law_search_starts(root: Seq<char>, id: Seq<char>)
    ensures
        ({
            let search = LocateView { maildir: root, id, step: LocateStep::Start };
            let (after, outcome) = locate::locate_step(search, None);
            &&& after == (LocateView { maildir: root, id, step: LocateStep::AwaitFileExists })
            &&& outcome matches MaildirCoroutineState::Yielded(YieldView::WantsFileExists(paths))
                && forall|path: Seq<char>| #[trigger]
                paths.contains(path) <==> path == maildir::file_path(root, MaildirSubdir::New, id)
                    || path == maildir::file_path(root, MaildirSubdir::Tmp, id)
        }),
{
}

/// A search takes the file of the bare name in `new` where there is one, else that in `tmp`, with the
/// flags its path carries. Where there is neither, it asks for what the three subdirectories of the
/// Maildir searched hold, `cur` among them, and for nothing else.
pub proof fn law_search_probes(root: Seq<char>, id: Seq<char>, found: Map<Seq<char>, bool>)
    ensures
        ({
            let search = LocateView { maildir: root, id, step: LocateStep::AwaitFileExists };
            let (after, outcome) = locate::locate_step(search, Some(ReplyView::FileExists(found)));
            let in_new = maildir::file_path(root, MaildirSubdir::New, id);
            let in_tmp = maildir::file_path(root, MaildirSubdir::Tmp, id);
            let is_new = found.contains_key(in_new) && found[in_new];
            let is_tmp = found.contains_key(in_tmp) && found[in_tmp];
            &&& is_new || is_tmp ==> after == search
            &&& is_new ==> outcome == locate::LocateOutcome::Complete(
                Ok(
                    LocatedView {
                        path: in_new,
                        subdir: MaildirSubdir::New,
                        flags: flag::flags_of_path(in_new),
                    },
                ),
            )
            &&& !is_new && is_tmp ==> outcome == locate::LocateOutcome::Complete(
                Ok(
                    LocatedView {
                        path: in_tmp,
                        subdir: MaildirSubdir::Tmp,
                        flags: flag::flags_of_path(in_tmp),
                    },
                ),
            )
            &&& !is_new && !is_tmp ==> {
                &&& after == (LocateView { maildir: root, id, step: LocateStep::AwaitDirRead })
                &&& outcome matches MaildirCoroutineState::Yielded(YieldView::WantsDirRead(dirs))
                    && forall|dir: Seq<char>| #[trigger]
                    dirs.contains(dir) <==> dir == maildir::subdir_path(root, MaildirSubdir::Cur)
                        || dir == maildir::subdir_path(root, MaildirSubdir::New) || dir
                        == maildir::subdir_path(root, MaildirSubdir::Tmp)
            }
        }),
{
}

/// Whether `path` is listed in a subdirectory of the Maildir at `root` and has the id `id`.
pub open spec fn is_listed(
    root: Seq<char>,
    id: Seq<char>,
    listings: Map<Seq<char>, Set<Seq<char>>>,
    subdir: MaildirSubdir,
    path: Seq<char>,
) -> bool {
    let dir = maildir::subdir_path(root, subdir);
    listings.contains_key(dir) && listings[dir].contains(path) && types::id_of_path(path) == Some(
        id,
    )
}

/// A search that reads listings succeeds exactly where one of them holds a file of the id. It takes
/// one from `cur` if it can, else one from `new`, else one from `tmp`; of several in one subdirectory
/// the first in path order; and it tells the flags that the path carries. Listings are finite.
pub proof fn law_search_lists(
    root: Seq<char>,
    id: Seq<char>,
    listings: Map<Seq<char>, Set<Seq<char>>>,
)
    requires
        forall|dir: Seq<char>| #[trigger] listings.contains_key(dir) ==> listings[dir].finite(),
    ensures
        ({
            let search = LocateView { maildir: root, id, step: LocateStep::AwaitDirRead };
            let (after, outcome) = locate::locate_step(search, Some(ReplyView::DirRead(listings)));
            &&& after == search
            &&& outcome is Complete
            &&& outcome matches MaildirCoroutineState::Complete(Ok(found)) ==> {
                &&& is_listed(root, id, listings, found.subdir, found.path)
                &&& found.flags == flag::flags_of_path(found.path)
                &&& forall|other: Seq<char>| #[trigger]
                    is_listed(root, id, listings, found.subdir, other) ==> other == found.path
                        || text::less(found.path, other)
                &&& found.subdir != MaildirSubdir::Cur ==> forall|other: Seq<char>|
                    !#[trigger] is_listed(root, id, listings, MaildirSubdir::Cur, other)
                &&& found.subdir == MaildirSubdir::Tmp ==> forall|other: Seq<char>|
                    !#[trigger] is_listed(root, id, listings, MaildirSubdir::New, other)
            }
            &&& outcome matches MaildirCoroutineState::Complete(Err(err)) ==> {
                &&& err == LocateErrorView::NotFound(id)
                &&& forall|subdir: MaildirSubdir, other: Seq<char>|
                    !#[trigger] is_listed(root, id, listings, subdir, other)
            }
        }),
{
    lemma_listed_in(root, id, listings, MaildirSubdir::Cur);
    lemma_listed_in(root, id, listings, MaildirSubdir::New);
    lemma_listed_in(root, id, listings, MaildirSubdir::Tmp);
}

/// The first match of a finite listing is a listed file of the id that precedes all others, and there
/// is one as soon as there is such a file.
proof fn lemma_listed_in(
    root: Seq<char>,
    id: Seq<char>,
    listings: Map<Seq<char>, Set<Seq<char>>>,
    subdir: MaildirSubdir,
)
    requires
        forall|dir: Seq<char>| #[trigger] listings.contains_key(dir) ==> listings[dir].finite(),
    ensures
        ({
            let paths = locate::listing(listings, maildir::subdir_path(root, subdir));
            match locate::first_match(paths, id) {
                Some(path) => {
                    &&& is_listed(root, id, listings, subdir, path)
                    &&& forall|other: Seq<char>| #[trigger]
                        is_listed(root, id, listings, subdir, other) ==> other == path
                            || text::less(path, other)
                },
                None => forall|other: Seq<char>|
                    !#[trigger] is_listed(root, id, listings, subdir, other),
            }
        }),
{
    let dir = maildir::subdir_path(root, subdir);
    let paths = locate::listing(listings, dir);
    assert(paths.finite());
    assert forall|path: Seq<char>| #[trigger] is_listed(root, id, listings, subdir, path)
        == locate::is_match(paths, id, path) by {}
    lemma_first_match_none(paths, id);
    if let Some(path) = locate::first_match(paths, id) {
        assert(locate::is_first_match(paths, id, path));
        assert(locate::is_match(paths, id, path));
    }
}

/// While a relocation searches for its source, it yields what the search yields, unchanged, and fails
/// where the search fails, with the same failure. It keeps its target, draws nothing, and asks for the
/// time as soon as the source is found.
pub proof fn law_relocation_passes_search_on(
    kind: Relocation,
    target: Seq<char>,
    target_subdir: Option<MaildirSubdir>,
    search: LocateView,
    counter: u32,
    reply: Option<ReplyView>,
)
    ensures
        ({
            let before = RelocationView { target, target_subdir, state: StateView::Locate(search) };
            let (searched, found) = locate::locate_step(search, reply);
            let (after, counter_after, outcome) = relocation::relocation_step(
                kind,
                before,
                counter,
                reply,
            );
            &&& counter_after == counter
            &&& after.target == target
            &&& after.target_subdir == target_subdir
            &&& match found {
                MaildirCoroutineState::Yielded(request) => {
                    &&& outcome == relocation::RelocationOutcome::Yielded(request)
                    &&& after.state == StateView::Locate(searched)
                },
                MaildirCoroutineState::Complete(Err(err)) => {
                    &&& outcome == relocation::RelocationOutcome::Complete(
                        Err(RelocationErrorView::Locate(err)),
                    )
                    &&& after.state == StateView::Locate(searched)
                },
                MaildirCoroutineState::Complete(Ok(_)) => outcome
                    == relocation::RelocationOutcome::Yielded(YieldView::WantsTime),
            }
        }),
{
}

/// A relocation looks for its entry in the source Maildir, whatever target and subdirectory are asked
/// for: first it asks for the bare name in `new` and `tmp` there; where neither is found, it asks for
/// what the subdirectories there hold, `cur` among them.
pub proof fn law_relocation_searches_source(
    kind: Relocation,
    source: Seq<char>,
    id: Seq<char>,
    target: Seq<char>,
    target_subdir: Option<MaildirSubdir>,
    counter: u32,
    found: Map<Seq<char>, bool>,
)
    requires
        ({
            let in_new = maildir::file_path(source, MaildirSubdir::New, id);
            let in_tmp = maildir::file_path(source, MaildirSubdir::Tmp, id);
            &&& !(found.contains_key(in_new) && found[in_new])
            &&& !(found.contains_key(in_tmp) && found[in_tmp])
        }),
    ensures
        ({
            let s0 = RelocationView {
                target,
                target_subdir,
                state: StateView::Locate(
                    LocateView { maildir: source, id, step: LocateStep::Start },
                ),
            };
            let (s1, c1, o1) = relocation::relocation_step(kind, s0, counter, None);
            let (s2, c2, o2) = relocation::relocation_step(
                kind,
                s1,
                c1,
                Some(ReplyView::FileExists(found)),
            );
            &&& o1 matches MaildirCoroutineState::Yielded(YieldView::WantsFileExists(paths))
                && paths.contains(maildir::file_path(source, MaildirSubdir::New, id))
                && paths.contains(maildir::file_path(source, MaildirSubdir::Tmp, id))
            &&& o2 matches MaildirCoroutineState::Yielded(YieldView::WantsDirRead(dirs))
                && dirs.contains(maildir::subdir_path(source, MaildirSubdir::Cur))
                && dirs.contains(maildir::subdir_path(source, MaildirSubdir::New))
                && dirs.contains(maildir::subdir_path(source, MaildirSubdir::Tmp))
            &&& s2.state == StateView::Locate(
                LocateView { maildir: source, id, step: LocateStep::AwaitDirRead },
            )
            &&& c2 == counter
        }),
{
    law_search_starts(source, id);
    law_search_probes(source, id, found);
}

} // verus!
