//! Maildir flags and their encoding in the info section of a file name.

use vstd::prelude::*;
use vstd::string::*;

use crate::entry::types::INFORMATIONAL_SUFFIX_SEPARATOR;
use crate::path::{self, FsPath};

verus! {

/// A flag of a Maildir entry.
#[derive(Clone, Copy, Debug, PartialEq, Eq, PartialOrd, Ord, Hash, Structural)]
pub enum MaildirFlag {
    Passed,
    Replied,
    Seen,
    Trashed,
    Draft,
    Flagged,
}

impl MaildirFlag {
    /// The letter that stands for the flag in a file name.
    pub open spec fn letter(self) -> char {
        match self {
            MaildirFlag::Passed => 'P',
            MaildirFlag::Replied => 'R',
            MaildirFlag::Seen => 'S',
            MaildirFlag::Trashed => 'T',
            MaildirFlag::Draft => 'D',
            MaildirFlag::Flagged => 'F',
        }
    }
}

/// The letter of `flag` where `set` holds it, nothing otherwise.
pub open spec fn mark(set: Set<MaildirFlag>, flag: MaildirFlag) -> Seq<char> {
    if set.contains(flag) {
        seq![flag.letter()]
    } else {
        seq![]
    }
}

/// The letters of the flags in `set`, each once, in the order in which the flags are declared.
pub open spec fn rendered(set: Set<MaildirFlag>) -> Seq<char> {
    mark(set, MaildirFlag::Passed) + mark(set, MaildirFlag::Replied) + mark(set, MaildirFlag::Seen)
        + mark(set, MaildirFlag::Trashed) + mark(set, MaildirFlag::Draft) + mark(
        set,
        MaildirFlag::Flagged,
    )
}

/// The flags whose letters occur in `letters`; other characters mean nothing.
pub open spec fn flags_of_letters(letters: Seq<char>) -> Set<MaildirFlag> {
    Set::new(|flag: MaildirFlag| letters.contains(flag.letter()))
}

/// The info section `2,` followed by `letters`.
pub open spec fn info_section(letters: Seq<char>) -> Seq<char> {
    seq!['2', ','] + letters
}

/// Whether the flags separator `:2,` stands at position `i` of `name`.
pub open spec fn has_info_at(name: Seq<char>, i: int) -> bool {
    0 <= i <= name.len() - 3 && name.subrange(i, i + 3) == seq![
        INFORMATIONAL_SUFFIX_SEPARATOR,
        '2',
        ',',
    ]
}

/// Position of the last flags separator in `name`, or `-1` when `name` holds none.
pub open spec fn info_index(name: Seq<char>) -> int
    decreases name.len(),
{
    if name.len() < 3 {
        -1
    } else if has_info_at(name, name.len() - 3) {
        name.len() - 3
    } else {
        info_index(name.drop_last())
    }
}

/// The flags separator, character by character.
proof fn lemma_has_info_at(name: Seq<char>, i: int)
    requires
        0 <= i <= name.len() - 3,
    ensures
        has_info_at(name, i) <==> name[i] == INFORMATIONAL_SUFFIX_SEPARATOR && name[i + 1] == '2'
            && name[i + 2] == ',',
{
    let part = name.subrange(i, i + 3);
    assert(part[0] == name[i] && part[1] == name[i + 1] && part[2] == name[i + 2]);
    if name[i] == INFORMATIONAL_SUFFIX_SEPARATOR && name[i + 1] == '2' && name[i + 2] == ',' {
        assert(part =~= seq![INFORMATIONAL_SUFFIX_SEPARATOR, '2', ',']);
    }
}

/// `info_index` points at a flags separator behind which no other stands, or is `-1` when there is
/// none.
pub proof fn lemma_info_index(name: Seq<char>)
    ensures
        info_index(name) == -1 || has_info_at(name, info_index(name)),
        forall|j: int| info_index(name) < j ==> !has_info_at(name, j),
    decreases name.len(),
{
    if name.len() >= 3 && !has_info_at(name, name.len() - 3) {
        let shorter = name.drop_last();
        lemma_info_index(shorter);
        assert forall|j: int| 0 <= j <= name.len() - 4 implies has_info_at(name, j)
            == #[trigger] has_info_at(shorter, j) by {
            assert(name.subrange(j, j + 3) =~= shorter.subrange(j, j + 3));
        }
        assert forall|j: int| info_index(name) < j implies !has_info_at(name, j) by {
            assert(!has_info_at(shorter, j));
        }
        if info_index(name) >= 0 {
            assert(has_info_at(shorter, info_index(name)));
        }
    }
}

/// The position of a flags separator behind which no other stands is `info_index`.
pub proof fn lemma_info_index_is(name: Seq<char>, i: int)
    requires
        i == -1 || has_info_at(name, i),
        forall|j: int| i < j ==> !has_info_at(name, j),
    ensures
        info_index(name) == i,
{
    lemma_info_index(name);
    let k = info_index(name);
    if k > i {
        assert(!has_info_at(name, k));
    }
    if k < i {
        assert(!has_info_at(name, i));
    }
}

/// A name without the separator character holds no flags separator.
pub proof fn lemma_info_index_none(name: Seq<char>)
    requires
        !name.contains(INFORMATIONAL_SUFFIX_SEPARATOR),
    ensures
        info_index(name) == -1,
{
    assert forall|j: int| !has_info_at(name, j) by {
        if 0 <= j <= name.len() - 3 {
            lemma_has_info_at(name, j);
        }
    }
    lemma_info_index_is(name, -1);
}

/// A front part without the separator character does not change what stands behind the last flags
/// separator.
pub proof fn lemma_info_index_behind(front: Seq<char>, name: Seq<char>)
    requires
        !front.contains(INFORMATIONAL_SUFFIX_SEPARATOR),
    ensures
        info_index(front + name) == (if info_index(name) < 0 {
            -1
        } else {
            front.len() + info_index(name)
        }),
{
    let whole = front + name;
    let n = front.len() as int;
    lemma_info_index(name);
    assert forall|j: int| has_info_at(whole, j) == (j >= n && #[trigger] has_info_at(
        name,
        j - n,
    )) by {
        if 0 <= j <= whole.len() - 3 {
            lemma_has_info_at(whole, j);
            if j >= n {
                assert(whole.subrange(j, j + 3) =~= name.subrange(j - n, j - n + 3));
            } else {
                assert(whole[j] == front[j]);
            }
        }
    }
    let i = if info_index(name) < 0 {
        -1
    } else {
        n + info_index(name)
    };
    assert forall|j: int| i < j implies !has_info_at(whole, j) by {
        assert(has_info_at(whole, j) == (j >= n && has_info_at(name, j - n)));
    }
    if i >= 0 {
        assert(has_info_at(name, i - n));
    }
    lemma_info_index_is(whole, i);
}

/// A name that ends in an info section of rendered flags has its last flags separator there.
pub proof fn lemma_info_index_with_info(id: Seq<char>, set: Set<MaildirFlag>)
    ensures
        info_index(id + seq![INFORMATIONAL_SUFFIX_SEPARATOR] + info_section(rendered(set)))
            == id.len(),
{
    let info = info_section(rendered(set));
    let name = id + seq![INFORMATIONAL_SUFFIX_SEPARATOR] + info;
    let i = id.len() as int;
    lemma_info_section_alphabet(set);
    lemma_has_info_at(name, i);
    assert forall|j: int| i < j implies !has_info_at(name, j) by {
        if j <= name.len() - 3 {
            lemma_has_info_at(name, j);
            assert(name[j] == info[j - i - 1]);
        }
    }
    lemma_info_index_is(name, i);
}

/// The flags written in a file name: those of the letters behind its last flags separator.
pub open spec fn flags_of_name(name: Seq<char>) -> Set<MaildirFlag> {
    if info_index(name) < 0 {
        Set::empty()
    } else {
        flags_of_letters(name.skip(info_index(name) + 3))
    }
}

/// The flags written in the file name of a path.
pub open spec fn flags_of_path(path: Seq<char>) -> Set<MaildirFlag> {
    match path::file_name_of(path) {
        Some(name) => flags_of_name(name),
        None => Set::empty(),
    }
}

/// Reading back rendered flags gives the same flags.
pub proof fn law_rendered_reads_back(set: Set<MaildirFlag>)
    ensures
        flags_of_letters(rendered(set)) == set,
{
    let s = rendered(set);
    let passed = mark(set, MaildirFlag::Passed);
    let replied = passed + mark(set, MaildirFlag::Replied);
    let seen = replied + mark(set, MaildirFlag::Seen);
    let trashed = seen + mark(set, MaildirFlag::Trashed);
    let draft = trashed + mark(set, MaildirFlag::Draft);
    assert forall|flag: MaildirFlag| set.contains(flag) implies #[trigger] flags_of_letters(
        s,
    ).contains(flag) by {
        match flag {
            MaildirFlag::Passed => {
                assert(s[0] == 'P');
            },
            MaildirFlag::Replied => {
                assert(s[passed.len() as int] == 'R');
            },
            MaildirFlag::Seen => {
                assert(s[replied.len() as int] == 'S');
            },
            MaildirFlag::Trashed => {
                assert(s[seen.len() as int] == 'T');
            },
            MaildirFlag::Draft => {
                assert(s[trashed.len() as int] == 'D');
            },
            MaildirFlag::Flagged => {
                assert(s[draft.len() as int] == 'F');
            },
        }
    }
    assert forall|flag: MaildirFlag| #[trigger]
        flags_of_letters(s).contains(flag) implies set.contains(flag) by {
        let i = choose|i: int| 0 <= i < s.len() && s[i] == flag.letter();
        assert(s[i] == flag.letter());
    }
    assert(flags_of_letters(s) =~= set);
}

/// Rendered flags consist of flag letters only, so they never hold a separator.
pub proof fn lemma_rendered_alphabet(set: Set<MaildirFlag>, c: char)
    requires
        !('A' <= c <= 'Z'),
    ensures
        !rendered(set).contains(c),
{
}

/// An info section of rendered flags does not hold the separator it stands behind.
pub proof fn lemma_info_section_alphabet(set: Set<MaildirFlag>)
    ensures
        !info_section(rendered(set)).contains(INFORMATIONAL_SUFFIX_SEPARATOR),
{
    let info = info_section(rendered(set));
    lemma_rendered_alphabet(set, INFORMATIONAL_SUFFIX_SEPARATOR);
    assert forall|i: int| 0 <= i < info.len() implies info[i]
        != INFORMATIONAL_SUFFIX_SEPARATOR by {
        if i >= 2 {
            assert(info[i] == rendered(set)[i - 2]);
        }
    }
}

/// The flags in a name that ends in an info section are those of its letters.
pub proof fn law_flags_of_name_with_info(id: Seq<char>, set: Set<MaildirFlag>)
    ensures
        flags_of_name(
            id + seq![INFORMATIONAL_SUFFIX_SEPARATOR] + info_section(rendered(set)),
        ) == set,
{
    let name = id + seq![INFORMATIONAL_SUFFIX_SEPARATOR] + info_section(rendered(set));
    lemma_info_index_with_info(id, set);
    assert(name.skip(id.len() + 3int) =~= rendered(set));
    law_rendered_reads_back(set);
}

/// Splits `name` around its last flags separator.
pub fn split_info(name: &str) -> (parts: Option<(&str, &str)>)
    ensures
        match parts {
            Some((before, letters)) => {
                &&& info_index(name@) >= 0
                &&& before@ == name@.take(info_index(name@))
                &&& letters@ == name@.skip(info_index(name@) + 3)
            },
            None => info_index(name@) < 0,
        },
{
    let len = name.unicode_len();
    let mut found: Option<usize> = None;
    let mut i: usize = 0;
    let mut one_back = ' ';
    let mut two_back = ' ';
    for ch in it: name.chars()
        invariant
            i == it.index(),
            it.seq() == name@,
            len == name@.len(),
            i >= 1 ==> one_back == name@[i - 1],
            i >= 2 ==> two_back == name@[i - 2],
            match found {
                Some(k) => k + 3 <= i && has_info_at(name@, k as int) && forall|j: int|
                    k < j <= i - 3 ==> !has_info_at(name@, j),
                None => forall|j: int| 0 <= j <= i - 3 ==> !has_info_at(name@, j),
            },
    {
        proof {
            if i >= 2 {
                lemma_has_info_at(name@, i - 2);
            }
        }
        if i >= 2 && two_back == INFORMATIONAL_SUFFIX_SEPARATOR && one_back == '2' && ch == ',' {
            found = Some(i - 2);
        }
        two_back = one_back;
        one_back = ch;
        i = i + 1;
    }
    match found {
        Some(k) => {
            proof {
                lemma_info_index_is(name@, k as int);
                assert(name@.take(k as int) =~= name@.subrange(0, k as int));
                assert(name@.skip(k + 3) =~= name@.subrange(k + 3, len as int));
            }
            Some((name.substring_char(0, k), name.substring_char(k + 3, len)))
        },
        None => {
            proof {
                lemma_info_index_is(name@, -1);
            }
            None
        },
    }
}

/// A set of flags.
#[derive(Clone, Copy, Debug, PartialEq, Eq, PartialOrd, Ord, Hash)]
pub struct MaildirFlags {
    passed: bool,
    replied: bool,
    seen: bool,
    trashed: bool,
    draft: bool,
    flagged: bool,
}

impl View for MaildirFlags {
    type V = Set<MaildirFlag>;

    closed spec fn view(&self) -> Set<MaildirFlag> {
        Set::new(
            |flag: MaildirFlag|
                match flag {
                    MaildirFlag::Passed => self.passed,
                    MaildirFlag::Replied => self.replied,
                    MaildirFlag::Seen => self.seen,
                    MaildirFlag::Trashed => self.trashed,
                    MaildirFlag::Draft => self.draft,
                    MaildirFlag::Flagged => self.flagged,
                },
        )
    }
}

impl Default for MaildirFlags {
    fn default() -> (flags: MaildirFlags)
        ensures
            flags@ == Set::<MaildirFlag>::empty(),
    {
        let flags = MaildirFlags {
            passed: false,
            replied: false,
            seen: false,
            trashed: false,
            draft: false,
            flagged: false,
        };
        assert(flags@ =~= Set::<MaildirFlag>::empty());
        flags
    }
}

impl MaildirFlags {
    /// Whether `flag` belongs to the set.
    pub fn contains(&self, flag: MaildirFlag) -> (answer: bool)
        ensures
            answer == self@.contains(flag),
    {
        match flag {
            MaildirFlag::Passed => self.passed,
            MaildirFlag::Replied => self.replied,
            MaildirFlag::Seen => self.seen,
            MaildirFlag::Trashed => self.trashed,
            MaildirFlag::Draft => self.draft,
            MaildirFlag::Flagged => self.flagged,
        }
    }

    /// Adds `flag` to the set.
    pub fn insert(&mut self, flag: MaildirFlag)
        ensures
            final(self)@ == old(self)@.insert(flag),
    {
        match flag {
            MaildirFlag::Passed => {
                self.passed = true;
            },
            MaildirFlag::Replied => {
                self.replied = true;
            },
            MaildirFlag::Seen => {
                self.seen = true;
            },
            MaildirFlag::Trashed => {
                self.trashed = true;
            },
            MaildirFlag::Draft => {
                self.draft = true;
            },
            MaildirFlag::Flagged => {
                self.flagged = true;
            },
        }
        assert(self@ =~= old(self)@.insert(flag));
    }

    /// Whether the set holds no flag.
    pub fn is_empty(&self) -> (answer: bool)
        ensures
            answer == (self@ == Set::<MaildirFlag>::empty()),
    {
        let answer = !(self.passed || self.replied || self.seen || self.trashed || self.draft
            || self.flagged);
        proof {
            if answer {
                assert(self@ =~= Set::<MaildirFlag>::empty());
            } else {
                assert(exists|flag: MaildirFlag| self@.contains(flag)) by {
                    assert(self@.contains(MaildirFlag::Passed) || self@.contains(
                        MaildirFlag::Replied,
                    ) || self@.contains(MaildirFlag::Seen) || self@.contains(MaildirFlag::Trashed)
                        || self@.contains(MaildirFlag::Draft) || self@.contains(
                        MaildirFlag::Flagged,
                    ));
                }
            }
        }
        answer
    }

    /// The flags whose letters occur in `letters`.
    fn of_letters(letters: &str) -> (flags: MaildirFlags)
        ensures
            flags@ == flags_of_letters(letters@),
    {
        let mut flags = MaildirFlags::default();
        assert(letters@.take(0) =~= seq![]);
        assert(flags@ =~= flags_of_letters(letters@.take(0)));
        for letter in it: letters.chars()
            invariant
                it.seq() == letters@,
                flags@ == flags_of_letters(letters@.take(it.index() as int)),
        {
            let ghost i = it.index() as int;
            let ghost before = flags@;
            if letter == 'P' {
                flags.insert(MaildirFlag::Passed);
            } else if letter == 'R' {
                flags.insert(MaildirFlag::Replied);
            } else if letter == 'S' {
                flags.insert(MaildirFlag::Seen);
            } else if letter == 'T' {
                flags.insert(MaildirFlag::Trashed);
            } else if letter == 'D' {
                flags.insert(MaildirFlag::Draft);
            } else if letter == 'F' {
                flags.insert(MaildirFlag::Flagged);
            }
            proof {
                let seen = letters@.take(i);
                let now = letters@.take(i + 1);
                assert(now =~= seen.push(letter));
                assert forall|flag: MaildirFlag| flags_of_letters(now).contains(flag)
                    == #[trigger] flags@.contains(flag) by {
                    if seen.contains(flag.letter()) {
                        let j = choose|j: int| 0 <= j < seen.len() && seen[j] == flag.letter();
                        assert(now[j] == flag.letter());
                    }
                    if now.contains(flag.letter()) && flag.letter() != letter {
                        let j = choose|j: int| 0 <= j < now.len() && now[j] == flag.letter();
                        assert(seen[j] == flag.letter());
                    }
                    if flag.letter() == letter {
                        assert(now[i] == letter);
                    }
                }
                assert(flags@ =~= flags_of_letters(now));
            }
        }
        assert(letters@.take(letters@.len() as int) =~= letters@);
        flags
    }

    /// The letters of the flags in canonical order.
    pub fn to_string(&self) -> (letters: String)
        ensures
            letters@ == rendered(self@),
    {
        proof {
            reveal_strlit("P");
            reveal_strlit("R");
            reveal_strlit("S");
            reveal_strlit("T");
            reveal_strlit("D");
            reveal_strlit("F");
        }
        let mut letters = String::new();
        if self.passed {
            letters.append("P");
        }
        assert(letters@ =~= mark(self@, MaildirFlag::Passed));
        let ghost passed = letters@;
        if self.replied {
            letters.append("R");
        }
        assert(letters@ =~= passed + mark(self@, MaildirFlag::Replied));
        let ghost replied = letters@;
        if self.seen {
            letters.append("S");
        }
        assert(letters@ =~= replied + mark(self@, MaildirFlag::Seen));
        let ghost seen = letters@;
        if self.trashed {
            letters.append("T");
        }
        assert(letters@ =~= seen + mark(self@, MaildirFlag::Trashed));
        let ghost trashed = letters@;
        if self.draft {
            letters.append("D");
        }
        assert(letters@ =~= trashed + mark(self@, MaildirFlag::Draft));
        let ghost draft = letters@;
        if self.flagged {
            letters.append("F");
        }
        assert(letters@ =~= draft + mark(self@, MaildirFlag::Flagged));
        letters
    }
}

impl From<&FsPath> for MaildirFlags {
    /// The flags written in the file name of `path`.
    fn from(path: &FsPath) -> (flags: MaildirFlags)
        ensures
            flags@ == flags_of_path(path@),
    {
        if let Some(name) = path.file_name() {
            if let Some((_, letters)) = split_info(name) {
                return MaildirFlags::of_letters(letters);
            }
        }
        MaildirFlags::default()
    }
}

impl vstd::std_specs::convert::FromSpecImpl<&FsPath> for MaildirFlags {
    open spec fn obeys_from_spec() -> bool {
        true
    }

    closed spec fn from_spec(path: &FsPath) -> MaildirFlags {
        let flags = flags_of_path(path@);
        MaildirFlags {
            passed: flags.contains(MaildirFlag::Passed),
            replied: flags.contains(MaildirFlag::Replied),
            seen: flags.contains(MaildirFlag::Seen),
            trashed: flags.contains(MaildirFlag::Trashed),
            draft: flags.contains(MaildirFlag::Draft),
            flagged: flags.contains(MaildirFlag::Flagged),
        }
    }
}

// --------------------------------------------------------------------- laws

/// The letters of the flags are those that the Maildir convention gives them.
pub proof fn law_letter(flag: MaildirFlag)
    ensures
        flag == MaildirFlag::Passed <==> flag.letter() == 'P',
        flag == MaildirFlag::Replied <==> flag.letter() == 'R',
        flag == MaildirFlag::Seen <==> flag.letter() == 'S',
        flag == MaildirFlag::Trashed <==> flag.letter() == 'T',
        flag == MaildirFlag::Draft <==> flag.letter() == 'D',
        flag == MaildirFlag::Flagged <==> flag.letter() == 'F',
{
}

/// A flag is read from a text, in whatever order and however often the letters stand there, exactly
/// where its letter occurs.
pub proof fn law_flags_of_letters(letters: Seq<char>, flag: MaildirFlag)
    ensures
        flags_of_letters(letters).contains(flag) <==> letters.contains(flag.letter()),
{
}

/// Rendered flags hold the letters of the flags in the set and no other characters.
pub proof fn law_rendered_letters(set: Set<MaildirFlag>, c: char)
    ensures
        rendered(set).contains(c) <==> exists|flag: MaildirFlag|
            set.contains(flag) && #[trigger] flag.letter() == c,
{
    law_rendered_reads_back(set);
    let s = rendered(set);
    if exists|flag: MaildirFlag| set.contains(flag) && #[trigger] flag.letter() == c {
        let flag = choose|flag: MaildirFlag| set.contains(flag) && #[trigger] flag.letter() == c;
        assert(flags_of_letters(s).contains(flag));
    }
    if s.contains(c) {
        let i = choose|i: int| 0 <= i < s.len() && s[i] == c;
        assert(exists|flag: MaildirFlag| #[trigger] flag.letter() == c) by {
            assert(c == MaildirFlag::Passed.letter() || c == MaildirFlag::Replied.letter() || c
                == MaildirFlag::Seen.letter() || c == MaildirFlag::Trashed.letter() || c
                == MaildirFlag::Draft.letter() || c == MaildirFlag::Flagged.letter());
        }
        let flag = choose|flag: MaildirFlag| #[trigger] flag.letter() == c;
        assert(flags_of_letters(s).contains(flag));
    }
}

/// Rendered flags stand in the order `P`, `R`, `S`, `T`, `D`, `F`, each at most once.
pub proof fn law_rendered_order(set: Set<MaildirFlag>, i: int, j: int, a: int, b: int)
    requires
        0 <= i < j < rendered(set).len(),
        0 <= a < 6,
        0 <= b < 6,
        seq!['P', 'R', 'S', 'T', 'D', 'F'][a] == rendered(set)[i],
        seq!['P', 'R', 'S', 'T', 'D', 'F'][b] == rendered(set)[j],
    ensures
        a < b,
{
}

/// A name with a flags separator behind which no other stands carries the flags of the letters behind
/// it, whatever stands before.
pub proof fn law_flags_of_name(before: Seq<char>, letters: Seq<char>)
    requires
        forall|j: int|
            0 <= j <= letters.len() - 3 ==> #[trigger] letters.subrange(j, j + 3) != seq![
                ':',
                '2',
                ',',
            ],
    ensures
        flags_of_name(before + seq![':', '2', ','] + letters) == flags_of_letters(letters),
        info_index(before + seq![':', '2', ','] + letters) == before.len(),
{
    let name = before + seq![':', '2', ','] + letters;
    let n = before.len() as int;
    assert(name.subrange(n, n + 3) =~= seq![':', '2', ',']);
    assert forall|j: int| n < j implies !has_info_at(name, j) by {
        if j <= name.len() - 3 {
            assert(name.subrange(j, j + 3)[0] == name[j]);
            if j >= n + 3 {
                assert(name.subrange(j, j + 3) =~= letters.subrange(j - n - 3, j - n));
                assert(letters.subrange(j - n - 3, j - n - 3 + 3) != seq![':', '2', ',']);
            }
        }
    }
    lemma_info_index_is(name, n);
    assert(name.skip(n + 3) =~= letters);
}

/// A name without a flags separator carries no flags.
pub proof fn law_flags_of_name_without_separator(name: Seq<char>)
    requires
        forall|j: int|
            0 <= j <= name.len() - 3 ==> #[trigger] name.subrange(j, j + 3) != seq![':', '2', ','],
    ensures
        flags_of_name(name) == Set::<MaildirFlag>::empty(),
        info_index(name) == -1,
{
    assert forall|j: int| !has_info_at(name, j) by {
        if 0 <= j <= name.len() - 3 {
            assert(name.subrange(j, j + 3) != seq![':', '2', ',']);
        }
    }
    lemma_info_index_is(name, -1);
}

/// A path carries the flags of its file name, below whatever directory, and none without a file name.
pub proof fn law_flags_of_path(dir: Seq<char>, name: Seq<char>)
    requires
        name.len() > 0,
        !name.contains('/'),
    ensures
        flags_of_path(name) == flags_of_name(name),
        flags_of_path(dir + seq!['/'] + name) == flags_of_name(name),
        flags_of_path(dir + seq!['/']) == Set::<MaildirFlag>::empty(),
        flags_of_path(seq![]) == Set::<MaildirFlag>::empty(),
{
    let whole = dir + seq!['/'] + name;
    path::law_file_name_of(name, name);
    assert(whole.skip(whole.len() - name.len()) =~= name);
    path::law_file_name_of(whole, name);
    path::law_file_name_of_none(dir + seq!['/']);
    path::law_file_name_of_none(seq![]);
}

} // verus!
