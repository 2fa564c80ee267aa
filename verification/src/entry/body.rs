//! Which entry bodies `mail_parser` gets through.
//!
//! Some bodies make the parser panic in builds with overflow checks or debug assertions, and some
//! exhaust the stack in every build. What is stated here leaves those out, and some harmless ones
//! with them, by looking at the bytes alone.

use vstd::prelude::*;
use vstd::string::*;

verus! {

// ------------------------------------------------------------ finding words

/// The lower case form of an ASCII letter; other bytes stay as they are.
pub open spec fn lower(byte: u8) -> u8 {
    if 'A' as u8 <= byte <= 'Z' as u8 {
        (byte + 32) as u8
    } else {
        byte
    }
}

/// Whether the lower case `word` stands at position `i` of `raw`, in whatever case.
pub open spec fn holds_at(raw: Seq<u8>, i: int, word: Seq<char>) -> bool {
    &&& 0 <= i <= raw.len() - word.len()
    &&& forall|k: int| 0 <= k < word.len() ==> #[trigger] word[k] == lower(raw[i + k]) as char
}

/// Whether the lower case `word` occurs in `raw`, in whatever case.
pub open spec fn holds(raw: Seq<u8>, word: Seq<char>) -> bool {
    exists|i: int| holds_at(raw, i, word)
}

/// Tests a position for a word.
fn is_word_at(raw: &[u8], i: usize, word: &str) -> (answer: bool)
    requires
        i <= raw@.len(),
    ensures
        answer == holds_at(raw@, i as int, word@),
{
    let len = word.unicode_len();
    let total = raw.len();
    if total - i < len {
        return false;
    }
    for k in 0..len
        invariant
            len == word@.len(),
            i + len <= total == raw@.len(),
            forall|j: int| 0 <= j < k ==> #[trigger] word@[j] == lower(raw@[i + j]) as char,
    {
        let byte = raw[i + k];
        let small = if byte >= 65 && byte <= 90 {
            byte + 32
        } else {
            byte
        };
        if word.get_char(k) != small as char {
            assert(word@[k as int] != lower(raw@[i + k]) as char);
            return false;
        }
    }
    true
}

/// Looks for a word.
fn has_word(raw: &[u8], word: &str) -> (answer: bool)
    ensures
        answer == holds(raw@, word@),
{
    let len = raw.len();
    let mut i: usize = 0;
    loop
        invariant
            len == raw@.len(),
            i <= len,
            forall|j: int| 0 <= j < i ==> !holds_at(raw@, j, word@),
        decreases len - i,
    {
        if is_word_at(raw, i, word) {
            return true;
        }
        if i == len {
            return false;
        }
        i = i + 1;
    }
}

// ------------------------------------------------------------------- breaks

/// Whether `byte` is a blank that may follow a `=` at the end of a line.
pub open spec fn is_blank(byte: u8) -> bool {
    byte == ' ' as u8 || byte == '\t' as u8 || byte == 12 || byte == '\r' as u8
}

/// Whether a soft line break, a `=` at `i` with nothing but blanks up to the newline at `j`, stands
/// right before two dashes.
pub open spec fn breaks_before_dashes(raw: Seq<u8>, i: int, j: int) -> bool {
    &&& 0 <= i < j < raw.len() - 2
    &&& raw[i] == '=' as u8
    &&& raw[j] == '\n' as u8
    &&& raw[j + 1] == '-' as u8
    &&& raw[j + 2] == '-' as u8
    &&& forall|k: int| i < k < j ==> is_blank(#[trigger] raw[k])
}

/// Whether the three bytes before position `i` are neither blanks nor newlines nor `=`: decoding them
/// gives two bytes at least.
pub open spec fn is_solid_before(raw: Seq<u8>, i: int) -> bool {
    i >= 3 && forall|k: int| i - 3 <= k < i ==> !is_blank(#[trigger] raw[k]) && raw[k] != '\n' as u8
        && raw[k] != '=' as u8
}

/// Whether every soft line break before dashes, where a part may end, has something in front of it.
/// The decoder of quoted-printable text takes a line ending off what it has decoded there, though a
/// soft break has added none.
pub open spec fn breaks_are_solid(raw: Seq<u8>) -> bool {
    forall|i: int, j: int| #[trigger] breaks_before_dashes(raw, i, j) ==> is_solid_before(raw, i)
}

/// Tests a byte for being a blank.
fn is_blank_byte(byte: u8) -> (answer: bool)
    ensures
        answer == is_blank(byte),
{
    byte == 32 || byte == 9 || byte == 12 || byte == 13
}

/// Tests the three bytes before a position.
fn is_solid(raw: &[u8], i: usize) -> (answer: bool)
    requires
        i <= raw@.len(),
    ensures
        answer == is_solid_before(raw@, i as int),
{
    if i < 3 {
        return false;
    }
    for k in i - 3..i
        invariant
            3 <= i <= raw@.len(),
            forall|j: int|
                i - 3 <= j < k ==> !is_blank(#[trigger] raw@[j]) && raw@[j] != 10 && raw@[j] != 61,
    {
        let byte = raw[k];
        if is_blank_byte(byte) || byte == 10 || byte == 61 {
            assert(is_blank(raw@[k as int]) || raw@[k as int] == 10 || raw@[k as int] == 61);
            return false;
        }
    }
    true
}

/// Tests whether a soft line break before dashes starts at a position.
fn breaks_at(raw: &[u8], i: usize) -> (answer: bool)
    requires
        i < raw@.len(),
    ensures
        answer == exists|j: int| breaks_before_dashes(raw@, i as int, j),
{
    if raw[i] != 61 {
        return false;
    }
    let len = raw.len();
    let mut j: usize = i + 1;
    while j < len && is_blank_byte(raw[j])
        invariant
            len == raw@.len(),
            i < j <= len,
            forall|k: int| i < k < j ==> is_blank(#[trigger] raw@[k]),
        decreases len - j,
    {
        j = j + 1;
    }
    let answer = len - j > 2 && raw[j] == 10 && raw[j + 1] == 45 && raw[j + 2] == 45;
    proof {
        if answer {
            assert(breaks_before_dashes(raw@, i as int, j as int));
        } else {
            assert forall|end: int| !breaks_before_dashes(raw@, i as int, end) by {
                if breaks_before_dashes(raw@, i as int, end) {
                    if end < j {
                        assert(is_blank(raw@[end]));
                    } else if end > j {
                        assert(is_blank(raw@[j as int]));
                    }
                }
            }
        }
    }
    answer
}

/// Tests all soft line breaks.
fn has_solid_breaks(raw: &[u8]) -> (answer: bool)
    ensures
        answer == breaks_are_solid(raw@),
{
    for i in 0..raw.len()
        invariant
            forall|k: int, j: int|
                k < i && #[trigger] breaks_before_dashes(raw@, k, j) ==> is_solid_before(raw@, k),
    {
        if breaks_at(raw, i) && !is_solid(raw, i) {
            proof {
                let j = choose|j: int| breaks_before_dashes(raw@, i as int, j);
                assert(breaks_before_dashes(raw@, i as int, j) && !is_solid_before(raw@, i as int));
            }
            return false;
        }
    }
    true
}

// ------------------------------------------------------------ message parts

/// Whether `byte` is skipped between the slash of a content type and the subtype.
pub open spec fn is_skipped(byte: u8) -> bool {
    byte == ' ' as u8 || byte == '\t' as u8 || byte == '\r' as u8 || byte == '"' as u8 || byte
        == '\\' as u8
}

/// Whether a subtype may start at `i`: behind a slash, or the end of a comment, at `j`.
pub open spec fn is_subtype_start(raw: Seq<u8>, j: int, i: int) -> bool {
    &&& 0 <= j < i <= raw.len()
    &&& raw[j] == '/' as u8 || raw[j] == ')' as u8
    &&& forall|k: int| j < k < i ==> is_skipped(#[trigger] raw[k])
}

/// Whether a content type that makes a part a message, or makes messages of the parts within, may
/// have its subtype at `i`.
pub open spec fn names_message_at(raw: Seq<u8>, i: int) -> bool {
    &&& holds_at(raw, i, "rfc822"@) || holds_at(raw, i, "global"@) || holds_at(raw, i, "digest"@)
    &&& exists|j: int| is_subtype_start(raw, j, i)
}

/// Whether `raw` may hold a part with a transfer encoding. An encoded word may spell one out too.
pub open spec fn may_hold_encoded_part(raw: Seq<u8>) -> bool {
    holds(raw, "base64"@) || holds(raw, "quoted-printable"@) || holds(raw, "=?"@)
}

/// Whether the message parts of `raw` are harmless: there is one content type of the kind at most,
/// so that no message stands right within another, and with one no part is encoded. The parser
/// loses track of messages within messages, and an encoded message can hold anything once decoded.
pub open spec fn messages_are_plain(raw: Seq<u8>) -> bool {
    &&& forall|i: int, j: int| #[trigger]
        names_message_at(raw, i) && #[trigger] names_message_at(raw, j) ==> i == j
    &&& (exists|i: int| names_message_at(raw, i)) ==> !may_hold_encoded_part(raw)
}

/// Tests whether a subtype may start at a position.
fn can_start_subtype(raw: &[u8], i: usize) -> (answer: bool)
    requires
        i <= raw@.len(),
    ensures
        answer == exists|j: int| is_subtype_start(raw@, j, i as int),
{
    let mut j: usize = i;
    while j > 0
        invariant
            j <= i <= raw@.len(),
            forall|k: int| j <= k < i ==> is_skipped(#[trigger] raw@[k]),
        decreases j,
    {
        let byte = raw[j - 1];
        if byte == 47 || byte == 41 {
            assert(is_subtype_start(raw@, j - 1, i as int));
            return true;
        }
        if !(byte == 32 || byte == 9 || byte == 13 || byte == 34 || byte == 92) {
            assert forall|start: int| !is_subtype_start(raw@, start, i as int) by {
                if is_subtype_start(raw@, start, i as int) {
                    if start < j - 1 {
                        assert(is_skipped(raw@[j - 1]));
                    } else if start >= j {
                        assert(is_skipped(raw@[start]));
                    }
                }
            }
            return false;
        }
        j = j - 1;
    }
    assert forall|start: int| !is_subtype_start(raw@, start, i as int) by {
        if is_subtype_start(raw@, start, i as int) {
            assert(is_skipped(raw@[start]));
        }
    }
    false
}

/// Tests a position for the subtype of a message.
fn can_name_message(raw: &[u8], i: usize) -> (answer: bool)
    requires
        i <= raw@.len(),
    ensures
        answer == names_message_at(raw@, i as int),
{
    (is_word_at(raw, i, "rfc822") || is_word_at(raw, i, "global") || is_word_at(raw, i, "digest"))
        && can_start_subtype(raw, i)
}

/// Tests all message parts.
fn has_plain_messages(raw: &[u8]) -> (answer: bool)
    ensures
        answer == messages_are_plain(raw@),
{
    let mut found: Option<usize> = None;
    for i in 0..raw.len()
        invariant
            match found {
                Some(k) => k < i && names_message_at(raw@, k as int) && forall|j: int|
                    #![trigger names_message_at(raw@, j)]
                    j < i && names_message_at(raw@, j) ==> j == k,
                None => forall|j: int| j < i ==> !#[trigger] names_message_at(raw@, j),
            },
    {
        if can_name_message(raw, i) {
            if let Some(k) = found {
                assert(names_message_at(raw@, i as int) && names_message_at(raw@, k as int));
                return false;
            }
            found = Some(i);
        }
    }
    proof {
        reveal_strlit("rfc822");
        reveal_strlit("global");
        reveal_strlit("digest");
        assert forall|j: int| #[trigger] names_message_at(raw@, j) implies j < raw@.len() by {}
    }
    match found {
        Some(_) => !(has_word(raw, "base64") || has_word(raw, "quoted-printable") || has_word(
            raw,
            "=?",
        )),
        None => true,
    }
}

// ------------------------------------------------------------------- bodies

/// Whether the parser gets through `raw` with the minimal set of headers. The length bound is that
/// of its counters.
pub open spec fn is_readable(raw: Seq<u8>) -> bool {
    &&& raw.len() <= 0x7fff_ffff
    &&& breaks_are_solid(raw)
    &&& messages_are_plain(raw)
}

/// Whether the parser gets through `raw` with the default settings: the time zone in a `Received`
/// header must not be the least number there is, whose absolute value is none.
pub open spec fn is_parsable(raw: Seq<u8>) -> bool {
    is_readable(raw) && !holds(raw, "9223372036854775808"@)
}

/// Tests [`is_readable`].
pub fn can_be_read(raw: &[u8]) -> (answer: bool)
    ensures
        answer == is_readable(raw@),
{
    raw.len() <= 0x7fff_ffff && has_solid_breaks(raw) && has_plain_messages(raw)
}

/// Tests [`is_parsable`].
pub fn can_be_parsed(raw: &[u8]) -> (answer: bool)
    ensures
        answer == is_parsable(raw@),
{
    can_be_read(raw) && !has_word(raw, "9223372036854775808")
}

// --------------------------------------------------------------------- laws

/// Whether the bytes of `part` spell `word`, in whatever case.
pub open spec fn spells(part: Seq<u8>, word: Seq<char>) -> bool {
    part.len() == word.len() && forall|k: int|
        0 <= k < part.len() ==> word[k] as int == #[trigger] part[k] || (65 <= part[k] <= 90
            && word[k] as int == part[k] + 32)
}

/// A lower case word stands where the bytes spell it, in whatever case.
pub proof fn law_holds_at(raw: Seq<u8>, i: int, word: Seq<char>)
    requires
        forall|k: int| 0 <= k < word.len() ==> !('A' <= #[trigger] word[k] <= 'Z'),
    ensures
        holds_at(raw, i, word) <==> 0 <= i <= raw.len() - word.len() && spells(
            raw.subrange(i, i + word.len()),
            word,
        ),
{
    if 0 <= i <= raw.len() - word.len() {
        let part = raw.subrange(i, i + word.len());
        assert forall|k: int| 0 <= k < word.len() implies part[k] == raw[i + k] by {}
        if holds_at(raw, i, word) {
            assert forall|k: int| 0 <= k < part.len() implies word[k] as int == #[trigger] part[k]
                || (65 <= part[k] <= 90 && word[k] as int == part[k] + 32) by {
                assert(word[k] == lower(raw[i + k]) as char);
            }
        }
        if spells(part, word) {
            assert forall|k: int| 0 <= k < word.len() implies #[trigger] word[k] == lower(
                raw[i + k],
            ) as char by {
                assert(word[k] as int == part[k] || (65 <= part[k] <= 90 && word[k] as int
                    == part[k] + 32));
            }
        }
    }
}

/// A word is held where it stands at some position.
pub proof fn law_holds(raw: Seq<u8>, word: Seq<char>)
    requires
        forall|k: int| 0 <= k < word.len() ==> !('A' <= #[trigger] word[k] <= 'Z'),
    ensures
        holds(raw, word) <==> exists|i: int|
            0 <= i <= raw.len() - word.len() && spells(
                #[trigger] raw.subrange(i, i + word.len()),
                word,
            ),
{
    if holds(raw, word) {
        let i = choose|i: int| holds_at(raw, i, word);
        law_holds_at(raw, i, word);
    }
    if exists|i: int|
        0 <= i <= raw.len() - word.len() && spells(
            #[trigger] raw.subrange(i, i + word.len()),
            word,
        ) {
        let i = choose|i: int|
            0 <= i <= raw.len() - word.len() && spells(
                #[trigger] raw.subrange(i, i + word.len()),
                word,
            );
        law_holds_at(raw, i, word);
    }
}

/// A body with a `=`, blanks, a newline and two dashes is let through only where the three bytes before
/// the `=` are neither white space nor `=`.
pub proof fn law_loose_break_is_left_out(
    before: Seq<u8>,
    blanks: Seq<u8>,
    after: Seq<u8>,
)
    requires
        forall|k: int|
            0 <= k < blanks.len() ==> #[trigger] blanks[k] == 32 || blanks[k] == 9 || blanks[k] == 12
                || blanks[k] == 13,
        breaks_are_solid(before + seq![61u8] + blanks + seq![10u8, 45, 45] + after),
    ensures
        before.len() >= 3,
        forall|k: int|
            before.len() - 3 <= k < before.len() ==> #[trigger] before[k] != 32 && before[k] != 9
                && before[k] != 10 && before[k] != 12 && before[k] != 13 && before[k] != 61,
{
    let raw = before + seq![61u8] + blanks + seq![10u8, 45, 45] + after;
    let i = before.len() as int;
    let j = i + 1 + blanks.len();
    assert forall|k: int| i < k < j implies is_blank(#[trigger] raw[k]) by {
        assert(raw[k] == blanks[k - i - 1]);
    }
    assert(breaks_before_dashes(raw, i, j));
    assert forall|k: int| i - 3 <= k < i implies #[trigger] before[k] != 32 && before[k] != 9
        && before[k] != 10 && before[k] != 12 && before[k] != 13 && before[k] != 61 by {
        assert(raw[k] == before[k]);
    }
}

/// Bodies are left out for their breaks only where one starts with such a `=`.
pub proof fn law_solid_breaks_are_let_through(raw: Seq<u8>)
    requires
        forall|i: int, j: int|
            #![trigger raw[i], raw.subrange(j, j + 3)]
            0 <= i < j < raw.len() - 2 && raw[i] == 61 && raw.subrange(j, j + 3) == seq![
                10u8,
                45,
                45,
            ] && (forall|k: int|
                i < k < j ==> #[trigger] raw[k] == 32 || raw[k] == 9 || raw[k] == 12 || raw[k]
                    == 13) ==> i >= 3 && forall|k: int|
                i - 3 <= k < i ==> #[trigger] raw[k] != 32 && raw[k] != 9 && raw[k] != 10 && raw[k]
                    != 12 && raw[k] != 13 && raw[k] != 61,
    ensures
        breaks_are_solid(raw),
{
    assert forall|i: int, j: int| #[trigger] breaks_before_dashes(raw, i, j) implies is_solid_before(
        raw,
        i,
    ) by {
        assert(raw.subrange(j, j + 3) =~= seq![10u8, 45, 45]);
        assert forall|k: int| i < k < j implies #[trigger] raw[k] == 32 || raw[k] == 9 || raw[k]
            == 12 || raw[k] == 13 by {
            assert(is_blank(raw[k]));
        }
    }
}

/// The subtypes, character by character.
proof fn lemma_message_words()
    ensures
        "rfc822"@ == seq!['r', 'f', 'c', '8', '2', '2'],
        "global"@ == seq!['g', 'l', 'o', 'b', 'a', 'l'],
        "digest"@ == seq!['d', 'i', 'g', 'e', 's', 't'],
{
    reveal_strlit("rfc822");
    reveal_strlit("global");
    reveal_strlit("digest");
    assert("rfc822"@ =~= seq!['r', 'f', 'c', '8', '2', '2']);
    assert("global"@ =~= seq!['g', 'l', 'o', 'b', 'a', 'l']);
    assert("digest"@ =~= seq!['d', 'i', 'g', 'e', 's', 't']);
}

/// A message subtype counts where it is spelled, in whatever case, behind a slash or the end of a
/// comment, with nothing but blanks, carriage returns, quotes and backslashes in between.
pub proof fn law_names_message_at(raw: Seq<u8>, i: int)
    ensures
        names_message_at(raw, i) <==> {
            &&& 0 <= i <= raw.len() - 6
            &&& spells(raw.subrange(i, i + 6), seq!['r', 'f', 'c', '8', '2', '2']) || spells(
                raw.subrange(i, i + 6),
                seq!['g', 'l', 'o', 'b', 'a', 'l'],
            ) || spells(raw.subrange(i, i + 6), seq!['d', 'i', 'g', 'e', 's', 't'])
            &&& exists|j: int|
                0 <= j < i && (#[trigger] raw[j] == 47 || raw[j] == 41) && forall|k: int|
                    j < k < i ==> #[trigger] raw[k] == 32 || raw[k] == 9 || raw[k] == 13 || raw[k]
                        == 34 || raw[k] == 92
        },
{
    lemma_message_words();
    law_holds_at(raw, i, "rfc822"@);
    law_holds_at(raw, i, "global"@);
    law_holds_at(raw, i, "digest"@);
    if names_message_at(raw, i) {
        let j = choose|j: int| is_subtype_start(raw, j, i);
        assert(raw[j] == 47 || raw[j] == 41);
        assert forall|k: int| j < k < i implies #[trigger] raw[k] == 32 || raw[k] == 9 || raw[k]
            == 13 || raw[k] == 34 || raw[k] == 92 by {
            assert(is_skipped(raw[k]));
        }
    }
    if 0 <= i <= raw.len() && exists|j: int|
        0 <= j < i && (#[trigger] raw[j] == 47 || raw[j] == 41) && forall|k: int|
            j < k < i ==> #[trigger] raw[k] == 32 || raw[k] == 9 || raw[k] == 13 || raw[k] == 34
                || raw[k] == 92 {
        let j = choose|j: int|
            0 <= j < i && (#[trigger] raw[j] == 47 || raw[j] == 41) && forall|k: int|
                j < k < i ==> #[trigger] raw[k] == 32 || raw[k] == 9 || raw[k] == 13 || raw[k]
                    == 34 || raw[k] == 92;
        assert(is_subtype_start(raw, j, i));
    }
}

/// A body with two message subtypes is left out, and so is one with such a subtype that holds the
/// name of a transfer encoding or the start of an encoded word anywhere.
pub proof fn law_risky_messages_are_left_out(raw: Seq<u8>, i: int, j: int)
    requires
        names_message_at(raw, i),
    ensures
        names_message_at(raw, j) && i != j ==> !messages_are_plain(raw),
        holds(raw, "base64"@) || holds(raw, "quoted-printable"@) || holds(raw, "=?"@)
            ==> !messages_are_plain(raw),
{
}

/// A body without a message subtype is let through on that account, and so is one with a single
/// message subtype that holds no name of a transfer encoding and no start of an encoded word.
pub proof fn law_plain_messages_are_let_through(raw: Seq<u8>, i: int)
    requires
        forall|j: int| #[trigger] names_message_at(raw, j) ==> j == i,
        names_message_at(raw, i) ==> !holds(raw, "base64"@) && !holds(raw, "quoted-printable"@)
            && !holds(raw, "=?"@),
    ensures
        messages_are_plain(raw),
{
}

/// A body can be read where its length, its breaks and its messages allow, and parsed where it also
/// does not hold the digits of the least number.
pub proof fn law_bodies(raw: Seq<u8>)
    ensures
        is_readable(raw) <==> raw.len() < 0x8000_0000 && breaks_are_solid(raw) && messages_are_plain(
            raw,
        ),
        is_parsable(raw) <==> raw.len() < 0x8000_0000 && breaks_are_solid(raw) && messages_are_plain(
            raw,
        ) && !holds(raw, "9223372036854775808"@),
{
}

} // verus!
