//! Text in the form the Maildir naming rules need it: splitting on the last
//! occurrence of a separator, and positional notation of numbers.

use vstd::prelude::*;
use vstd::string::*;

verus! {

// ---------------------------------------------------------------- splitting

/// Position of the last `c` in `s`, or `-1` when `s` holds none.
pub open spec fn last_index(s: Seq<char>, c: char) -> int
    decreases s.len(),
{
    if s.len() == 0 {
        -1
    } else if s.last() == c {
        s.len() - 1
    } else {
        last_index(s.drop_last(), c)
    }
}

/// What stands before and after the last `c` in `s`.
pub open spec fn rsplit(s: Seq<char>, c: char) -> Option<(Seq<char>, Seq<char>)> {
    let i = last_index(s, c);
    if i < 0 {
        None
    } else {
        Some((s.take(i), s.skip(i + 1)))
    }
}

/// `last_index` points at a `c` behind which no other stands, or is `-1` when there is none.
pub proof fn lemma_last_index(s: Seq<char>, c: char)
    ensures
        -1 <= last_index(s, c) < s.len(),
        last_index(s, c) >= 0 ==> s[last_index(s, c)] == c,
        forall|j: int| last_index(s, c) < j < s.len() ==> s[j] != c,
    decreases s.len(),
{
    if s.len() != 0 && s.last() != c {
        lemma_last_index(s.drop_last(), c);
        assert forall|j: int| last_index(s, c) < j < s.len() implies s[j] != c by {
            if j < s.len() - 1 {
                assert(s.drop_last()[j] == s[j]);
            }
        }
    }
}

/// The position of a `c` behind which no other stands is `last_index`.
pub proof fn lemma_last_index_is(s: Seq<char>, c: char, i: int)
    requires
        -1 <= i < s.len(),
        i >= 0 ==> s[i] == c,
        forall|j: int| i < j < s.len() ==> s[j] != c,
    ensures
        last_index(s, c) == i,
{
    lemma_last_index(s, c);
    let k = last_index(s, c);
    if k < i {
        assert(s[i] != c);
    }
    if k > i {
        assert(s[k] != c);
    }
}

/// Splitting undoes joining around a separator that the right-hand part does not hold.
pub proof fn lemma_rsplit_of_joined(a: Seq<char>, c: char, b: Seq<char>)
    requires
        !b.contains(c),
    ensures
        rsplit(a + seq![c] + b, c) == Some((a, b)),
{
    let s = a + seq![c] + b;
    let i = a.len() as int;
    assert forall|j: int| i < j < s.len() implies s[j] != c by {
        assert(s[j] == b[j - i - 1]);
    }
    assert(s[i] == c);
    lemma_last_index_is(s, c, i);
    assert(s.take(i) =~= a);
    assert(s.skip(i + 1) =~= b);
}

/// A text without the separator does not split.
pub proof fn lemma_rsplit_none(s: Seq<char>, c: char)
    requires
        !s.contains(c),
    ensures
        rsplit(s, c) is None,
{
    lemma_last_index_is(s, c, -1);
}

/// Texts joined around a separator that neither left-hand part holds agree in both parts.
pub proof fn lemma_joined_parts(
    a1: Seq<char>,
    b1: Seq<char>,
    a2: Seq<char>,
    b2: Seq<char>,
    c: char,
)
    requires
        !a1.contains(c),
        !a2.contains(c),
        a1 + seq![c] + b1 == a2 + seq![c] + b2,
    ensures
        a1 == a2,
        b1 == b2,
{
    let s = a1 + seq![c] + b1;
    let t = a2 + seq![c] + b2;
    assert(s[a1.len() as int] == c);
    assert(t[a2.len() as int] == c);
    if a1.len() < a2.len() {
        assert(t[a1.len() as int] == a2[a1.len() as int]);
        assert(a2.contains(c));
    }
    if a2.len() < a1.len() {
        assert(s[a2.len() as int] == a1[a2.len() as int]);
        assert(a1.contains(c));
    }
    assert(s.take(a1.len() as int) =~= a1);
    assert(t.take(a2.len() as int) =~= a2);
    assert(s.skip(a1.len() + 1int) =~= b1);
    assert(t.skip(a2.len() + 1int) =~= b2);
}

/// Splits `s` around its last `c`.
pub fn rsplit_once<'a>(s: &'a str, c: char) -> (parts: Option<(&'a str, &'a str)>)
    ensures
        match parts {
            Some((before, after)) => rsplit(s@, c) == Some((before@, after@)),
            None => rsplit(s@, c) is None,
        },
{
    let len = s.unicode_len();
    let mut found: Option<usize> = None;
    let mut i: usize = 0;
    for ch in it: s.chars()
        invariant
            i == it.index(),
            it.seq() == s@,
            len == s@.len(),
            match found {
                Some(k) => k < i && s@[k as int] == c && forall|j: int| k < j < i ==> s@[j] != c,
                None => forall|j: int| 0 <= j < i ==> s@[j] != c,
            },
    {
        if ch == c {
            found = Some(i);
        }
        i = i + 1;
    }
    match found {
        Some(k) => {
            proof {
                lemma_last_index_is(s@, c, k as int);
                assert(s@.take(k as int) =~= s@.subrange(0, k as int));
                assert(s@.skip(k + 1) =~= s@.subrange(k + 1, len as int));
            }
            Some((s.substring_char(0, k), s.substring_char(k + 1, len)))
        },
        None => {
            proof {
                lemma_last_index_is(s@, c, -1);
            }
            None
        },
    }
}

/// Moves the text out, leaving the empty one in its place.
pub fn take(s: &mut String) -> (taken: String)
    ensures
        taken == *old(s),
        final(s)@ == Seq::<char>::empty(),
{
    let mut taken = String::new();
    core::mem::swap(&mut taken, s);
    taken
}

// ------------------------------------------------------------------ numbers

/// The lower-case digit of value `d`, for `0 <= d < 16`.
pub open spec fn digit(d: int) -> char {
    seq!['0', '1', '2', '3', '4', '5', '6', '7', '8', '9', 'a', 'b', 'c', 'd', 'e', 'f'][d]
}

/// Shortest positional notation of `n` in `base`, most significant digit first.
pub open spec fn digits(n: nat, base: nat) -> Seq<char>
    decreases n,
{
    if base < 2 || n < base {
        seq![digit(n as int)]
    } else {
        proof {
            vstd::arithmetic::div_mod::lemma_div_decreases(n as int, base as int);
        }
        digits(n / base, base).push(digit((n % base) as int))
    }
}

/// Digits of different value differ, and every one is a decimal figure or one of `a` to `f`.
pub proof fn lemma_digit(d: int)
    requires
        0 <= d < 16,
    ensures
        '0' <= digit(d) <= '9' || 'a' <= digit(d) <= 'f',
        d < 10 ==> '0' <= digit(d) <= '9',
        forall|e: int| 0 <= e < 16 && digit(e) == digit(d) ==> e == d,
{
}

/// Notation in base 10 or 16 consists of lower-case digits only.
pub proof fn lemma_digits_alphabet(n: nat, base: nat)
    requires
        2 <= base <= 16,
    ensures
        digits(n, base).len() > 0,
        forall|i: int| #![trigger digits(n, base)[i]]
            0 <= i < digits(n, base).len() ==> {
                let c = digits(n, base)[i];
                '0' <= c <= '9' || 'a' <= c <= 'f'
            },
    decreases n,
{
    if n < base {
        lemma_digit(n as int);
    } else {
        vstd::arithmetic::div_mod::lemma_div_decreases(n as int, base as int);
        lemma_digits_alphabet(n / base, base);
        lemma_digit((n % base) as int);
    }
}

/// A character that is no lower-case digit does not occur in the notation of a number.
pub proof fn lemma_digits_free_of(n: nat, base: nat, c: char)
    requires
        2 <= base <= 16,
        !('0' <= c <= '9'),
        !('a' <= c <= 'f'),
    ensures
        !digits(n, base).contains(c),
{
    lemma_digits_alphabet(n, base);
}

/// Different numbers have different notations.
pub proof fn lemma_digits_injective(m: nat, n: nat, base: nat)
    requires
        2 <= base <= 16,
        digits(m, base) == digits(n, base),
    ensures
        m == n,
    decreases m,
{
    let s = digits(m, base);
    let t = digits(n, base);
    if m < base && n < base {
        assert(s[0] == digit(m as int));
        assert(t[0] == digit(n as int));
        lemma_digit(m as int);
    } else if m < base {
        lemma_digits_alphabet(n / base, base);
        assert(t.len() >= 2);
    } else if n < base {
        lemma_digits_alphabet(m / base, base);
        assert(s.len() >= 2);
    } else {
        assert(s.drop_last() =~= digits(m / base, base));
        assert(t.drop_last() =~= digits(n / base, base));
        vstd::arithmetic::div_mod::lemma_div_decreases(m as int, base as int);
        lemma_digits_injective(m / base, n / base, base);
        assert(s.last() == digit((m % base) as int));
        assert(t.last() == digit((n % base) as int));
        lemma_digit((m % base) as int);
        assert(m % base == n % base);
        vstd::arithmetic::div_mod::lemma_fundamental_div_mod(m as int, base as int);
        vstd::arithmetic::div_mod::lemma_fundamental_div_mod(n as int, base as int);
    }
}

/// The digit of value `d` as text.
fn digit_text(d: u64) -> (text: &'static str)
    requires
        d < 16,
    ensures
        text@ == seq![digit(d as int)],
{
    proof {
        reveal_strlit("0");
        reveal_strlit("1");
        reveal_strlit("2");
        reveal_strlit("3");
        reveal_strlit("4");
        reveal_strlit("5");
        reveal_strlit("6");
        reveal_strlit("7");
        reveal_strlit("8");
        reveal_strlit("9");
        reveal_strlit("a");
        reveal_strlit("b");
        reveal_strlit("c");
        reveal_strlit("d");
        reveal_strlit("e");
        reveal_strlit("f");
    }
    if d == 0 {
        "0"
    } else if d == 1 {
        "1"
    } else if d == 2 {
        "2"
    } else if d == 3 {
        "3"
    } else if d == 4 {
        "4"
    } else if d == 5 {
        "5"
    } else if d == 6 {
        "6"
    } else if d == 7 {
        "7"
    } else if d == 8 {
        "8"
    } else if d == 9 {
        "9"
    } else if d == 10 {
        "a"
    } else if d == 11 {
        "b"
    } else if d == 12 {
        "c"
    } else if d == 13 {
        "d"
    } else if d == 14 {
        "e"
    } else {
        "f"
    }
}

/// Appends the notation of `n` in `base` to `out`.
pub fn push_digits(out: &mut String, n: u64, base: u64)
    requires
        2 <= base <= 16,
    ensures
        final(out)@ == old(out)@ + digits(n as nat, base as nat),
    decreases n,
{
    if n >= base {
        assert(n / base < n) by (nonlinear_arith)
            requires
                n >= base,
                base >= 2,
        ;
        push_digits(out, n / base, base);
    }
    assert(n % base < base) by (nonlinear_arith)
        requires
            base >= 2,
    ;
    out.append(digit_text(n % base));
    proof {
        if n < base {
            assert(n % base == n) by (nonlinear_arith)
                requires
                    n < base,
            ;
        }
        assert(out@ =~= old(out)@ + digits(n as nat, base as nat));
    }
}

// ------------------------------------------------------------------ ordering

/// Lexicographic order by code point.
pub open spec fn less(a: Seq<char>, b: Seq<char>) -> bool
    decreases a.len(),
{
    if b.len() == 0 {
        false
    } else if a.len() == 0 {
        true
    } else if a[0] == b[0] {
        less(a.drop_first(), b.drop_first())
    } else {
        a[0] < b[0]
    }
}

/// No text precedes itself.
pub proof fn lemma_less_irreflexive(a: Seq<char>)
    ensures
        !less(a, a),
    decreases a.len(),
{
    if a.len() > 0 {
        lemma_less_irreflexive(a.drop_first());
    }
}

/// What precedes a predecessor precedes.
pub proof fn lemma_less_transitive(a: Seq<char>, b: Seq<char>, c: Seq<char>)
    requires
        less(a, b),
        less(b, c),
    ensures
        less(a, c),
    decreases a.len(),
{
    if a.len() > 0 && a[0] == b[0] && b[0] == c[0] {
        lemma_less_transitive(a.drop_first(), b.drop_first(), c.drop_first());
    }
}

/// Of two different texts one precedes the other.
pub proof fn lemma_less_total(a: Seq<char>, b: Seq<char>)
    ensures
        a == b || less(a, b) || less(b, a),
    decreases a.len(),
{
    if a.len() == 0 {
        if b.len() == 0 {
            assert(a =~= b);
        }
    } else if b.len() > 0 && a[0] == b[0] {
        lemma_less_total(a.drop_first(), b.drop_first());
        if a.drop_first() == b.drop_first() {
            assert(a =~= seq![a[0]] + a.drop_first());
            assert(b =~= seq![b[0]] + b.drop_first());
        }
    }
}

/// Whether `a` precedes `b`.
pub fn precedes(a: &str, b: &str) -> (answer: bool)
    ensures
        answer == less(a@, b@),
{
    let mut left = b.unicode_len();
    let mut xs = a.chars();
    let mut ys = b.chars();
    loop
        invariant
            less(a@, b@) == less(
                vstd::std_specs::iter::IteratorSpec::remaining(&xs),
                vstd::std_specs::iter::IteratorSpec::remaining(&ys),
            ),
            vstd::std_specs::iter::IteratorSpec::remaining(&ys).len() == left,
        decreases left,
    {
        match (xs.next(), ys.next()) {
            (_, None) => {
                return false;
            },
            (None, Some(_)) => {
                return true;
            },
            (Some(x), Some(y)) => {
                if x != y {
                    return x < y;
                }
                left = left - 1;
            },
        }
    }
}

/// Whether `a` and `b` are the same text.
pub fn same(a: &str, b: &str) -> (answer: bool)
    ensures
        answer == (a@ == b@),
{
    proof {
        lemma_less_total(a@, b@);
        lemma_less_irreflexive(a@);
    }
    !precedes(a, b) && !precedes(b, a)
}

// --------------------------------------------------------------------- laws

/// A text splits into two parts exactly where it consists of them with the separator in between, and
/// the second part holds no separator.
pub proof fn law_rsplit(s: Seq<char>, c: char, before: Seq<char>, after: Seq<char>)
    ensures
        rsplit(s, c) == Some((before, after)) <==> s == before + seq![c] + after
            && !after.contains(c),
{
    lemma_last_index(s, c);
    let i = last_index(s, c);
    if rsplit(s, c) == Some((before, after)) {
        assert(s =~= before + seq![c] + after);
        assert forall|j: int| 0 <= j < after.len() implies after[j] != c by {
            assert(after[j] == s[i + 1 + j]);
        }
    }
    if s == before + seq![c] + after && !after.contains(c) {
        lemma_rsplit_of_joined(before, c, after);
    }
}

/// A text does not split exactly where it holds no separator.
pub proof fn law_rsplit_none(s: Seq<char>, c: char)
    ensures
        rsplit(s, c) is None <==> !s.contains(c),
{
    lemma_last_index(s, c);
    if !s.contains(c) {
        lemma_rsplit_none(s, c);
    }
}

/// The value of a lower-case digit, `-1` for any other character.
pub open spec fn digit_value(c: char) -> int {
    if '0' <= c <= '9' {
        c as int - '0' as int
    } else if 'a' <= c <= 'f' {
        c as int - 'a' as int + 10
    } else {
        -1
    }
}

/// The number that a text of digits stands for in `base`.
pub open spec fn value(s: Seq<char>, base: nat) -> int
    decreases s.len(),
{
    if s.len() == 0 {
        0
    } else {
        value(s.drop_last(), base) * base + digit_value(s.last())
    }
}

/// Whether `s` is a number written in `base`: lower-case digits of that base only, and no needless
/// zero in front.
pub open spec fn is_numeral(s: Seq<char>, base: nat) -> bool {
    &&& s.len() > 0
    &&& forall|i: int| 0 <= i < s.len() ==> 0 <= digit_value(#[trigger] s[i]) < base
    &&& s.len() > 1 ==> s[0] != '0'
}

/// The notation of a number is a numeral, and its value is that number.
pub proof fn law_digits_read_back(n: nat, base: nat)
    requires
        2 <= base <= 16,
    ensures
        is_numeral(digits(n, base), base),
        value(digits(n, base), base) == n,
        n > 0 ==> digits(n, base)[0] != '0',
    decreases n,
{
    let s = digits(n, base);
    if n < base {
        let front = s.drop_last();
        assert(value(front, base) == 0);
        assert(value(front, base) * base == 0) by (nonlinear_arith)
            requires
                value(front, base) == 0,
        ;
        assert(digit_value(digit(n as int)) == n);
    } else {
        vstd::arithmetic::div_mod::lemma_div_decreases(n as int, base as int);
        vstd::arithmetic::div_mod::lemma_fundamental_div_mod(n as int, base as int);
        law_digits_read_back(n / base, base);
        let front = digits(n / base, base);
        let last = digit((n % base) as int);
        assert(digit_value(last) == n % base);
        assert(s.drop_last() =~= front);
        assert(s[0] == front[0]);
        assert forall|i: int| 0 <= i < s.len() implies 0 <= digit_value(#[trigger] s[i]) < base by {
            if i < front.len() {
                assert(s[i] == front[i]);
            }
        }
        assert(n / base > 0) by (nonlinear_arith)
            requires
                n >= base,
                base >= 2,
        ;
        assert((n / base) * base == base * (n / base)) by (nonlinear_arith);
    }
}

/// A text precedes another exactly where it is a shorter beginning of it, or has the smaller
/// character at the first place where they differ.
pub proof fn law_less(a: Seq<char>, b: Seq<char>)
    ensures
        less(a, b) <==> exists|k: int|
            0 <= k <= a.len() && k < b.len() && #[trigger] a.take(k) == b.take(k) && (k == a.len()
                || a[k] < b[k]),
    decreases a.len(),
{
    if a.len() > 0 && b.len() > 0 && a[0] == b[0] {
        let x = a.drop_first();
        let y = b.drop_first();
        law_less(x, y);
        if less(a, b) {
            let k = choose|k: int|
                0 <= k <= x.len() && k < y.len() && #[trigger] x.take(k) == y.take(k) && (k
                    == x.len() || x[k] < y[k]);
            assert(a.take(k + 1) =~= seq![a[0]] + x.take(k));
            assert(b.take(k + 1) =~= seq![b[0]] + y.take(k));
        }
        if exists|k: int|
            0 <= k <= a.len() && k < b.len() && #[trigger] a.take(k) == b.take(k) && (k == a.len()
                || a[k] < b[k]) {
            let k = choose|k: int|
                0 <= k <= a.len() && k < b.len() && #[trigger] a.take(k) == b.take(k) && (k
                    == a.len() || a[k] < b[k]);
            assert(k > 0);
            assert(x.take(k - 1) =~= a.take(k).drop_first());
            assert(y.take(k - 1) =~= b.take(k).drop_first());
        }
    } else {
        assert(a.take(0) =~= b.take(0));
        if a.len() > 0 && b.len() > 0 {
            assert forall|k: int|
                0 < k <= a.len() && k < b.len() implies #[trigger] a.take(k) != b.take(k) by {
                assert(a.take(k)[0] == a[0]);
                assert(b.take(k)[0] == b[0]);
            }
        }
    }
}

} // verus!
