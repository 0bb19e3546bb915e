//! Text-level primitives: decimal digits, rendering integers as strings,
//! and parsing digit strings back into integers.

use vstd::prelude::*;

verus! {

/// The character for one decimal digit value.
pub open spec fn digit_char(d: int) -> char {
    ((48 + d) as u8) as char
}

/// The numeric value of one decimal digit character.
pub open spec fn digit_val(c: char) -> int {
    c as int - 48
}

/// Whether a character is a decimal digit.
pub open spec fn is_digit(c: char) -> bool {
    '0' <= c && c <= '9'
}

/// Whether every character of a sequence is a decimal digit.
pub open spec fn is_digits(s: Seq<char>) -> bool {
    forall|i: int| 0 <= i < s.len() ==> is_digit(#[trigger] s[i])
}

/// The decimal rendering of a non-negative integer, most significant digit first.
pub open spec fn dec_digits(n: int) -> Seq<char>
    decreases n,
{
    if n < 10 {
        seq![digit_char(n)]
    } else {
        dec_digits(n / 10) + seq![digit_char(n % 10)]
    }
}

/// The numeric value of a digit sequence, read left to right.
pub open spec fn dec_val(s: Seq<char>) -> int
    decreases s.len(),
{
    if s.len() == 0 {
        0
    } else {
        dec_val(s.drop_last()) * 10 + digit_val(s.last())
    }
}

/// Every character that `dec_digits` produces is a digit.
pub proof fn lemma_dec_digits_are_digits(n: int)
    requires
        0 <= n,
    ensures
        is_digits(dec_digits(n)),
        dec_digits(n).len() >= 1,
    decreases n,
{
    if n < 10 {
        assert(is_digit(digit_char(n)));
    } else {
        lemma_dec_digits_are_digits(n / 10);
        assert(is_digit(digit_char(n % 10)));
    }
}

/// Reading the decimal rendering of `n` back gives `n`.
pub proof fn lemma_dec_val_of_dec_digits(n: int)
    requires
        0 <= n,
    ensures
        dec_val(dec_digits(n)) == n,
    decreases n,
{
    if n < 10 {
        let s = seq![digit_char(n)];
        assert(dec_digits(n) == s);
        assert(s.drop_last() =~= Seq::<char>::empty());
        assert(dec_val(Seq::<char>::empty()) == 0);
        assert(dec_val(s) == dec_val(s.drop_last()) * 10 + digit_val(s.last()));
        assert(digit_val(digit_char(n)) == n);
    } else {
        lemma_dec_val_of_dec_digits(n / 10);
        let s = dec_digits(n);
        assert(s == dec_digits(n / 10) + seq![digit_char(n % 10)]);
        assert(s.drop_last() =~= dec_digits(n / 10));
        assert(s.last() == digit_char(n % 10));
        assert(dec_val(s) == dec_val(s.drop_last()) * 10 + digit_val(s.last()));
        assert(digit_val(digit_char(n % 10)) == n % 10);
        assert(n / 10 * 10 + n % 10 == n);
    }
}

/// A single decimal digit as a string slice.
pub fn digit_str(d: u64) -> (r: &'static str)
    requires
        d < 10,
    ensures
        r@ =~= seq![digit_char(d as int)],
{
    proof {
        reveal_strlit("0");
        reveal_strlit("1");
        reveal_strlit("2");
        reveal_strlit("3");
        reveal_strlit("4");
        reveal_strlit("5");
        reveal_strlit("6");
        reveal_strlit("7");
        reveal_strlit("8");
        reveal_strlit("9");
    }
    match d {
        0 => "0",
        1 => "1",
        2 => "2",
        3 => "3",
        4 => "4",
        5 => "5",
        6 => "6",
        7 => "7",
        8 => "8",
        _ => "9",
    }
}

/// Renders an integer in decimal, most significant digit first.
pub fn u64_to_string(n: u64) -> (r: String)
    ensures
        r@ == dec_digits(n as int),
    decreases n,
{
    if n < 10 {
        let mut s = String::new();
        s.append(digit_str(n));
        assert(s@ =~= dec_digits(n as int));
        s
    } else {
        let mut s = u64_to_string(n / 10);
        s.append(digit_str(n % 10));
        assert(s@ =~= dec_digits(n as int));
        s
    }
}

/// The value of a digit sequence is never negative.
pub proof fn lemma_dec_val_nonneg(s: Seq<char>)
    requires
        is_digits(s),
    ensures
        dec_val(s) >= 0,
    decreases s.len(),
{
    if s.len() > 0 {
        assert(is_digits(s.drop_last()));
        lemma_dec_val_nonneg(s.drop_last());
        assert(digit_val(s.last()) >= 0);
    }
}

/// The value of a prefix of a digit sequence never exceeds the whole value.
pub proof fn lemma_dec_val_prefix(s: Seq<char>, i: int)
    requires
        is_digits(s),
        0 <= i <= s.len(),
    ensures
        dec_val(s.take(i)) <= dec_val(s),
    decreases s.len() - i,
{
    if i == s.len() {
        assert(s.take(i) =~= s);
    } else {
        lemma_dec_val_prefix(s, i + 1);
        assert(s.take(i + 1).drop_last() =~= s.take(i));
        assert(dec_val(s.take(i + 1)) == dec_val(s.take(i)) * 10 + digit_val(s.take(i + 1).last()));
        assert(is_digits(s.take(i)));
        lemma_dec_val_nonneg(s.take(i));
        assert(digit_val(s[i]) >= 0);
    }
}

/// Ten to the `n`.
pub open spec fn pow10(n: nat) -> int
    decreases n,
{
    if n == 0 {
        1
    } else {
        10 * pow10((n - 1) as nat)
    }
}

/// A digit string of length `n` has value below ten to the `n`.
pub proof fn lemma_dec_val_upper(s: Seq<char>)
    requires
        is_digits(s),
    ensures
        dec_val(s) < pow10(s.len()),
    decreases s.len(),
{
    if s.len() == 0 {
    } else {
        assert(is_digits(s.drop_last()));
        lemma_dec_val_upper(s.drop_last());
        assert(digit_val(s.last()) <= 9);
    }
}

/// The first position at or after `from` holding the character `c`, or the length.
pub open spec fn find_eq(s: Seq<char>, from: int, c: char) -> int
    decreases s.len() - from when 0 <= from <= s.len()
{
    if from >= s.len() {
        s.len() as int
    } else if s[from] == c {
        from
    } else {
        find_eq(s, from + 1, c)
    }
}

/// The first position at or after `from` holding a character other than `c`, or the length.
pub open spec fn find_ne(s: Seq<char>, from: int, c: char) -> int
    decreases s.len() - from when 0 <= from <= s.len()
{
    if from >= s.len() {
        s.len() as int
    } else if s[from] != c {
        from
    } else {
        find_ne(s, from + 1, c)
    }
}

/// Characterizes `find_eq` by the scanned prefix.
pub proof fn lemma_find_eq_is(s: Seq<char>, from: int, i: int, c: char)
    requires
        0 <= from <= i <= s.len(),
        forall|j: int| from <= j < i ==> s[j] != c,
        i < s.len() ==> s[i] == c,
    ensures
        find_eq(s, from, c) == i,
    decreases i - from,
{
    if from < i {
        lemma_find_eq_is(s, from + 1, i, c);
    }
}

/// Characterizes `find_ne` by the scanned prefix.
pub proof fn lemma_find_ne_is(s: Seq<char>, from: int, i: int, c: char)
    requires
        0 <= from <= i <= s.len(),
        forall|j: int| from <= j < i ==> s[j] == c,
        i < s.len() ==> s[i] != c,
    ensures
        find_ne(s, from, c) == i,
    decreases i - from,
{
    if from < i {
        lemma_find_ne_is(s, from + 1, i, c);
    }
}

/// Scans for the first occurrence of `c` at or after `from`.
pub fn scan_eq(s: &str, from: usize, c: char) -> (r: usize)
    requires
        from <= s@.len(),
    ensures
        r == find_eq(s@, from as int, c),
        from <= r <= s@.len(),
{
    let n = s.unicode_len();
    let mut i = from;
    while i < n
        invariant
            from <= i <= n,
            n == s@.len(),
            forall|j: int| from <= j < i ==> s@[j] != c,
        decreases n - i,
    {
        if s.get_char(i) == c {
            proof {
                lemma_find_eq_is(s@, from as int, i as int, c);
            }
            return i;
        }
        i += 1;
    }
    proof {
        lemma_find_eq_is(s@, from as int, n as int, c);
    }
    n
}

/// Scans for the first character differing from `c` at or after `from`.
pub fn scan_ne(s: &str, from: usize, c: char) -> (r: usize)
    requires
        from <= s@.len(),
    ensures
        r == find_ne(s@, from as int, c),
        from <= r <= s@.len(),
{
    let n = s.unicode_len();
    let mut i = from;
    while i < n
        invariant
            from <= i <= n,
            n == s@.len(),
            forall|j: int| from <= j < i ==> s@[j] == c,
        decreases n - i,
    {
        if s.get_char(i) != c {
            proof {
                lemma_find_ne_is(s@, from as int, i as int, c);
            }
            return i;
        }
        i += 1;
    }
    proof {
        lemma_find_ne_is(s@, from as int, n as int, c);
    }
    n
}

/// Character-for-character string equality.
pub fn str_eq(a: &str, b: &str) -> (r: bool)
    ensures
        r == (a@ == b@),
{
    let n = a.unicode_len();
    if n != b.unicode_len() {
        return false;
    }
    let mut i: usize = 0;
    while i < n
        invariant
            0 <= i <= n,
            n == a@.len(),
            n == b@.len(),
            forall|j: int| 0 <= j < i ==> a@[j] == b@[j],
        decreases n - i,
    {
        if a.get_char(i) != b.get_char(i) {
            return false;
        }
        i += 1;
    }
    proof {
        assert(a@ =~= b@);
    }
    true
}

/// Whether `p` is a prefix of `s`.
pub open spec fn spec_starts_with(s: Seq<char>, p: Seq<char>) -> bool {
    p.len() <= s.len() && s.take(p.len() as int) == p
}

/// Character-for-character prefix test.
pub fn str_starts_with(s: &str, p: &str) -> (r: bool)
    ensures
        r == spec_starts_with(s@, p@),
{
    let n = s.unicode_len();
    let m = p.unicode_len();
    if m > n {
        assert(!spec_starts_with(s@, p@));
        return false;
    }
    let mut i: usize = 0;
    while i < m
        invariant
            0 <= i <= m <= n,
            n == s@.len(),
            m == p@.len(),
            forall|j: int| 0 <= j < i ==> s@[j] == p@[j],
        decreases m - i,
    {
        if s.get_char(i) != p.get_char(i) {
            assert(s@.take(m as int)[i as int] != p@[i as int]);
            return false;
        }
        i += 1;
    }
    proof {
        assert(s@.take(m as int) =~= p@);
    }
    true
}

/// Parses a non-empty all-digit string as an integer; `None` on any other
/// shape or on a value over `u64::MAX`.
pub fn parse_u64_digits(s: &str) -> (r: Option<u64>)
    ensures
        r == (if is_digits(s@) && s@.len() > 0 && dec_val(s@) <= u64::MAX {
            Some(dec_val(s@) as u64)
        } else {
            None::<u64>
        }),
{
    let n = s.unicode_len();
    if n == 0 {
        return None;
    }
    let mut val: u64 = 0;
    let mut i: usize = 0;
    while i < n
        invariant
            0 <= i <= n,
            n == s@.len(),
            is_digits(s@.take(i as int)),
            val == dec_val(s@.take(i as int)),
        decreases n - i,
    {
        let c = s.get_char(i);
        if c < '0' || c > '9' {
            assert(!is_digit(s@[i as int]));
            return None;
        }
        let d: u64 = (c as u32 as u64) - 48;
        proof {
            assert(s@.take(i + 1).drop_last() =~= s@.take(i as int));
            assert(s@.take(i + 1).last() == s@[i as int]);
            assert(is_digits(s@.take(i + 1)));
        }
        if val > (u64::MAX - d) / 10 {
            proof {
                assert(dec_val(s@.take(i + 1)) == val * 10 + d);
                assert(dec_val(s@.take(i + 1)) > u64::MAX);
                if is_digits(s@) {
                    lemma_dec_val_prefix(s@, i + 1);
                    assert(dec_val(s@) > u64::MAX);
                }
            }
            return None;
        }
        val = val * 10 + d;
        i += 1;
    }
    proof {
        assert(s@.take(n as int) =~= s@);
    }
    Some(val)
}

/// As `parse_u64_digits`, bounded by `u32::MAX`.
pub fn parse_u32_digits(s: &str) -> (r: Option<u32>)
    ensures
        r == (if is_digits(s@) && s@.len() > 0 && dec_val(s@) <= u32::MAX {
            Some(dec_val(s@) as u32)
        } else {
            None::<u32>
        }),
{
    proof {
        if is_digits(s@) && s@.len() > 0 {
            lemma_dec_val_nonneg(s@);
        }
    }
    match parse_u64_digits(s) {
        Some(v) => {
            if v <= u32::MAX as u64 {
                Some(v as u32)
            } else {
                None
            }
        },
        None => None,
    }
}

/// A sequence with every comma removed.
pub open spec fn strip_commas(s: Seq<char>) -> Seq<char>
    decreases s.len(),
{
    if s.len() == 0 {
        Seq::empty()
    } else if s.last() == ',' {
        strip_commas(s.drop_last())
    } else {
        strip_commas(s.drop_last()) + seq![s.last()]
    }
}

/// The numeric reading of an engagement counter: digits with thousands
/// separators stripped; `None` when what remains is not a non-empty digit string.
pub open spec fn count_text_val(s: Seq<char>) -> Option<int> {
    let t = strip_commas(s);
    if is_digits(t) && t.len() > 0 {
        Some(dec_val(t))
    } else {
        None
    }
}

/// Strips commas, keeping every other character in order.
pub fn strip_commas_exec(s: &str) -> (r: String)
    ensures
        r@ == strip_commas(s@),
{
    let n = s.unicode_len();
    let mut out = String::new();
    let mut i: usize = 0;
    while i < n
        invariant
            0 <= i <= n,
            n == s@.len(),
            out@ == strip_commas(s@.take(i as int)),
        decreases n - i,
    {
        let c = s.get_char(i);
        proof {
            assert(s@.take(i + 1).drop_last() =~= s@.take(i as int));
            assert(s@.take(i + 1).last() == s@[i as int]);
        }
        if c != ',' {
            let piece = s.substring_char(i, i + 1);
            assert(piece@ =~= seq![s@[i as int]]);
            out.append(piece);
        }
        i += 1;
    }
    proof {
        assert(s@.take(n as int) =~= s@);
    }
    out
}

/// `count_text_val` clamped to what a counter field can hold.
pub open spec fn count_val_u32(s: Seq<char>) -> Option<u32> {
    match count_text_val(s) {
        Some(v) => if 0 <= v <= u32::MAX {
            Some(v as u32)
        } else {
            None
        },
        None => None,
    }
}

/// Parses a counter with thousands separators; exact on every input shape.
pub fn parse_count(s: &str) -> (r: Option<u32>)
    ensures
        r == count_val_u32(s@),
{
    proof {
        let t = strip_commas(s@);
        if is_digits(t) && t.len() > 0 {
            lemma_dec_val_nonneg(t);
        }
    }
    let t = strip_commas_exec(s);
    parse_u32_digits(t.as_str())
}

/// The visit count a history page renders: `"once"` is 1, `"<n> times"` is n,
/// anything else reads as 0.
pub open spec fn visit_count_val(s: Seq<char>) -> int {
    if s == "once"@ {
        1
    } else if s.len() >= 7 && s.subrange(s.len() - 6, s.len() as int) == " times"@ && is_digits(
        s.take(s.len() - 6),
    ) {
        dec_val(s.take(s.len() - 6))
    } else {
        0
    }
}

/// The text `"once"` reads as one visit.
pub proof fn lemma_visit_once()
    ensures
        visit_count_val("once"@) == 1,
{
}

/// The text `"<n> times"` reads as exactly n visits.
pub proof fn lemma_visit_n_times(n: u32)
    ensures
        visit_count_val(dec_digits(n as int) + " times"@) == n,
{
    reveal_strlit("once");
    reveal_strlit(" times");
    let a = dec_digits(n as int);
    let s = a + " times"@;
    lemma_dec_digits_are_digits(n as int);
    lemma_dec_val_of_dec_digits(n as int);
    assert(s.len() >= 7);
    assert(s != "once"@);
    assert(s.subrange(s.len() - 6, s.len() as int) =~= " times"@);
    assert(s.take(s.len() - 6) =~= a);
}

/// The last position holding the character `c`, or -1.
pub open spec fn rlast_eq(s: Seq<char>, c: char) -> int
    decreases s.len(),
{
    if s.len() == 0 {
        -1
    } else if s.last() == c {
        s.len() - 1
    } else {
        rlast_eq(s.drop_last(), c)
    }
}

/// One scanning step of `rlast_eq`.
pub proof fn lemma_rlast_eq_step(s: Seq<char>, i: int, c: char)
    requires
        0 <= i < s.len(),
    ensures
        rlast_eq(s.take(i + 1), c) == (if s[i] == c {
            i
        } else {
            rlast_eq(s.take(i), c)
        }),
{
    assert(s.take(i + 1).drop_last() =~= s.take(i));
    assert(s.take(i + 1).last() == s[i]);
}

/// `rlast_eq` stays within bounds.
pub proof fn lemma_rlast_eq_bounds(s: Seq<char>, c: char)
    ensures
        -1 <= rlast_eq(s, c) < s.len(),
    decreases s.len(),
{
    if s.len() > 0 && s.last() != c {
        lemma_rlast_eq_bounds(s.drop_last(), c);
    }
}

/// Scans for the last occurrence of `c`; the length when there is none.
/// Returns one past the last occurrence, so the result is usable as a
/// segment start: 0 when `c` never occurs.
pub fn scan_after_last(s: &str, c: char) -> (r: usize)
    ensures
        r == rlast_eq(s@, c) + 1,
{
    let n = s.unicode_len();
    let mut i: usize = 0;
    let mut after: usize = 0;
    proof {
        assert(s@.take(0) =~= Seq::<char>::empty());
    }
    while i < n
        invariant
            0 <= i <= n,
            n == s@.len(),
            after == rlast_eq(s@.take(i as int), c) + 1,
            after <= i,
        decreases n - i,
    {
        proof {
            lemma_rlast_eq_step(s@, i as int, c);
        }
        if s.get_char(i) == c {
            after = i + 1;
        }
        i += 1;
    }
    proof {
        assert(s@.take(n as int) =~= s@);
    }
    after
}

/// Reads a visit count; never fails. A count too large to represent reads as 0.
pub fn visited_count(s: &str) -> (n: u32)
    ensures
        n == (if visit_count_val(s@) <= u32::MAX {
            visit_count_val(s@)
        } else {
            0
        }),
{
    proof {
        if s@.len() >= 7 && s@.subrange(s@.len() - 6, s@.len() as int) == " times"@ && is_digits(
            s@.take(s@.len() - 6),
        ) {
            lemma_dec_val_nonneg(s@.take(s@.len() - 6));
        }
    }
    if str_eq(s, "once") {
        return 1;
    }
    let len = s.unicode_len();
    if len < 7 {
        return 0;
    }
    let tail = s.substring_char(len - 6, len);
    if !str_eq(tail, " times") {
        return 0;
    }
    let head = s.substring_char(0, len - 6);
    proof {
        assert(head@ =~= s@.take(s@.len() - 6));
    }
    match parse_u32_digits(head) {
        Some(v) => v,
        None => 0,
    }
}

} // verus!
