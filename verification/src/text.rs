//! Character-sequence utilities shared by the parsers and formatters.
//!
//! Text is handled as `Vec<char>` in executable code and as `Seq<char>` in
//! specifications; `chars_of` and `string_of` convert at the edges.

use vstd::prelude::*;

verus! {

// ---------------------------------------------------------------------------
// Decimal digits
// ---------------------------------------------------------------------------

/// The decimal digit character for `d`.
pub open spec fn digit_char(d: nat) -> char {
    (48 + d) as char
}

/// Whether `c` is one of the ASCII digits `0`..=`9`.
pub open spec fn is_digit(c: char) -> bool {
    48 <= (c as u32) && (c as u32) <= 57
}

/// The numeric value of an ASCII digit character.
pub open spec fn digit_value(c: char) -> nat {
    ((c as u32) - 48) as nat
}

/// Whether every character of `s` is an ASCII digit.
pub open spec fn all_digits(s: Seq<char>) -> bool {
    forall|i: int| 0 <= i < s.len() ==> is_digit(#[trigger] s[i])
}

/// The value of a string of decimal digits, most significant first.
pub open spec fn digits_value(s: Seq<char>) -> nat
    decreases s.len(),
{
    if s.len() == 0 {
        0
    } else {
        digits_value(s.drop_last()) * 10 + digit_value(s.last())
    }
}

/// Conventional decimal rendering of a natural number, without leading zeros.
pub open spec fn decimal(n: nat) -> Seq<char>
    decreases n,
{
    if n < 10 {
        seq![digit_char(n)]
    } else {
        decimal(n / 10).push(digit_char(n % 10))
    }
}

/// What `str::parse::<u64>` accepts: an optional `+`, then one or more ASCII
/// digits whose value fits in a `u64`.
pub open spec fn parse_u64_spec(s: Seq<char>) -> Option<u64> {
    let d = if s.len() > 0 && s[0] == '+' {
        s.drop_first()
    } else {
        s
    };
    if d.len() > 0 && all_digits(d) && digits_value(d) <= u64::MAX {
        Some(digits_value(d) as u64)
    } else {
        None
    }
}

/// The digit character for `d`, which must be below ten.
pub fn digit_to_char(d: u8) -> (c: char)
    requires
        d < 10,
    ensures
        c == digit_char(d as nat),
        is_digit(c),
        digit_value(c) == d,
{
    (48u8 + d) as char
}

pub proof fn lemma_digit_char(d: nat)
    requires
        d < 10,
    ensures
        is_digit(digit_char(d)),
        digit_value(digit_char(d)) == d,
        digit_char(d) != '+',
{
    assert((((48 + d) as char) as u32) == 48 + d);
}

pub proof fn lemma_decimal_digits(n: nat)
    ensures
        decimal(n).len() >= 1,
        all_digits(decimal(n)),
        digits_value(decimal(n)) == n,
        decimal(n)[0] != '+',
        is_digit(decimal(n)[0]),
    decreases n,
{
    if n < 10 {
        lemma_digit_char(n);
        let q = decimal(n);
        assert(q.drop_last() =~= Seq::<char>::empty());
        assert(q.last() == digit_char(n));
        assert(digits_value(q) == digits_value(q.drop_last()) * 10 + digit_value(q.last()));
    } else {
        lemma_digit_char(n % 10);
        lemma_decimal_digits(n / 10);
        assert((n / 10) * 10 + n % 10 == n) by (nonlinear_arith);
        let p = decimal(n / 10);
        let q = p.push(digit_char(n % 10));
        assert(q.drop_last() =~= p);
        assert(q.last() == digit_char(n % 10));
        assert(decimal(n) == q);
        assert(digits_value(q) == digits_value(p) * 10 + digit_value(q.last()));
        assert(q[0] == p[0]);
        assert forall|i: int| 0 <= i < q.len() implies is_digit(#[trigger] q[i]) by {
            if i < p.len() {
                assert(q[i] == p[i]);
            }
        }
    }
}

/// Appends the decimal rendering of `n` to `out`.
pub fn push_decimal(out: &mut Vec<char>, n: u64)
    ensures
        final(out)@ == old(out)@ + decimal(n as nat),
    decreases n,
{
    if n < 10 {
        out.push(digit_to_char(n as u8));
        assert(old(out)@.push(digit_char(n as nat)) =~= old(out)@ + decimal(n as nat));
    } else {
        push_decimal(out, n / 10);
        let ghost mid = out@;
        out.push(digit_to_char((n % 10) as u8));
        assert(mid.push(digit_char((n % 10) as nat)) =~= old(out)@ + decimal(n as nat));
    }
}

/// The decimal rendering of `n`.
pub fn u64_to_chars(n: u64) -> (r: Vec<char>)
    ensures
        r@ == decimal(n as nat),
{
    let mut out: Vec<char> = Vec::new();
    push_decimal(&mut out, n);
    assert(out@ =~= decimal(n as nat));
    out
}

pub proof fn lemma_digits_value_monotone(s: Seq<char>, j: int, k: int)
    requires
        0 <= j <= k <= s.len(),
    ensures
        digits_value(s.subrange(0, j)) <= digits_value(s.subrange(0, k)),
    decreases k - j,
{
    if j < k {
        lemma_digits_value_monotone(s, j, k - 1);
        assert(s.subrange(0, k).drop_last() =~= s.subrange(0, k - 1));
    }
}

pub proof fn lemma_digits_value_shift(s: Seq<char>, start: int, k: int)
    requires
        0 <= start <= k <= s.len(),
    ensures
        s.subrange(start, s.len() as int).subrange(0, k - start) =~= s.subrange(start, k),
{
}

/// Parses decimal text the way `str::parse::<u64>` does.
pub fn parse_u64(s: &[char]) -> (r: Option<u64>)
    ensures
        r == parse_u64_spec(s@),
{
    let start: usize = if s.len() > 0 && s[0] == '+' {
        1
    } else {
        0
    };
    let ghost d = if s@.len() > 0 && s@[0] == '+' {
        s@.drop_first()
    } else {
        s@
    };
    assert(d =~= s@.subrange(start as int, s@.len() as int));
    if start >= s.len() {
        return None;
    }
    let mut acc: u64 = 0;
    let mut i: usize = start;
    assert(d.subrange(0, 0) =~= Seq::<char>::empty());
    while i < s.len()
        invariant
            start <= i <= s.len(),
            start < s.len(),
            d == (if s@.len() > 0 && s@[0] == '+' {
                s@.drop_first()
            } else {
                s@
            }),
            d =~= s@.subrange(start as int, s@.len() as int),
            acc as nat == digits_value(d.subrange(0, i - start)),
            all_digits(d.subrange(0, i - start)),
        decreases s.len() - i,
    {
        let c = s[i];
        let k: usize = i - start;
        assert(d[k as int] == c);
        if !((c as u32) >= 48 && (c as u32) <= 57) {
            assert(!all_digits(d)) by {
                assert(!is_digit(d[k as int]));
            }

            return None;
        }
        let dv: u64 = ((c as u32) - 48) as u64;
        assert(digit_value(c) == dv as nat);
        assert(d.subrange(0, k + 1).drop_last() =~= d.subrange(0, k as int));
        assert(d.subrange(0, k + 1).last() == c);
        assert(digits_value(d.subrange(0, k + 1)) == acc * 10 + dv);
        proof {
            lemma_digits_value_monotone(d, k + 1, d.len() as int);
            assert(d.subrange(0, d.len() as int) =~= d);
        }
        match acc.checked_mul(10) {
            None => {
                return None;
            },
            Some(m) => match m.checked_add(dv) {
                None => {
                    return None;
                },
                Some(v) => {
                    acc = v;
                },
            },
        }
        assert forall|j: int| 0 <= j < k + 1 implies is_digit(#[trigger] d.subrange(0, k + 1)[j]) by {
            if j < k {
                assert(d.subrange(0, k + 1)[j] == d.subrange(0, k as int)[j]);
            }
        }
        i = i + 1;
    }
    assert(d.subrange(0, d.len() as int) =~= d);
    Some(acc)
}

pub proof fn lemma_parse_decimal(n: u64)
    ensures
        parse_u64_spec(decimal(n as nat)) == Some(n),
{
    lemma_decimal_digits(n as nat);
}

// ---------------------------------------------------------------------------
// Searching
// ---------------------------------------------------------------------------

/// Whether `c` occurs in `s`.
pub open spec fn has_char(s: Seq<char>, c: char) -> bool {
    exists|i: int| 0 <= i < s.len() && s[i] == c
}

/// `i` is the position of the last `c` in `s`.
pub open spec fn is_last_index(s: Seq<char>, c: char, i: int) -> bool {
    &&& 0 <= i < s.len()
    &&& s[i] == c
    &&& forall|j: int| i < j < s.len() ==> s[j] != c
}

/// `i` is the position of the first `c` in `s`.
pub open spec fn is_first_index(s: Seq<char>, c: char, i: int) -> bool {
    &&& 0 <= i < s.len()
    &&& s[i] == c
    &&& forall|j: int| 0 <= j < i ==> s[j] != c
}

/// `str::rsplit_once` with a character pattern: the text before and after
/// the last occurrence of `c`.
pub open spec fn rsplit_once_spec(s: Seq<char>, c: char) -> Option<(Seq<char>, Seq<char>)> {
    if has_char(s, c) {
        let i = choose|i: int| is_last_index(s, c, i);
        Some((s.subrange(0, i), s.subrange(i + 1, s.len() as int)))
    } else {
        None
    }
}

/// `str::split_once` with a character pattern: the text before and after
/// the first occurrence of `c`.
pub open spec fn split_once_spec(s: Seq<char>, c: char) -> Option<(Seq<char>, Seq<char>)> {
    if has_char(s, c) {
        let i = choose|i: int| is_first_index(s, c, i);
        Some((s.subrange(0, i), s.subrange(i + 1, s.len() as int)))
    } else {
        None
    }
}

pub proof fn lemma_last_index_unique(s: Seq<char>, c: char, i: int, j: int)
    requires
        is_last_index(s, c, i),
        is_last_index(s, c, j),
    ensures
        i == j,
{
}

pub proof fn lemma_first_index_unique(s: Seq<char>, c: char, i: int, j: int)
    requires
        is_first_index(s, c, i),
        is_first_index(s, c, j),
    ensures
        i == j,
{
}

/// `rsplit_once` on a sequence built as `a + [c] + b` with no `c` in `b`.
pub proof fn lemma_rsplit_once_of_join(a: Seq<char>, c: char, b: Seq<char>)
    requires
        !has_char(b, c),
    ensures
        rsplit_once_spec(a + seq![c] + b, c) == Some((a, b)),
{
    let s = a + seq![c] + b;
    let i = a.len() as int;
    assert(s[i] == c);
    assert forall|j: int| i < j < s.len() implies s[j] != c by {
        assert(s[j] == b[j - i - 1]);
    }
    assert(is_last_index(s, c, i));
    let k = choose|k: int| is_last_index(s, c, k);
    lemma_last_index_unique(s, c, i, k);
    assert(s.subrange(0, i) =~= a);
    assert(s.subrange(i + 1, s.len() as int) =~= b);
}

/// `split_once` on a sequence built as `a + [c] + b` with no `c` in `a`.
pub proof fn lemma_split_once_of_join(a: Seq<char>, c: char, b: Seq<char>)
    requires
        !has_char(a, c),
    ensures
        split_once_spec(a + seq![c] + b, c) == Some((a, b)),
{
    let s = a + seq![c] + b;
    let i = a.len() as int;
    assert(s[i] == c);
    assert forall|j: int| 0 <= j < i implies s[j] != c by {
        assert(s[j] == a[j]);
    }
    assert(is_first_index(s, c, i));
    let k = choose|k: int| is_first_index(s, c, k);
    lemma_first_index_unique(s, c, i, k);
    assert(s.subrange(0, i) =~= a);
    assert(s.subrange(i + 1, s.len() as int) =~= b);
}

/// A copy of `s[from..to]`.
pub fn slice_chars(s: &[char], from: usize, to: usize) -> (r: Vec<char>)
    requires
        from <= to <= s.len(),
    ensures
        r@ == s@.subrange(from as int, to as int),
{
    let mut r: Vec<char> = Vec::new();
    let mut i = from;
    while i < to
        invariant
            from <= i <= to <= s.len(),
            r@ == s@.subrange(from as int, i as int),
        decreases to - i,
    {
        r.push(s[i]);
        assert(s@.subrange(from as int, i as int).push(s@[i as int]) =~= s@.subrange(
            from as int,
            i + 1,
        ));
        i = i + 1;
    }
    r
}

/// The position of the last `c` in `s`, if any.
pub fn rfind_char(s: &[char], c: char) -> (r: Option<usize>)
    ensures
        match r {
            Some(i) => is_last_index(s@, c, i as int),
            None => !has_char(s@, c),
        },
{
    let mut i = s.len();
    while i > 0
        invariant
            i <= s.len(),
            forall|j: int| i <= j < s.len() ==> s@[j] != c,
        decreases i,
    {
        if s[i - 1] == c {
            return Some(i - 1);
        }
        i = i - 1;
    }
    None
}

/// The position of the first `c` in `s`, if any.
pub fn find_char(s: &[char], c: char) -> (r: Option<usize>)
    ensures
        match r {
            Some(i) => is_first_index(s@, c, i as int),
            None => !has_char(s@, c),
        },
{
    let mut i: usize = 0;
    while i < s.len()
        invariant
            i <= s.len(),
            forall|j: int| 0 <= j < i ==> s@[j] != c,
        decreases s.len() - i,
    {
        if s[i] == c {
            return Some(i);
        }
        i = i + 1;
    }
    None
}

/// `str::rsplit_once` with a character pattern.
pub fn rsplit_once(s: &[char], c: char) -> (r: Option<(Vec<char>, Vec<char>)>)
    ensures
        match r {
            Some((a, b)) => rsplit_once_spec(s@, c) == Some((a@, b@)),
            None => rsplit_once_spec(s@, c) is None,
        },
{
    match rfind_char(s, c) {
        None => None,
        Some(i) => {
            proof {
                let k = choose|k: int| is_last_index(s@, c, k);
                lemma_last_index_unique(s@, c, i as int, k);
            }
            assert(i < s.len());
            Some((slice_chars(s, 0, i), slice_chars(s, i + 1, s.len())))
        },
    }
}

/// `str::split_once` with a character pattern.
pub fn split_once(s: &[char], c: char) -> (r: Option<(Vec<char>, Vec<char>)>)
    ensures
        match r {
            Some((a, b)) => split_once_spec(s@, c) == Some((a@, b@)),
            None => split_once_spec(s@, c) is None,
        },
{
    match find_char(s, c) {
        None => None,
        Some(i) => {
            proof {
                let k = choose|k: int| is_first_index(s@, c, k);
                lemma_first_index_unique(s@, c, i as int, k);
            }
            assert(i < s.len());
            Some((slice_chars(s, 0, i), slice_chars(s, i + 1, s.len())))
        },
    }
}

/// Whether `s` begins with `p`.
pub open spec fn starts_with_spec(s: Seq<char>, p: Seq<char>) -> bool {
    p.len() <= s.len() && s.subrange(0, p.len() as int) == p
}

/// Whether `p` occurs as a contiguous run inside `s`.
pub open spec fn contains_spec(s: Seq<char>, p: Seq<char>) -> bool {
    exists|i: int| 0 <= i && i + p.len() <= s.len() && #[trigger] s.subrange(i, i + p.len()) == p
}

/// `str::starts_with` with a text pattern.
pub fn starts_with(s: &[char], p: &[char]) -> (r: bool)
    ensures
        r == starts_with_spec(s@, p@),
{
    if p.len() > s.len() {
        return false;
    }
    let mut i: usize = 0;
    while i < p.len()
        invariant
            i <= p.len() <= s.len(),
            forall|j: int| 0 <= j < i ==> s@[j] == p@[j],
        decreases p.len() - i,
    {
        if s[i] != p[i] {
            assert(s@.subrange(0, p@.len() as int)[i as int] != p@[i as int]);
            return false;
        }
        i = i + 1;
    }
    assert(s@.subrange(0, p@.len() as int) =~= p@);
    true
}

/// Whether `s` ends with `p`.
pub open spec fn ends_with_spec(s: Seq<char>, p: Seq<char>) -> bool {
    p.len() <= s.len() && s.subrange(s.len() - p.len(), s.len() as int) == p
}

/// `str::ends_with` with a text pattern.
pub fn ends_with(s: &[char], p: &[char]) -> (r: bool)
    ensures
        r == ends_with_spec(s@, p@),
{
    if p.len() > s.len() {
        return false;
    }
    matches_at(s, p, s.len() - p.len())
}

/// Whether `p` matches `s` at position `at`.
fn matches_at(s: &[char], p: &[char], at: usize) -> (r: bool)
    requires
        at + p.len() <= s.len(),
    ensures
        r == (s@.subrange(at as int, at + p.len()) == p@),
{
    let mut i: usize = 0;
    while i < p.len()
        invariant
            i <= p.len(),
            at + p.len() <= s.len(),
            forall|j: int| 0 <= j < i ==> s@[at + j] == p@[j],
        decreases p.len() - i,
    {
        if s[at + i] != p[i] {
            assert(s@.subrange(at as int, at + p.len())[i as int] != p@[i as int]);
            return false;
        }
        i = i + 1;
    }
    assert(s@.subrange(at as int, at + p.len()) =~= p@);
    true
}

/// Whether `a` and `b` hold the same characters.
pub fn chars_equal(a: &[char], b: &[char]) -> (r: bool)
    ensures
        r == (a@ == b@),
{
    if a.len() != b.len() {
        return false;
    }
    let mut i: usize = 0;
    while i < a.len()
        invariant
            i <= a.len() == b.len(),
            forall|j: int| 0 <= j < i ==> a@[j] == b@[j],
        decreases a.len() - i,
    {
        if a[i] != b[i] {
            return false;
        }
        i = i + 1;
    }
    assert(a@ =~= b@);
    true
}

/// `str::contains` with a text pattern.
pub fn contains(s: &[char], p: &[char]) -> (r: bool)
    ensures
        r == contains_spec(s@, p@),
{
    if p.len() > s.len() {
        return false;
    }
    let mut at: usize = 0;
    let last: usize = s.len() - p.len();
    while at <= last
        invariant
            p.len() <= s.len(),
            last == s.len() - p.len(),
            forall|i: int|
                0 <= i < at && i + p.len() <= s.len() ==> #[trigger] s@.subrange(i, i + p.len())
                    != p@,
        decreases last + 1 - at,
    {
        if matches_at(s, p, at) {
            return true;
        }
        if at == last {
            return false;
        }
        at = at + 1;
    }
    false
}

/// Whether `p` occurs in `s` at position `i`.
pub open spec fn occurs_at(s: Seq<char>, p: Seq<char>, i: int) -> bool {
    0 <= i && i + p.len() <= s.len() && s.subrange(i, i + p.len()) == p
}

/// `i` is the position of the first occurrence of `p` in `s`.
pub open spec fn is_first_occurrence(s: Seq<char>, p: Seq<char>, i: int) -> bool {
    occurs_at(s, p, i) && forall|j: int| 0 <= j < i ==> !occurs_at(s, p, j)
}

pub proof fn lemma_first_occurrence_unique(s: Seq<char>, p: Seq<char>, i: int, j: int)
    requires
        is_first_occurrence(s, p, i),
        is_first_occurrence(s, p, j),
    ensures
        i == j,
{
}

/// `str::find` with a text pattern: the first position where `p` occurs.
pub fn find_text(s: &[char], p: &[char]) -> (r: Option<usize>)
    ensures
        match r {
            Some(i) => is_first_occurrence(s@, p@, i as int),
            None => forall|i: int| !occurs_at(s@, p@, i),
        },
{
    if p.len() > s.len() {
        return None;
    }
    let mut at: usize = 0;
    let last: usize = s.len() - p.len();
    while at <= last
        invariant
            p.len() <= s.len(),
            last == s.len() - p.len(),
            forall|i: int| 0 <= i < at ==> !occurs_at(s@, p@, i),
        decreases last + 1 - at,
    {
        if matches_at(s, p, at) {
            return Some(at);
        }
        if at == last {
            return None;
        }
        at = at + 1;
    }
    None
}

/// `s.split(p).nth(1)` for a nonempty pattern `p`: the text between the
/// first and the second occurrence of `p` (or the end), where `p` occurs.
pub open spec fn second_piece_spec(s: Seq<char>, p: Seq<char>) -> Option<Seq<char>> {
    if exists|i: int| is_first_occurrence(s, p, i) {
        let i = choose|i: int| is_first_occurrence(s, p, i);
        let rest = s.subrange(i + p.len(), s.len() as int);
        if exists|j: int| is_first_occurrence(rest, p, j) {
            let j = choose|j: int| is_first_occurrence(rest, p, j);
            Some(rest.subrange(0, j))
        } else {
            Some(rest)
        }
    } else {
        None
    }
}

/// `s.split(p).nth(1)` for a nonempty pattern `p`.
pub fn second_piece(s: &[char], p: &[char]) -> (r: Option<Vec<char>>)
    requires
        p.len() > 0,
    ensures
        match r {
            Some(t) => second_piece_spec(s@, p@) == Some(t@),
            None => second_piece_spec(s@, p@) is None,
        },
{
    match find_text(s, p) {
        None => None,
        Some(i) => {
            proof {
                let k = choose|k: int| is_first_occurrence(s@, p@, k);
                lemma_first_occurrence_unique(s@, p@, i as int, k);
                assert(occurs_at(s@, p@, i as int));
            }
            assert(i + p@.len() <= s@.len());
            assert(p@.len() == p.len());
            assert(i + p.len() <= s.len());
            let rest = slice_chars(s, i + p.len(), s.len());
            match find_text(rest.as_slice(), p) {
                None => Some(rest),
                Some(j) => {
                    proof {
                        let k = choose|k: int| is_first_occurrence(rest@, p@, k);
                        lemma_first_occurrence_unique(rest@, p@, j as int, k);
                    }
                    Some(slice_chars(rest.as_slice(), 0, j))
                },
            }
        },
    }
}

/// `s.split(c).next()`: the text before the first `c`, or all of `s`.
pub open spec fn before_char_spec(s: Seq<char>, c: char) -> Seq<char> {
    match split_once_spec(s, c) {
        Some((a, _)) => a,
        None => s,
    }
}

/// `s.split(c).next()`.
pub fn before_char(s: &[char], c: char) -> (r: Vec<char>)
    ensures
        r@ == before_char_spec(s@, c),
{
    match split_once(s, c) {
        Some((a, _)) => a,
        None => slice_chars(s, 0, s.len()),
    }
}

// ---------------------------------------------------------------------------
// Conversions at the edge between `String` and `Vec<char>`
// ---------------------------------------------------------------------------

/// The characters of `s` (calls `str::chars` and collects them).
#[verifier::external_body]
pub(crate) fn chars_of(s: &str) -> (v: Vec<char>)
    ensures
        v@ == s@,
{
    s.chars().collect()
}

/// The string made of the characters in `v` (calls `FromIterator<char>` for `String`).
#[verifier::external_body]
pub(crate) fn string_of(v: &[char]) -> (s: String)
    ensures
        s@ == v@,
{
    v.iter().collect()
}

/// `s` followed by `t`.
pub fn concat(s: &[char], t: &[char]) -> (r: Vec<char>)
    ensures
        r@ == s@ + t@,
{
    let mut r = slice_chars(s, 0, s.len());
    append(&mut r, t);
    r
}

/// Appends the characters of `t` to `out`.
pub fn append(out: &mut Vec<char>, t: &[char])
    ensures
        final(out)@ == old(out)@ + t@,
{
    let mut i: usize = 0;
    while i < t.len()
        invariant
            i <= t.len(),
            out@ == old(out)@ + t@.subrange(0, i as int),
        decreases t.len() - i,
    {
        out.push(t[i]);
        assert(old(out)@ + t@.subrange(0, i + 1) =~= (old(out)@ + t@.subrange(0, i as int)).push(
            t@[i as int],
        ));
        i = i + 1;
    }
    assert(t@.subrange(0, t@.len() as int) =~= t@);
}

/// The characters of a string literal or slice as a vector.
pub fn str_chars(s: &str) -> (v: Vec<char>)
    ensures
        v@ == s@,
{
    chars_of(s)
}

// ---------------------------------------------------------------------------
// Whitespace, lines and case
// ---------------------------------------------------------------------------

/// What `char::is_whitespace` answers for `c`: whether it has the Unicode
/// `White_Space` property (tab to carriage return, space, next line,
/// no-break space, ogham space mark, the spaces U+2000 to U+200A, line and
/// paragraph separators, narrow no-break space, medium mathematical space
/// and ideographic space).
pub open spec fn char_is_whitespace(c: char) -> bool {
    let v = c as u32;
    ||| 9 <= v <= 13
    ||| v == 0x20
    ||| v == 0x85
    ||| v == 0xA0
    ||| v == 0x1680
    ||| 0x2000 <= v <= 0x200A
    ||| v == 0x2028
    ||| v == 0x2029
    ||| v == 0x202F
    ||| v == 0x205F
    ||| v == 0x3000
}

/// The ASCII characters with the `White_Space` property: tab, line feed,
/// vertical tab, form feed, carriage return and space.
pub open spec fn is_ascii_whitespace_char(c: char) -> bool {
    (9 <= (c as u32) && (c as u32) <= 13) || (c as u32) == 32
}

/// Whether `c` is whitespace (see `char_is_whitespace`).
pub fn is_whitespace(c: char) -> (r: bool)
    ensures
        r == char_is_whitespace(c),
        (c as u32) < 128 ==> (r <==> is_ascii_whitespace_char(c)),
{
    let v = c as u32;
    (9 <= v && v <= 13) || v == 0x20 || v == 0x85 || v == 0xA0 || v == 0x1680 || (0x2000 <= v && v
        <= 0x200A) || v == 0x2028 || v == 0x2029 || v == 0x202F || v == 0x205F || v == 0x3000
}

/// What `char::is_numeric` answers for `c` (the Unicode general categories
/// `Nd`, `Nl` and `No`).
pub uninterp spec fn char_is_numeric(c: char) -> bool;

/// `char::is_numeric`.
///
/// The contract names the answer and claims what Unicode gives for ASCII:
/// exactly the digits `0`..=`9` are numeric there.
#[verifier::external_body]
pub(crate) fn is_numeric(c: char) -> (r: bool)
    ensures
        r == char_is_numeric(c),
        (c as u32) < 128 ==> (r <==> is_digit(c)),
{
    c.is_numeric()
}

/// Whether `s` consists of ASCII digits only (checked).
pub fn all_ascii_digits(s: &[char]) -> (r: bool)
    ensures
        r == all_digits(s@),
{
    let mut i: usize = 0;
    while i < s.len()
        invariant
            i <= s.len(),
            forall|j: int| 0 <= j < i ==> is_digit(#[trigger] s@[j]),
        decreases s.len() - i,
    {
        let c = s[i];
        if !((c as u32) >= 48 && (c as u32) <= 57) {
            assert(!is_digit(s@[i as int]));
            return false;
        }
        i = i + 1;
    }
    true
}

/// Number of leading whitespace characters of `s`.
pub open spec fn leading_ws(s: Seq<char>) -> nat
    decreases s.len(),
{
    if s.len() > 0 && char_is_whitespace(s[0]) {
        1 + leading_ws(s.drop_first())
    } else {
        0
    }
}

/// Number of trailing whitespace characters of `s`.
pub open spec fn trailing_ws(s: Seq<char>) -> nat
    decreases s.len(),
{
    if s.len() > 0 && char_is_whitespace(s.last()) {
        1 + trailing_ws(s.drop_last())
    } else {
        0
    }
}

/// `str::trim`: `s` without leading and trailing whitespace.
pub open spec fn trim_spec(s: Seq<char>) -> Seq<char> {
    let t = s.subrange(leading_ws(s) as int, s.len() as int);
    t.subrange(0, t.len() - trailing_ws(t))
}

proof fn lemma_leading_ws_step(s: Seq<char>, i: int)
    requires
        0 <= i < s.len(),
        forall|j: int| 0 <= j < i ==> char_is_whitespace(#[trigger] s[j]),
    ensures
        leading_ws(s) == i + leading_ws(s.subrange(i, s.len() as int)),
    decreases i,
{
    if i > 0 {
        assert(char_is_whitespace(s[0]));
        assert(s.drop_first().subrange(i - 1, s.len() - 1) =~= s.subrange(i, s.len() as int));
        assert forall|j: int| 0 <= j < i - 1 implies char_is_whitespace(#[trigger] s.drop_first()[j]) by {
            assert(s.drop_first()[j] == s[j + 1]);
        }
        lemma_leading_ws_step(s.drop_first(), i - 1);
    } else {
        assert(s.subrange(0, s.len() as int) =~= s);
    }
}

proof fn lemma_trailing_ws_step(s: Seq<char>, i: int)
    requires
        0 <= i <= s.len(),
        forall|j: int| i <= j < s.len() ==> char_is_whitespace(#[trigger] s[j]),
    ensures
        trailing_ws(s) == (s.len() - i) + trailing_ws(s.subrange(0, i)),
    decreases s.len() - i,
{
    if i < s.len() {
        assert(s.drop_last().subrange(0, i) =~= s.subrange(0, i));
        assert forall|j: int| i <= j < s.len() - 1 implies char_is_whitespace(#[trigger] s.drop_last()[j]) by {
            assert(s.drop_last()[j] == s[j]);
        }
        lemma_trailing_ws_step(s.drop_last(), i);
    } else {
        assert(s.subrange(0, i) =~= s);
    }
}

/// `str::trim`.
pub fn trim(s: &[char]) -> (r: Vec<char>)
    ensures
        r@ == trim_spec(s@),
{
    let mut a: usize = 0;
    while a < s.len() && is_whitespace(s[a])
        invariant
            a <= s.len(),
            forall|j: int| 0 <= j < a ==> char_is_whitespace(#[trigger] s@[j]),
        decreases s.len() - a,
    {
        a = a + 1;
    }
    proof {
        if a < s.len() {
            lemma_leading_ws_step(s@, a as int);
            assert(!char_is_whitespace(s@.subrange(a as int, s@.len() as int)[0]));
        } else {
            lemma_all_ws_leading(s@);
        }
    }
    let t = slice_chars(s, a, s.len());
    let mut b: usize = t.len();
    while b > 0 && is_whitespace(t[b - 1])
        invariant
            b <= t.len(),
            forall|j: int| b <= j < t.len() ==> char_is_whitespace(#[trigger] t@[j]),
        decreases b,
    {
        b = b - 1;
    }
    proof {
        lemma_trailing_ws_step(t@, b as int);
        if b > 0 {
            assert(t@.subrange(0, b as int).last() == t@[b - 1]);
        }
    }
    slice_chars(t.as_slice(), 0, b)
}

proof fn lemma_all_ws_leading(s: Seq<char>)
    requires
        forall|j: int| 0 <= j < s.len() ==> char_is_whitespace(#[trigger] s[j]),
    ensures
        leading_ws(s) == s.len(),
    decreases s.len(),
{
    if s.len() > 0 {
        assert forall|j: int| 0 <= j < s.len() - 1 implies char_is_whitespace(#[trigger] s.drop_first()[j]) by {
            assert(s.drop_first()[j] == s[j + 1]);
        }
        lemma_all_ws_leading(s.drop_first());
    }
}

pub proof fn lemma_first_index_exists(s: Seq<char>, c: char)
    requires
        has_char(s, c),
    ensures
        exists|i: int| is_first_index(s, c, i),
    decreases s.len(),
{
    if s[0] == c {
        assert(is_first_index(s, c, 0));
    } else {
        let k = choose|k: int| 0 <= k < s.len() && s[k] == c;
        assert(s.drop_first()[k - 1] == c);
        lemma_first_index_exists(s.drop_first(), c);
        let j = choose|j: int| is_first_index(s.drop_first(), c, j);
        assert forall|m: int| 0 <= m < j + 1 implies s[m] != c by {
            if m > 0 {
                assert(s[m] == s.drop_first()[m - 1]);
            }
        }
        assert(is_first_index(s, c, j + 1));
    }
}

/// A line without its terminating carriage return, if any.
pub open spec fn strip_cr(t: Seq<char>) -> Seq<char> {
    if t.len() > 0 && t.last() == '\r' {
        t.drop_last()
    } else {
        t
    }
}

/// `str::lines`: the text split at each `\n`, a `\r` just before a `\n`
/// removed, no final empty line.
pub open spec fn lines_spec(s: Seq<char>) -> Seq<Seq<char>>
    decreases s.len(),
{
    if s.len() == 0 {
        Seq::empty()
    } else if has_char(s, '\n') {
        let i = choose|i: int| is_first_index(s, '\n', i);
        proof {
            lemma_first_index_exists(s, '\n');
        }
        seq![strip_cr(s.subrange(0, i))] + lines_spec(s.subrange(i + 1, s.len() as int))
    } else {
        seq![s]
    }
}

/// `str::lines`.
pub fn lines(s: &[char]) -> (r: Vec<Vec<char>>)
    ensures
        r@.map_values(|l: Vec<char>| l@) == lines_spec(s@),
    decreases s.len(),
{
    if s.len() == 0 {
        let r: Vec<Vec<char>> = Vec::new();
        assert(r@.map_values(|l: Vec<char>| l@) =~= lines_spec(s@));
        return r;
    }
    match find_char(s, '\n') {
        None => {
            let mut r: Vec<Vec<char>> = Vec::new();
            r.push(slice_chars(s, 0, s.len()));
            assert(r@[0]@ =~= s@);
            assert(r@.map_values(|l: Vec<char>| l@) =~= lines_spec(s@));
            r
        },
        Some(i) => {
            proof {
                let c = choose|k: int| is_first_index(s@, '\n', k);
                lemma_first_index_unique(s@, '\n', i as int, c);
            }
            let mut first = slice_chars(s, 0, i);
            if first.len() > 0 && first[first.len() - 1] == '\r' {
                first.pop();
            }
            assert(first@ == strip_cr(s@.subrange(0, i as int)));
            let rest_chars = slice_chars(s, i + 1, s.len());
            let rest = lines(rest_chars.as_slice());
            let mut r: Vec<Vec<char>> = Vec::new();
            r.push(first);
            let mut k: usize = 0;
            while k < rest.len()
                invariant
                    k <= rest.len(),
                    i < s@.len(),
                    r@.len() == k + 1,
                    r@[0]@ == strip_cr(s@.subrange(0, i as int)),
                    forall|j: int| 1 <= j <= k ==> (#[trigger] r@[j])@ == rest@[j - 1]@,
                decreases rest.len() - k,
            {
                r.push(slice_chars(rest[k].as_slice(), 0, rest[k].len()));
                k = k + 1;
            }
            assert(r@.map_values(|l: Vec<char>| l@) =~= lines_spec(s@)) by {
                assert(rest@.map_values(|l: Vec<char>| l@) == lines_spec(rest_chars@));
                assert forall|j: int| 0 <= j < r@.len() implies r@.map_values(|l: Vec<char>| l@)[j] == lines_spec(s@)[j] by {
                    if j > 0 {
                        assert(r@[j]@ == rest@[j - 1]@);
                        assert(rest@.map_values(|l: Vec<char>| l@)[j - 1] == rest@[j - 1]@);
                    }
                }
            }
            r
        },
    }
}

/// The texts of a list of character vectors.
pub open spec fn views(v: Seq<Vec<char>>) -> Seq<Seq<char>> {
    v.map_values(|l: Vec<char>| l@)
}

/// `str::split` with a character pattern: the pieces of `s` between the
/// occurrences of `c`.
pub open spec fn split_spec(s: Seq<char>, c: char) -> Seq<Seq<char>>
    decreases s.len(),
{
    if has_char(s, c) {
        let i = choose|i: int| is_first_index(s, c, i);
        proof {
            lemma_first_index_exists(s, c);
        }
        seq![s.subrange(0, i)] + split_spec(s.subrange(i + 1, s.len() as int), c)
    } else {
        seq![s]
    }
}

/// `first` followed by the elements of `rest`.
fn prepend_line(first: Vec<char>, rest: Vec<Vec<char>>) -> (r: Vec<Vec<char>>)
    ensures
        views(r@) == seq![first@] + views(rest@),
{
    let mut r: Vec<Vec<char>> = Vec::new();
    r.push(first);
    let mut k: usize = 0;
    while k < rest.len()
        invariant
            k <= rest.len(),
            r@.len() == k + 1,
            r@[0]@ == first@,
            forall|j: int| 1 <= j <= k ==> (#[trigger] r@[j])@ == rest@[j - 1]@,
        decreases rest.len() - k,
    {
        r.push(slice_chars(rest[k].as_slice(), 0, rest[k].len()));
        k = k + 1;
    }
    assert(views(r@) =~= seq![first@] + views(rest@)) by {
        assert forall|j: int| 0 <= j < r@.len() implies views(r@)[j] == (seq![first@] + views(
            rest@,
        ))[j] by {
            if j > 0 {
                assert(r@[j]@ == rest@[j - 1]@);
            }
        }
    }
    r
}

/// `str::split` with a character pattern.
pub fn split_char(s: &[char], c: char) -> (r: Vec<Vec<char>>)
    ensures
        views(r@) == split_spec(s@, c),
    decreases s.len(),
{
    match find_char(s, c) {
        None => {
            let mut r: Vec<Vec<char>> = Vec::new();
            r.push(slice_chars(s, 0, s.len()));
            assert(r@[0]@ =~= s@);
            assert(views(r@) =~= split_spec(s@, c));
            r
        },
        Some(i) => {
            proof {
                let k = choose|k: int| is_first_index(s@, c, k);
                lemma_first_index_exists(s@, c);
                lemma_first_index_unique(s@, c, i as int, k);
            }
            let first = slice_chars(s, 0, i);
            let rest_chars = slice_chars(s, i + 1, s.len());
            let rest = split_char(rest_chars.as_slice(), c);
            prepend_line(first, rest)
        },
    }
}

/// Number of leading characters of `s` that are not whitespace.
pub open spec fn word_len(s: Seq<char>) -> nat
    decreases s.len(),
{
    if s.len() > 0 && !char_is_whitespace(s[0]) {
        1 + word_len(s.drop_first())
    } else {
        0
    }
}

/// `s.split_whitespace().next().unwrap_or("")`: the first word of `s`, or
/// the empty text where `s` is all whitespace.
pub open spec fn first_word_spec(s: Seq<char>) -> Seq<char> {
    let t = s.subrange(leading_ws(s) as int, s.len() as int);
    t.subrange(0, word_len(t) as int)
}

proof fn lemma_word_len_step(s: Seq<char>, i: int)
    requires
        0 <= i <= s.len(),
        forall|j: int| 0 <= j < i ==> !char_is_whitespace(#[trigger] s[j]),
    ensures
        word_len(s) == i + word_len(s.subrange(i, s.len() as int)),
    decreases i,
{
    if i > 0 {
        assert(!char_is_whitespace(s[0]));
        assert(s.drop_first().subrange(i - 1, s.len() - 1) =~= s.subrange(i, s.len() as int));
        assert forall|j: int| 0 <= j < i - 1 implies !char_is_whitespace(
            #[trigger] s.drop_first()[j],
        ) by {
            assert(s.drop_first()[j] == s[j + 1]);
        }
        lemma_word_len_step(s.drop_first(), i - 1);
    } else {
        assert(s.subrange(0, s.len() as int) =~= s);
    }
}

/// The first whitespace-separated word of `s` (empty where there is none).
pub fn first_word(s: &[char]) -> (r: Vec<char>)
    ensures
        r@ == first_word_spec(s@),
{
    let mut a: usize = 0;
    while a < s.len() && is_whitespace(s[a])
        invariant
            a <= s.len(),
            forall|j: int| 0 <= j < a ==> char_is_whitespace(#[trigger] s@[j]),
        decreases s.len() - a,
    {
        a = a + 1;
    }
    proof {
        if a < s.len() {
            lemma_leading_ws_step(s@, a as int);
            assert(!char_is_whitespace(s@.subrange(a as int, s@.len() as int)[0]));
        } else {
            lemma_all_ws_leading(s@);
        }
    }
    let t = slice_chars(s, a, s.len());
    let mut b: usize = 0;
    while b < t.len() && !is_whitespace(t[b])
        invariant
            b <= t.len(),
            forall|j: int| 0 <= j < b ==> !char_is_whitespace(#[trigger] t@[j]),
        decreases t.len() - b,
    {
        b = b + 1;
    }
    proof {
        lemma_word_len_step(t@, b as int);
        if b < t.len() {
            assert(char_is_whitespace(t@.subrange(b as int, t@.len() as int)[0]));
        } else {
            assert(t@.subrange(b as int, t@.len() as int).len() == 0);
        }
    }
    slice_chars(t.as_slice(), 0, b)
}

/// Number of trailing characters of `s` that are not whitespace.
pub open spec fn trailing_word_len(s: Seq<char>) -> nat
    decreases s.len(),
{
    if s.len() > 0 && !char_is_whitespace(s.last()) {
        1 + trailing_word_len(s.drop_last())
    } else {
        0
    }
}

/// `s.split_whitespace().last().unwrap_or("")`: the last word of `s`, or
/// the empty text where `s` is all whitespace.
pub open spec fn last_word_spec(s: Seq<char>) -> Seq<char> {
    let t = s.subrange(0, s.len() - trailing_ws(s));
    t.subrange(t.len() - trailing_word_len(t), t.len() as int)
}

proof fn lemma_trailing_word_step(s: Seq<char>, i: int)
    requires
        0 <= i <= s.len(),
        forall|j: int| i <= j < s.len() ==> !char_is_whitespace(#[trigger] s[j]),
    ensures
        trailing_word_len(s) == (s.len() - i) + trailing_word_len(s.subrange(0, i)),
    decreases s.len() - i,
{
    if i < s.len() {
        assert(s.drop_last().subrange(0, i) =~= s.subrange(0, i));
        assert forall|j: int| i <= j < s.len() - 1 implies !char_is_whitespace(
            #[trigger] s.drop_last()[j],
        ) by {
            assert(s.drop_last()[j] == s[j]);
        }
        lemma_trailing_word_step(s.drop_last(), i);
    } else {
        assert(s.subrange(0, i) =~= s);
    }
}

/// The last whitespace-separated word of `s` (empty where there is none).
pub fn last_word(s: &[char]) -> (r: Vec<char>)
    ensures
        r@ == last_word_spec(s@),
{
    let mut b: usize = s.len();
    while b > 0 && is_whitespace(s[b - 1])
        invariant
            b <= s.len(),
            forall|j: int| b <= j < s.len() ==> char_is_whitespace(#[trigger] s@[j]),
        decreases b,
    {
        b = b - 1;
    }
    proof {
        lemma_trailing_ws_step(s@, b as int);
        if b > 0 {
            assert(s@.subrange(0, b as int).last() == s@[b - 1]);
        }
    }
    let t = slice_chars(s, 0, b);
    let mut a: usize = t.len();
    while a > 0 && !is_whitespace(t[a - 1])
        invariant
            a <= t.len(),
            forall|j: int| a <= j < t.len() ==> !char_is_whitespace(#[trigger] t@[j]),
        decreases a,
    {
        a = a - 1;
    }
    proof {
        lemma_trailing_word_step(t@, a as int);
        if a > 0 {
            assert(t@.subrange(0, a as int).last() == t@[a - 1]);
        }
    }
    slice_chars(t.as_slice(), a, t.len())
}

/// The text `String::from_utf8_lossy` makes of `bytes` (invalid sequences
/// replaced by U+FFFD).
pub uninterp spec fn lossy_text(bytes: Seq<u8>) -> Seq<char>;

/// `String::from_utf8_lossy`.
#[verifier::external_body]
pub(crate) fn utf8_lossy(bytes: &[u8]) -> (r: Vec<char>)
    ensures
        r@ == lossy_text(bytes@),
{
    String::from_utf8_lossy(bytes).chars().collect()
}

/// The lowercase form of `s` (`str::to_lowercase`).
pub uninterp spec fn lowercase_text(s: Seq<char>) -> Seq<char>;

/// An ASCII capital letter made small; every other character unchanged.
pub open spec fn ascii_lower(c: char) -> char {
    if 65 <= (c as u32) && (c as u32) <= 90 {
        ((c as u32) + 32) as char
    } else {
        c
    }
}

/// `str::to_lowercase`.
///
/// The contract names the result and claims what the standard library
/// documents for ASCII text: ASCII capitals become small letters and every
/// other character stays.
#[verifier::external_body]
pub(crate) fn to_lowercase(s: &str) -> (r: String)
    ensures
        r@ == lowercase_text(s@),
        (forall|i: int| 0 <= i < s@.len() ==> (#[trigger] s@[i] as u32) < 128) ==> r@ == s@.map_values(
            |c: char| ascii_lower(c),
        ),
{
    s.to_lowercase()
}

} // verus!
