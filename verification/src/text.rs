//! Character and string helpers shared by the parsers of this crate.
//!
//! Strings are handled as sequences of `char`s (`Seq<char>`, the view of
//! `str` and `String`). Whitespace follows `char::is_whitespace`, i.e. the
//! Unicode `White_Space` property.

use vstd::prelude::*;
use vstd::std_specs::iter::IteratorSpec;

verus! {

/// The Unicode `White_Space` property, which `char::is_whitespace` tests.
pub open spec fn is_ws(c: char) -> bool {
    let u = c as u32;
    ||| 0x9 <= u <= 0xd
    ||| u == 0x20
    ||| u == 0x85
    ||| u == 0xa0
    ||| u == 0x1680
    ||| 0x2000 <= u <= 0x200a
    ||| u == 0x2028
    ||| u == 0x2029
    ||| u == 0x202f
    ||| u == 0x205f
    ||| u == 0x3000
}

pub fn is_whitespace(c: char) -> (r: bool)
    ensures
        r == is_ws(c),
{
    let u = c as u32;
    (0x9 <= u && u <= 0xd) || u == 0x20 || u == 0x85 || u == 0xa0 || u == 0x1680 || (0x2000
        <= u && u <= 0x200a) || u == 0x2028 || u == 0x2029 || u == 0x202f || u == 0x205f || u
        == 0x3000
}

/// The characters of `s`.
pub fn chars_of(s: &str) -> (v: Vec<char>)
    ensures
        v@ == s@,
{
    broadcast use vstd::string::axiom_spec_iter, vstd::string::next_postcondition;

    let mut it = s.chars();
    let mut v: Vec<char> = Vec::new();
    loop
        invariant
            v@ + it.remaining() == s@,
        decreases s@.len() - v@.len(),
    {
        match it.next() {
            Some(c) => {
                v.push(c);
                assert(v@ + it.remaining() =~= s@);
            },
            None => {
                assert(v@ =~= s@);
                return v;
            },
        }
    }
}


/// The string made of the characters `v`.
#[verifier::external_body]
pub(crate) fn string_of(v: &[char]) -> (s: String)
    ensures
        s@ == v@,
{
    v.iter().collect()
}

/// `s` with leading whitespace removed (`str::trim_start`).
pub open spec fn trim_start(s: Seq<char>) -> Seq<char>
    decreases s.len(),
{
    if s.len() > 0 && is_ws(s[0]) {
        trim_start(s.drop_first())
    } else {
        s
    }
}

/// `s` with trailing whitespace removed (`str::trim_end`).
pub open spec fn trim_end(s: Seq<char>) -> Seq<char>
    decreases s.len(),
{
    if s.len() > 0 && is_ws(s.last()) {
        trim_end(s.drop_last())
    } else {
        s
    }
}

/// `s` with leading and trailing whitespace removed (`str::trim`).
pub open spec fn trim(s: Seq<char>) -> Seq<char> {
    trim_end(trim_start(s))
}

/// The number of leading characters of `s` that `trim_start` removes.
pub open spec fn lead_ws(s: Seq<char>) -> nat
    decreases s.len(),
{
    if s.len() > 0 && is_ws(s[0]) {
        1 + lead_ws(s.drop_first())
    } else {
        0
    }
}

pub proof fn lemma_trim_start_skip(s: Seq<char>)
    ensures
        lead_ws(s) <= s.len(),
        trim_start(s) == s.skip(lead_ws(s) as int),
        forall|i: int| 0 <= i < lead_ws(s) ==> is_ws(#[trigger] s[i]),
        lead_ws(s) < s.len() ==> !is_ws(s[lead_ws(s) as int]),
    decreases s.len(),
{
    if s.len() > 0 && is_ws(s[0]) {
        lemma_trim_start_skip(s.drop_first());
        assert(s.drop_first().skip(lead_ws(s.drop_first()) as int) =~= s.skip(lead_ws(s) as int));
        assert forall|i: int| 0 <= i < lead_ws(s) implies is_ws(#[trigger] s[i]) by {
            if i > 0 {
                assert(s[i] == s.drop_first()[i - 1]);
            }
        }
    } else {
        assert(s.skip(0) =~= s);
    }
}

/// The number of trailing characters of `s` that `trim_end` removes.
pub open spec fn trail_ws(s: Seq<char>) -> nat
    decreases s.len(),
{
    if s.len() > 0 && is_ws(s.last()) {
        1 + trail_ws(s.drop_last())
    } else {
        0
    }
}

pub proof fn lemma_trim_end_take(s: Seq<char>)
    ensures
        trail_ws(s) <= s.len(),
        trim_end(s) == s.take(s.len() - trail_ws(s)),
        forall|i: int| s.len() - trail_ws(s) <= i < s.len() ==> is_ws(#[trigger] s[i]),
        trail_ws(s) < s.len() ==> !is_ws(s[s.len() - trail_ws(s) - 1]),
    decreases s.len(),
{
    if s.len() > 0 && is_ws(s.last()) {
        lemma_trim_end_take(s.drop_last());
        assert(s.drop_last().take(s.drop_last().len() - trail_ws(s.drop_last())) =~= s.take(
            s.len() - trail_ws(s),
        ));
        assert forall|i: int| s.len() - trail_ws(s) <= i < s.len() implies is_ws(
            #[trigger] s[i],
        ) by {
            if i < s.len() - 1 {
                assert(s[i] == s.drop_last()[i]);
            }
        }
    } else {
        assert(s.take(s.len() as int) =~= s);
    }
}

/// Trimming twice trims no more than once.
pub proof fn lemma_trim_idempotent(s: Seq<char>)
    ensures
        trim(trim(s)) == trim(s),
{
    let a = trim_start(s);
    let t = trim_end(a);
    lemma_trim_start_skip(s);
    lemma_trim_end_take(a);
    lemma_trim_start_skip(t);
    if t.len() > 0 {
        assert(t[0] == a[0]);
        assert(!is_ws(t[0]));
    }
    assert(lead_ws(t) == 0) by {
        if t.len() > 0 {
            assert(!is_ws(t[0]));
        }
    }
    assert(trim_start(t) =~= t);
    lemma_trim_end_take(t);
    if t.len() > 0 {
        assert(t.last() == a[a.len() - trail_ws(a) - 1]);
    }
    assert(trail_ws(t) == 0) by {
        if t.len() > 0 {
            assert(!is_ws(t.last()));
        }
    }
    assert(trim_end(t) =~= t);
}

/// The characters of `v` from `lo` up to `hi`.
pub fn sub_chars(v: &Vec<char>, lo: usize, hi: usize) -> (r: Vec<char>)
    requires
        lo <= hi <= v.len(),
    ensures
        r@ == v@.subrange(lo as int, hi as int),
{
    let mut r: Vec<char> = Vec::new();
    let mut i = lo;
    while i < hi
        invariant
            lo <= i <= hi <= v.len(),
            r@ == v@.subrange(lo as int, i as int),
        decreases hi - i,
    {
        r.push(v[i]);
        i = i + 1;
        assert(r@ =~= v@.subrange(lo as int, i as int));
    }
    r
}

/// Index of the first character `trim_start` keeps.
pub fn trim_start_index(v: &Vec<char>) -> (i: usize)
    ensures
        i == lead_ws(v@),
        i <= v.len(),
{
    proof {
        lemma_trim_start_skip(v@);
    }
    let mut i: usize = 0;
    while i < v.len() && is_whitespace(v[i])
        invariant
            i <= v.len(),
            i <= lead_ws(v@),
            lead_ws(v@) <= v.len(),
            forall|j: int| 0 <= j < lead_ws(v@) ==> is_ws(#[trigger] v@[j]),
            lead_ws(v@) < v.len() ==> !is_ws(v@[lead_ws(v@) as int]),
        decreases v.len() - i,
    {
        i = i + 1;
    }
    i
}

/// Index one past the last character `trim_end` keeps.
pub fn trim_end_index(v: &Vec<char>) -> (i: usize)
    ensures
        i == v.len() - trail_ws(v@),
{
    proof {
        lemma_trim_end_take(v@);
    }
    let mut i: usize = v.len();
    while i > 0 && is_whitespace(v[i - 1])
        invariant
            i <= v.len(),
            i >= v.len() - trail_ws(v@),
            trail_ws(v@) <= v.len(),
            forall|j: int| v.len() - trail_ws(v@) <= j < v.len() ==> is_ws(#[trigger] v@[j]),
            trail_ws(v@) < v.len() ==> !is_ws(v@[v.len() - trail_ws(v@) - 1]),
        decreases i,
    {
        i = i - 1;
    }
    i
}

pub fn trim_chars(v: &Vec<char>) -> (r: Vec<char>)
    ensures
        r@ == trim(v@),
{
    let lo = trim_start_index(v);
    let t = sub_chars(v, lo, v.len());
    proof {
        lemma_trim_start_skip(v@);
        assert(t@ =~= trim_start(v@));
    }
    let hi = trim_end_index(&t);
    proof {
        lemma_trim_end_take(t@);
    }
    let r = sub_chars(&t, 0, hi);
    proof {
        assert(r@ =~= trim_end(t@));
    }
    r
}


/// ASCII lowercase of one character (`char::to_ascii_lowercase`).
pub open spec fn ascii_lower(c: char) -> char {
    if 'A' <= c <= 'Z' {
        ((c as u32) + 32) as char
    } else {
        c
    }
}

pub fn to_ascii_lower(c: char) -> (r: char)
    ensures
        r == ascii_lower(c),
{
    if 'A' <= c && c <= 'Z' {
        (c as u8 + 32) as char
    } else {
        c
    }
}

/// ASCII case-insensitive equality (`str::eq_ignore_ascii_case`).
pub open spec fn eq_ci(a: Seq<char>, b: Seq<char>) -> bool {
    a.len() == b.len() && forall|i: int| 0 <= i < a.len() ==> ascii_lower(#[trigger] a[i])
        == ascii_lower(b[i])
}

/// `s` begins with `p` up to ASCII case.
pub open spec fn starts_with_ci(s: Seq<char>, p: Seq<char>) -> bool {
    p.len() <= s.len() && eq_ci(s.take(p.len() as int), p)
}

/// `p` occurs in `s` at position `i`.
pub open spec fn occurs_at(s: Seq<char>, p: Seq<char>, i: int) -> bool {
    0 <= i && i + p.len() <= s.len() && s.subrange(i, i + p.len()) == p
}

/// `p` occurs somewhere in `s` (`str::contains`).
pub open spec fn contains(s: Seq<char>, p: Seq<char>) -> bool {
    exists|i: int| occurs_at(s, p, i)
}

/// `s` begins with `p` (`str::starts_with`).
pub open spec fn starts_with(s: Seq<char>, p: Seq<char>) -> bool {
    p.len() <= s.len() && s.take(p.len() as int) == p
}

/// `s` ends with `p` (`str::ends_with`).
pub open spec fn ends_with(s: Seq<char>, p: Seq<char>) -> bool {
    p.len() <= s.len() && s.skip(s.len() - p.len()) == p
}

/// Whether `a[lo..lo + b.len()]` equals `b` up to ASCII case.
pub fn eq_ci_at(a: &Vec<char>, lo: usize, b: &Vec<char>) -> (r: bool)
    requires
        lo <= a.len(),
    ensures
        r == (lo + b.len() <= a.len() && eq_ci(a@.subrange(lo as int, lo + b.len()), b@)),
{
    if b.len() > a.len() - lo {
        return false;
    }
    let mut i: usize = 0;
    while i < b.len()
        invariant
            lo + b.len() <= a.len(),
            i <= b.len(),
            forall|j: int| 0 <= j < i ==> ascii_lower(#[trigger] a@[lo + j]) == ascii_lower(b@[j]),
        decreases b.len() - i,
    {
        if to_ascii_lower(a[lo + i]) != to_ascii_lower(b[i]) {
            assert(a@.subrange(lo as int, lo + b.len())[i as int] == a@[lo + i]);
            return false;
        }
        i = i + 1;
    }
    proof {
        assert forall|j: int| 0 <= j < b.len() implies ascii_lower(
            #[trigger] a@.subrange(lo as int, lo + b.len())[j],
        ) == ascii_lower(b@[j]) by {
            assert(a@.subrange(lo as int, lo + b.len())[j] == a@[lo + j]);
        }
    }
    true
}

/// Whether `a[lo..lo + b.len()]` equals `b`.
pub fn eq_at(a: &Vec<char>, lo: usize, b: &Vec<char>) -> (r: bool)
    requires
        lo <= a.len(),
    ensures
        r == (lo + b.len() <= a.len() && a@.subrange(lo as int, lo + b.len()) == b@),
{
    if b.len() > a.len() - lo {
        return false;
    }
    let mut i: usize = 0;
    while i < b.len()
        invariant
            lo + b.len() <= a.len(),
            i <= b.len(),
            forall|j: int| 0 <= j < i ==> #[trigger] a@[lo + j] == b@[j],
        decreases b.len() - i,
    {
        if a[lo + i] != b[i] {
            assert(a@.subrange(lo as int, lo + b.len())[i as int] == a@[lo + i]);
            return false;
        }
        i = i + 1;
    }
    proof {
        assert forall|j: int| 0 <= j < b.len() implies #[trigger] a@.subrange(
            lo as int,
            lo + b.len(),
        )[j] == b@[j] by {
            assert(a@.subrange(lo as int, lo + b.len())[j] == a@[lo + j]);
        }
        assert(a@.subrange(lo as int, lo + b.len()) =~= b@);
    }
    true
}

pub fn starts_with_ci_exec(s: &Vec<char>, p: &Vec<char>) -> (r: bool)
    ensures
        r == starts_with_ci(s@, p@),
{
    eq_ci_at(s, 0, p)
}

pub fn starts_with_exec(s: &Vec<char>, p: &Vec<char>) -> (r: bool)
    ensures
        r == starts_with(s@, p@),
{
    let r = eq_at(s, 0, p);
    assert(r ==> s@.take(p@.len() as int) =~= s@.subrange(0, p@.len() as int));
    assert(starts_with(s@, p@) ==> s@.take(p@.len() as int) =~= s@.subrange(0, p@.len() as int));
    r
}

pub fn ends_with_exec(s: &Vec<char>, p: &Vec<char>) -> (r: bool)
    ensures
        r == ends_with(s@, p@),
{
    if p.len() > s.len() {
        return false;
    }
    let r = eq_at(s, s.len() - p.len(), p);
    assert(s@.skip(s.len() - p.len()) =~= s@.subrange(s.len() - p.len(), s.len() as int));
    r
}


pub fn contains_exec(s: &Vec<char>, p: &Vec<char>) -> (r: bool)
    ensures
        r == contains(s@, p@),
{
    if p.len() > s.len() {
        return false;
    }
    let last = s.len() - p.len();
    let mut i: usize = 0;
    loop
        invariant
            p.len() <= s.len(),
            last == s.len() - p.len(),
            i <= last,
            forall|j: int| 0 <= j < i ==> !#[trigger] occurs_at(s@, p@, j),
        ensures
            forall|j: int| 0 <= j <= last ==> !#[trigger] occurs_at(s@, p@, j),
        decreases last - i,
    {
        if eq_at(s, i, p) {
            assert(occurs_at(s@, p@, i as int));
            return true;
        }
        if i == last {
            break;
        }
        i = i + 1;
    }
    assert forall|j: int| !#[trigger] occurs_at(s@, p@, j) by {
        if 0 <= j <= last {
        }
    }
    false
}


/// The ASCII digit for `d < 10`.
pub open spec fn digit_char(d: int) -> char {
    (48 + d) as char
}

/// Decimal representation of `n` without leading zeros (`u64`'s `Display`).
pub open spec fn dec(n: nat) -> Seq<char>
    decreases n,
{
    if n < 10 {
        seq![digit_char(n as int)]
    } else {
        dec(n / 10).push(digit_char((n % 10) as int))
    }
}

pub fn digit(d: u64) -> (c: char)
    requires
        d < 10,
    ensures
        c == digit_char(d as int),
{
    (48u8 + d as u8) as char
}

/// Decimal characters of `n`.
pub fn dec_chars(n: u64) -> (v: Vec<char>)
    ensures
        v@ == dec(n as nat),
    decreases n,
{
    if n < 10 {
        let mut v: Vec<char> = Vec::new();
        v.push(digit(n));
        assert(v@ =~= seq![digit_char(n as int)]);
        v
    } else {
        let mut v = dec_chars(n / 10);
        v.push(digit(n % 10));
        v
    }
}

/// Appends the characters of `w` to `v`.
pub fn append_chars(v: &mut Vec<char>, w: &Vec<char>)
    ensures
        final(v)@ == old(v)@ + w@,
{
    let mut i: usize = 0;
    while i < w.len()
        invariant
            i <= w.len(),
            v@ == old(v)@ + w@.take(i as int),
        decreases w.len() - i,
    {
        v.push(w[i]);
        i = i + 1;
        assert(v@ =~= old(v)@ + w@.take(i as int));
    }
    assert(w@.take(w.len() as int) =~= w@);
}

pub open spec fn is_digit(c: char) -> bool {
    '0' <= c <= '9'
}

pub open spec fn digit_val(c: char) -> int {
    c as int - 48
}

pub open spec fn all_digits(s: Seq<char>) -> bool {
    forall|i: int| 0 <= i < s.len() ==> is_digit(#[trigger] s[i])
}

/// The number written by the decimal digits `s`.
pub open spec fn digits_val(s: Seq<char>) -> int
    decreases s.len(),
{
    if s.len() == 0 {
        0
    } else {
        digits_val(s.drop_last()) * 10 + digit_val(s.last())
    }
}

/// `u64::from_str`: an optional `+` followed by at least one decimal digit,
/// the value fitting in `u64`.
pub open spec fn parse_u64(s: Seq<char>) -> Option<u64> {
    let b = if s.len() > 0 && s[0] == '+' {
        s.drop_first()
    } else {
        s
    };
    if b.len() > 0 && all_digits(b) && digits_val(b) <= u64::MAX {
        Some(digits_val(b) as u64)
    } else {
        None
    }
}

pub proof fn lemma_digits_val_nonneg(s: Seq<char>)
    requires
        all_digits(s),
    ensures
        digits_val(s) >= 0,
    decreases s.len(),
{
    if s.len() > 0 {
        lemma_digits_val_nonneg(s.drop_last());
        assert(is_digit(s[s.len() - 1]));
    }
}

pub proof fn lemma_digits_val_prefix(s: Seq<char>, k: int)
    requires
        all_digits(s),
        0 <= k <= s.len(),
    ensures
        digits_val(s.take(k)) <= digits_val(s),
    decreases s.len() - k,
{
    if k < s.len() {
        lemma_digits_val_prefix(s, k + 1);
        let t = s.take(k + 1);
        assert(t.drop_last() =~= s.take(k));
        assert(is_digit(s[k]));
        lemma_digits_val_nonneg(s.take(k));
    } else {
        assert(s.take(k) =~= s);
    }
}

/// Value of the decimal digits `v[lo..hi]`, `None` when they are not all
/// digits, empty, or too large for `u64`.
pub fn digits_value(v: &Vec<char>, lo: usize, hi: usize) -> (r: Option<u64>)
    requires
        lo <= hi <= v.len(),
    ensures
        ({
            let b = v@.subrange(lo as int, hi as int);
            r == if b.len() > 0 && all_digits(b) && digits_val(b) <= u64::MAX {
                Some(digits_val(b) as u64)
            } else {
                None::<u64>
            }
        }),
{
    let ghost b = v@.subrange(lo as int, hi as int);
    if lo == hi {
        return None;
    }
    let mut i = lo;
    while i < hi
        invariant
            lo <= i <= hi <= v.len(),
            b == v@.subrange(lo as int, hi as int),
            forall|j: int| lo <= j < i ==> is_digit(#[trigger] v@[j]),
        decreases hi - i,
    {
        if !('0' <= v[i] && v[i] <= '9') {
            assert(b[i - lo] == v@[i as int]);
            return None;
        }
        i = i + 1;
    }
    assert(all_digits(b)) by {
        assert forall|j: int| 0 <= j < b.len() implies is_digit(#[trigger] b[j]) by {
            assert(b[j] == v@[lo + j]);
        }
    }
    let mut acc: u64 = 0;
    let mut k = lo;
    while k < hi
        invariant
            lo <= k <= hi <= v.len(),
            b == v@.subrange(lo as int, hi as int),
            all_digits(b),
            acc == digits_val(b.take(k - lo)),
        decreases hi - k,
    {
        let ghost t = b.take(k - lo + 1);
        proof {
            assert(t.drop_last() =~= b.take(k - lo));
            assert(t.last() == v@[k as int]);
            assert(is_digit(b[k - lo]));
        }
        let d = (v[k] as u32 - 48) as u64;
        match acc.checked_mul(10) {
            Some(m) => {
                match m.checked_add(d) {
                    Some(a) => {
                        acc = a;
                    },
                    None => {
                        proof {
                            lemma_digits_val_prefix(b, k - lo + 1);
                        }
                        return None;
                    },
                }
            },
            None => {
                proof {
                    lemma_digits_val_prefix(b, k - lo + 1);
                    assert(is_digit(b[k - lo]));
                }
                return None;
            },
        }
        k = k + 1;
    }
    assert(b.take(hi - lo) =~= b);
    Some(acc)
}

/// `u64::from_str` on the characters `v[lo..hi]`.
pub fn parse_u64_range(v: &Vec<char>, lo: usize, hi: usize) -> (r: Option<u64>)
    requires
        lo <= hi <= v.len(),
    ensures
        r == parse_u64(v@.subrange(lo as int, hi as int)),
{
    let ghost s = v@.subrange(lo as int, hi as int);
    if lo < hi && v[lo] == '+' {
        assert(s.drop_first() =~= v@.subrange(lo + 1, hi as int));
        digits_value(v, lo + 1, hi)
    } else {
        digits_value(v, lo, hi)
    }
}


/// Length of the longest prefix of `s` whose characters all satisfy `p`.
pub open spec fn count_while(s: Seq<char>, p: spec_fn(char) -> bool) -> nat
    decreases s.len(),
{
    if s.len() > 0 && p(s[0]) {
        1 + count_while(s.drop_first(), p)
    } else {
        0
    }
}

/// `count_while` is the unique length `k` such that the first `k`
/// characters satisfy `p` and the next one (if any) does not.
pub proof fn lemma_count_while(s: Seq<char>, p: spec_fn(char) -> bool, k: int)
    requires
        0 <= k <= s.len(),
        forall|i: int| 0 <= i < k ==> p(#[trigger] s[i]),
        k < s.len() ==> !p(s[k]),
    ensures
        count_while(s, p) == k,
    decreases k,
{
    if k > 0 {
        assert forall|i: int| 0 <= i < k - 1 implies p(#[trigger] s.drop_first()[i]) by {
            assert(s.drop_first()[i] == s[i + 1]);
        }
        if k - 1 < s.drop_first().len() {
            assert(s.drop_first()[k - 1] == s[k]);
        }
        assert(p(s[0]));
        lemma_count_while(s.drop_first(), p, k - 1);
    }
}

pub proof fn lemma_count_while_bound(s: Seq<char>, p: spec_fn(char) -> bool)
    ensures
        count_while(s, p) <= s.len(),
    decreases s.len(),
{
    if s.len() > 0 && p(s[0]) {
        lemma_count_while_bound(s.drop_first(), p);
    }
}


/// Whether two strings are equal.
pub fn str_eq(a: &str, b: &str) -> (r: bool)
    ensures
        r == (a@ == b@),
{
    let x = chars_of(a);
    let y = chars_of(b);
    let r = x.len() == y.len() && eq_at(&x, 0, &y);
    assert(x@.len() == y@.len() ==> x@.subrange(0, y@.len() as int) =~= x@);
    r
}

/// Concatenation of two strings.
pub fn concat_str(a: &str, b: &str) -> (r: String)
    ensures
        r@ == a@ + b@,
{
    let mut v = chars_of(a);
    let w = chars_of(b);
    append_chars(&mut v, &w);
    string_of(v.as_slice())
}

/// Filtering a sequence extended by one element.
pub proof fn lemma_filter_push<T>(s: Seq<T>, x: T, pred: spec_fn(T) -> bool)
    ensures
        s.push(x).filter(pred) == if pred(x) {
            s.filter(pred).push(x)
        } else {
            s.filter(pred)
        },
{
    reveal(Seq::filter);
    assert(s.push(x).drop_last() =~= s);
}

} // verus!
