//! Engine version strings: parsing release tags and project requirements,
//! and deciding whether an installed engine satisfies a project.

use vstd::prelude::*;
use crate::text::{
    all_digits, chars_of, count_while, digits_val, digits_value, eq_at, lemma_digits_val_nonneg, eq_ci, eq_ci_at,
    starts_with_ci, starts_with_ci_exec, string_of, is_digit, is_whitespace, is_ws, lemma_count_while, lemma_count_while_bound,
    lemma_trim_start_skip, parse_u64, parse_u64_range, sub_chars, trim, trim_chars, trim_end, trim_start,
    trim_start_index,
};

verus! {

/// Characters stripped from the front of a version string before parsing.
pub open spec fn is_version_lead(c: char) -> bool {
    c == 'v' || c == 'V' || c == '>' || c == '<' || c == '=' || c == ' '
}

pub open spec fn version_lead() -> spec_fn(char) -> bool {
    |c: char| is_version_lead(c)
}

pub open spec fn not_ws() -> spec_fn(char) -> bool {
    |c: char| !is_ws(c)
}

pub open spec fn not_dot() -> spec_fn(char) -> bool {
    |c: char| c != '.'
}

/// First whitespace-separated word of `t`, or `t` itself when it has none
/// (`t.split_whitespace().next().unwrap_or(t)`).
pub open spec fn first_word(t: Seq<char>) -> Seq<char> {
    let u = trim_start(t);
    if u.len() == 0 {
        t
    } else {
        u.take(count_while(u, not_ws()) as int)
    }
}

/// The part of `s` before its first `.`.
pub open spec fn dot_head(s: Seq<char>) -> Seq<char> {
    s.take(count_while(s, not_dot()) as int)
}

/// What follows the first `.` of `s`, if `s` has one.
pub open spec fn dot_tail(s: Seq<char>) -> Option<Seq<char>> {
    let k = count_while(s, not_dot());
    if k < s.len() {
        Some(s.skip(k + 1 as int))
    } else {
        None
    }
}

/// `s.trim_end_matches(|c: char| !c.is_ascii_digit())`.
pub open spec fn strip_nondigit_end(s: Seq<char>) -> Seq<char>
    decreases s.len(),
{
    if s.len() > 0 && !is_digit(s.last()) {
        strip_nondigit_end(s.drop_last())
    } else {
        s
    }
}

/// A minor or patch component: absent or unparsable components count as 0.
pub open spec fn version_component(part: Option<Seq<char>>) -> u64 {
    match part {
        None => 0,
        Some(p) => match parse_u64(strip_nondigit_end(dot_head(p))) {
            Some(n) => n,
            None => 0,
        },
    }
}

/// The leading `major.minor.patch` of a release tag or version string: the
/// string is trimmed, leading `v`, `V`, `>`, `<`, `=` and spaces are dropped,
/// the first word is split at `.`, and each part loses its trailing
/// non-digits. The major part must parse; missing or unparsable minor and
/// patch parts are 0.
pub open spec fn spec_parse_version(tag: Seq<char>) -> Option<(u64, u64, u64)> {
    let t = trim(tag);
    let t2 = t.skip(count_while(t, version_lead()) as int);
    let w = first_word(t2);
    match parse_u64(strip_nondigit_end(dot_head(w))) {
        None => None,
        Some(major) => {
            let r1 = dot_tail(w);
            let r2 = match r1 {
                None => None,
                Some(r) => dot_tail(r),
            };
            Some((major, version_component(r1), version_component(r2)))
        },
    }
}

fn count_version_lead(v: &Vec<char>) -> (k: usize)
    ensures
        k == count_while(v@, version_lead()),
{
    let mut k: usize = 0;
    while k < v.len() && (v[k] == 'v' || v[k] == 'V' || v[k] == '>' || v[k] == '<' || v[k]
        == '=' || v[k] == ' ')
        invariant
            k <= v.len(),
            forall|i: int| 0 <= i < k ==> (version_lead())(#[trigger] v@[i]),
        decreases v.len() - k,
    {
        k = k + 1;
    }
    proof {
        lemma_count_while(v@, version_lead(), k as int);
    }
    k
}

fn count_not_dot(v: &Vec<char>) -> (k: usize)
    ensures
        k == count_while(v@, not_dot()),
{
    let mut k: usize = 0;
    while k < v.len() && v[k] != '.'
        invariant
            k <= v.len(),
            forall|i: int| 0 <= i < k ==> (not_dot())(#[trigger] v@[i]),
        decreases v.len() - k,
    {
        k = k + 1;
    }
    proof {
        lemma_count_while(v@, not_dot(), k as int);
    }
    k
}

fn count_not_ws(v: &Vec<char>) -> (k: usize)
    ensures
        k == count_while(v@, not_ws()),
{
    let mut k: usize = 0;
    while k < v.len() && !is_whitespace(v[k])
        invariant
            k <= v.len(),
            forall|i: int| 0 <= i < k ==> (not_ws())(#[trigger] v@[i]),
        decreases v.len() - k,
    {
        k = k + 1;
    }
    proof {
        lemma_count_while(v@, not_ws(), k as int);
    }
    k
}

fn first_word_chars(t: &Vec<char>) -> (w: Vec<char>)
    ensures
        w@ == first_word(t@),
{
    let lo = trim_start_index(t);
    proof {
        lemma_trim_start_skip(t@);
    }
    if lo == t.len() {
        assert(trim_start(t@).len() == 0);
        return sub_chars(t, 0, t.len());
    }
    let u = sub_chars(t, lo, t.len());
    assert(u@ =~= trim_start(t@));
    let k = count_not_ws(&u);
    proof {
        lemma_count_while_bound(u@, not_ws());
    }
    let w = sub_chars(&u, 0, k);
    assert(w@ =~= u@.take(k as int));
    w
}

proof fn lemma_strip_nondigit_end(s: Seq<char>, e: int)
    requires
        0 <= e <= s.len(),
        forall|i: int| e <= i < s.len() ==> !is_digit(#[trigger] s[i]),
        e > 0 ==> is_digit(s[e - 1]),
    ensures
        strip_nondigit_end(s) == s.take(e),
    decreases s.len(),
{
    if e < s.len() {
        assert(!is_digit(s.last()));
        assert forall|i: int| e <= i < s.drop_last().len() implies !is_digit(
            #[trigger] s.drop_last()[i],
        ) by {
            assert(s.drop_last()[i] == s[i]);
        }
        if e > 0 {
            assert(s.drop_last()[e - 1] == s[e - 1]);
        }
        lemma_strip_nondigit_end(s.drop_last(), e);
        assert(s.drop_last().take(e) =~= s.take(e));
    } else {
        assert(s.take(e) =~= s);
    }
}

/// `u64` value of `strip_nondigit_end(dot_head(p))`.
fn parse_dot_head(p: &Vec<char>) -> (r: Option<u64>)
    ensures
        r == parse_u64(strip_nondigit_end(dot_head(p@))),
{
    let k = count_not_dot(p);
    proof {
        lemma_count_while_bound(p@, not_dot());
    }
    let h = sub_chars(p, 0, k);
    assert(h@ =~= dot_head(p@));
    let mut e = h.len();
    while e > 0 && !('0' <= h[e - 1] && h[e - 1] <= '9')
        invariant
            e <= h.len(),
            forall|i: int| e <= i < h.len() ==> !is_digit(#[trigger] h@[i]),
        decreases e,
    {
        e = e - 1;
    }
    proof {
        lemma_strip_nondigit_end(h@, e as int);
        assert(h@.take(e as int) =~= h@.subrange(0, e as int));
    }
    parse_u64_range(&h, 0, e)
}

/// The characters after the first `.` of `p`, if any.
fn dot_tail_chars(p: &Vec<char>) -> (r: Option<Vec<char>>)
    ensures
        match dot_tail(p@) {
            None => r is None,
            Some(t) => r matches Some(v) && v@ == t,
        },
{
    let k = count_not_dot(p);
    proof {
        lemma_count_while_bound(p@, not_dot());
    }
    if k < p.len() {
        let t = sub_chars(p, k + 1, p.len());
        assert(t@ =~= p@.skip(k + 1));
        Some(t)
    } else {
        None
    }
}

fn component(part: &Option<Vec<char>>) -> (n: u64)
    ensures
        n == version_component(
            match part {
                None => None,
                Some(v) => Some(v@),
            },
        ),
{
    match part {
        None => 0,
        Some(p) => match parse_dot_head(p) {
            Some(n) => n,
            None => 0,
        },
    }
}

/// Parse a leading `x.y.z` from a release tag / version string.
pub fn parse_version(tag: &str) -> (r: Option<(u64, u64, u64)>)
    ensures
        r == spec_parse_version(tag@),
{
    let v = chars_of(tag);
    let t = trim_chars(&v);
    let k = count_version_lead(&t);
    proof {
        lemma_count_while_bound(t@, version_lead());
    }
    let t2 = sub_chars(&t, k, t.len());
    assert(t2@ =~= t@.skip(k as int));
    let w = first_word_chars(&t2);
    match parse_dot_head(&w) {
        None => None,
        Some(major) => {
            let r1 = dot_tail_chars(&w);
            let minor = component(&r1);
            let r2 = match &r1 {
                None => None,
                Some(r) => dot_tail_chars(r),
            };
            let patch = component(&r2);
            Some((major, minor, patch))
        },
    }
}


pub open spec fn is_major_lead(c: char) -> bool {
    c == 'v' || c == 'V' || c == ' '
}

pub open spec fn major_lead() -> spec_fn(char) -> bool {
    |c: char| is_major_lead(c)
}

pub open spec fn digit_pred() -> spec_fn(char) -> bool {
    |c: char| is_digit(c)
}

/// The leading decimal number of a release tag after trimming and dropping
/// leading `v`, `V` and spaces; `None` when there is none or it exceeds
/// `i64::MAX`.
pub open spec fn spec_version_major(tag: Seq<char>) -> Option<i64> {
    let t = trim(tag);
    let t2 = t.skip(count_while(t, major_lead()) as int);
    let d = t2.take(count_while(t2, digit_pred()) as int);
    if d.len() == 0 {
        None
    } else if digits_val(d) <= i64::MAX {
        Some(digits_val(d) as i64)
    } else {
        None
    }
}

/// Parse the leading numeric major from a release tag for channel checks.
pub fn version_major(tag: &str) -> (r: Option<i64>)
    ensures
        r == spec_version_major(tag@),
{
    let v = chars_of(tag);
    let t = trim_chars(&v);
    let mut k: usize = 0;
    while k < t.len() && (t[k] == 'v' || t[k] == 'V' || t[k] == ' ')
        invariant
            k <= t.len(),
            forall|i: int| 0 <= i < k ==> (major_lead())(#[trigger] t@[i]),
        decreases t.len() - k,
    {
        k = k + 1;
    }
    proof {
        lemma_count_while(t@, major_lead(), k as int);
    }
    let t2 = sub_chars(&t, k, t.len());
    assert(t2@ =~= t@.skip(k as int));
    let mut j: usize = 0;
    while j < t2.len() && '0' <= t2[j] && t2[j] <= '9'
        invariant
            j <= t2.len(),
            forall|i: int| 0 <= i < j ==> (digit_pred())(#[trigger] t2@[i]),
        decreases t2.len() - j,
    {
        j = j + 1;
    }
    proof {
        lemma_count_while(t2@, digit_pred(), j as int);
        assert(t2@.take(j as int) =~= t2@.subrange(0, j as int));
        assert(all_digits(t2@.take(j as int)));
    }
    if j == 0 {
        return None;
    }
    let ghost d = t2@.take(j as int);
    proof {
        lemma_digits_val_nonneg(d);
    }
    match digits_value(&t2, 0, j) {
        None => {
            assert(digits_val(d) > u64::MAX);
            None
        },
        Some(n) => {
            assert(n == digits_val(d));
            if n <= 0x7fff_ffff_ffff_ffffu64 {
                Some(n as i64)
            } else {
                None
            }
        },
    }
}

/// `nightly-`, the prefix of nightly build tags.
pub open spec fn nightly() -> Seq<char> {
    seq!['n', 'i', 'g', 'h', 't', 'l', 'y', '-']
}

/// `src`, the version name of a local source checkout.
pub open spec fn src_name() -> Seq<char> {
    seq!['s', 'r', 'c']
}

pub fn nightly_chars() -> (v: Vec<char>)
    ensures
        v@ == nightly(),
{
    let v = vec!['n', 'i', 'g', 'h', 't', 'l', 'y', '-'];
    assert(v@ =~= nightly());
    v
}

pub fn src_chars() -> (v: Vec<char>)
    ensures
        v@ == src_name(),
{
    let v = vec!['s', 'r', 'c'];
    assert(v@ =~= src_name());
    v
}

/// Whether `t` (up to ASCII case, which here agrees with Unicode
/// lowercasing) starts with `nightly-`.
pub open spec fn is_nightly_tag(t: Seq<char>) -> bool {
    starts_with_ci(t, nightly())
}

/// The minimum version a project's `engine_version` requires: `None` for
/// `nightly-…` tags, otherwise the parsed leading `x.y.z`.
pub open spec fn spec_required_min_version(required: Seq<char>) -> Option<(u64, u64, u64)> {
    let t = trim(required);
    if is_nightly_tag(t) {
        None
    } else {
        spec_parse_version(t)
    }
}

/// Parse the minimum version a project requires out of an `engine_version`
/// string. `">0.1.0"` → `0.1.0`; a `nightly-…` tag yields `None`.
pub fn required_min_version(required: &str) -> (r: Option<(u64, u64, u64)>)
    ensures
        r == spec_required_min_version(required@),
{
    let v = chars_of(required);
    let t = trim_chars(&v);
    let n = nightly_chars();
    if starts_with_ci_exec(&t, &n) {
        return None;
    }
    let ts = string_of(t.as_slice());
    parse_version(ts.as_str())
}

/// Lexicographic `a >= b` on `(major, minor, patch)`.
pub open spec fn version_ge(a: (u64, u64, u64), b: (u64, u64, u64)) -> bool {
    a.0 > b.0 || (a.0 == b.0 && (a.1 > b.1 || (a.1 == b.1 && a.2 >= b.2)))
}

pub fn version_ge_exec(a: (u64, u64, u64), b: (u64, u64, u64)) -> (r: bool)
    ensures
        r == version_ge(a, b),
{
    a.0 > b.0 || (a.0 == b.0 && (a.1 > b.1 || (a.1 == b.1 && a.2 >= b.2)))
}

/// Whether an installed engine version satisfies a project's requirement:
/// `src` (any ASCII case) matches only `src`; a `nightly-…` tag must match
/// exactly (both trimmed); anything else is a minimum `x.y.z`.
pub open spec fn spec_installed_satisfies(installed: Seq<char>, required: Seq<char>) -> bool {
    let r = trim(required);
    if eq_ci(r, src_name()) {
        eq_ci(trim(installed), src_name())
    } else if is_nightly_tag(r) {
        trim(installed) == r
    } else {
        match spec_required_min_version(r) {
            None => false,
            Some(min) => match spec_parse_version(installed) {
                Some(v) => version_ge(v, min),
                None => false,
            },
        }
    }
}

/// Whether `installed_version` satisfies a project's `required` engine version.
///
/// Exact `nightly-…` tags must match exactly; everything else is treated as a
/// minimum `x.y.z` requirement.
pub fn installed_satisfies(installed_version: &str, required: &str) -> (r: bool)
    ensures
        r == spec_installed_satisfies(installed_version@, required@),
{
    let rv = chars_of(required);
    let req = trim_chars(&rv);
    let iv = chars_of(installed_version);
    let inst = trim_chars(&iv);
    let src = src_chars();
    if req.len() == src.len() && eq_ci_at(&req, 0, &src) {
        assert(req@.subrange(0, 3) =~= req@);
        let r = inst.len() == src.len() && eq_ci_at(&inst, 0, &src);
        assert(inst@.len() == 3 ==> inst@.subrange(0, 3) =~= inst@);
        return r;
    }
    assert(req@.len() == 3 ==> req@.subrange(0, 3) =~= req@);
    let n = nightly_chars();
    if starts_with_ci_exec(&req, &n) {
        let r = inst.len() == req.len() && eq_at(&inst, 0, &req);
        assert(inst@.len() == req@.len() ==> inst@.subrange(0, req@.len() as int) =~= inst@);
        return r;
    }
    let reqs = string_of(req.as_slice());
    match required_min_version(reqs.as_str()) {
        None => false,
        Some(min) => match parse_version(installed_version) {
            Some(v) => version_ge_exec(v, min),
            None => false,
        },
    }
}


/// A plain `x.y.z` requirement is a minimum: an engine at least as new as
/// one that satisfies it satisfies it too.
pub proof fn law_newer_engine_still_satisfies(older: Seq<char>, newer: Seq<char>, required: Seq<char>)
    requires
        spec_installed_satisfies(older, required),
        !eq_ci(trim(required), src_name()),
        !is_nightly_tag(trim(required)),
        spec_parse_version(newer) matches Some(n) && spec_parse_version(older) matches Some(o)
            && version_ge(n, o),
    ensures
        spec_installed_satisfies(newer, required),
{
}

/// A `nightly-…` requirement is met exactly by the same tag, nothing else.
pub proof fn law_nightly_requires_exact_tag(installed: Seq<char>, required: Seq<char>)
    requires
        is_nightly_tag(trim(required)),
    ensures
        spec_installed_satisfies(installed, required) <==> trim(installed) == trim(required),
{
    reveal_strlit("src");
    reveal_strlit("nightly");
    assert(trim(required).len() >= 7);
}


/// A plain version satisfies itself as a requirement.
pub proof fn law_version_satisfies_itself(v: Seq<char>)
    requires
        spec_parse_version(v) is Some,
        !eq_ci(trim(v), src_name()),
        !is_nightly_tag(trim(v)),
    ensures
        spec_installed_satisfies(v, v),
{
    crate::text::lemma_trim_idempotent(v);
}

/// Trailing whitespace is trimmed the same after a leading non-space.
proof fn lemma_trim_end_after(c: char, s: Seq<char>)
    requires
        !is_ws(c),
    ensures
        trim_end(seq![c] + s) == seq![c] + trim_end(s),
    decreases s.len(),
{
    let t = seq![c] + s;
    if s.len() > 0 && is_ws(s.last()) {
        assert(t.last() == s.last());
        assert(t.drop_last() =~= seq![c] + s.drop_last());
        lemma_trim_end_after(c, s.drop_last());
    } else if s.len() == 0 {
        assert(t.last() == c);
    } else {
        assert(t.last() == s.last());
    }
}

/// A version marker (`v`, `V`, `>`, `<`, `=` or a space) written in front
/// of a version string leaves the parsed version unchanged, so `v1.2.3`,
/// `>=1.2.3` and `1.2.3` all parse alike; a marker other than a space needs
/// the string not to start with whitespace.
pub proof fn law_version_marker_is_ignored(c: char, s: Seq<char>)
    requires
        is_version_lead(c),
        c == ' ' || s.len() == 0 || !is_ws(s[0]),
    ensures
        spec_parse_version(seq![c] + s) == spec_parse_version(s),
{
    let m = seq![c] + s;
    if c == ' ' {
        assert(is_ws(c));
        assert(m.drop_first() =~= s);
        assert(trim_start(m) == trim_start(s));
    } else {
        assert(!is_ws(c));
        assert(m[0] == c);
        assert(m.drop_first() =~= s);
        assert(trim_start(m) == m);
        assert(trim_start(s) == s);
        lemma_trim_end_after(c, s);
        let t = trim(m);
        let u = trim(s);
        assert(t =~= seq![c] + u);
        assert(t[0] == c);
        assert(t.drop_first() =~= u);
        assert(version_lead()(c));
        assert(count_while(t, version_lead()) == 1 + count_while(u, version_lead()));
        let k = count_while(u, version_lead());
        crate::text::lemma_count_while_bound(u, version_lead());
        assert(t.skip(1 + k as int) =~= u.skip(k as int));
    }
}

/// `version_ge` is a total order on `(major, minor, patch)` that a larger
/// major decides first, then a larger minor, then the patch: reflexive,
/// antisymmetric, transitive and total, and for equal major and minor
/// versions exactly the patch decides (so `1.2.0` is below `1.2.5`).
pub proof fn law_version_order(a: (u64, u64, u64), b: (u64, u64, u64), c: (u64, u64, u64))
    ensures
        version_ge(a, a),
        version_ge(a, b) && version_ge(b, a) ==> a == b,
        version_ge(a, b) && version_ge(b, c) ==> version_ge(a, c),
        version_ge(a, b) || version_ge(b, a),
        a.0 > b.0 ==> version_ge(a, b) && !version_ge(b, a),
        a.0 == b.0 && a.1 > b.1 ==> version_ge(a, b) && !version_ge(b, a),
        a.0 == b.0 && a.1 == b.1 ==> (version_ge(a, b) <==> a.2 >= b.2),
{
}

/// A plain requirement is a minimum compared component by component: an
/// installed version satisfies it exactly when its major is larger, or the
/// major is equal and the minor larger, or both are equal and the patch is
/// at least the required one.
pub proof fn law_minimum_requirement(installed: Seq<char>, required: Seq<char>)
    requires
        !eq_ci(trim(required), src_name()),
        !is_nightly_tag(trim(required)),
        spec_required_min_version(trim(required)) is Some,
        spec_parse_version(installed) is Some,
    ensures
        ({
            let m = spec_required_min_version(trim(required))->0;
            let v = spec_parse_version(installed)->0;
            spec_installed_satisfies(installed, required) <==> (v.0 > m.0 || (v.0 == m.0 && v.1
                > m.1) || (v.0 == m.0 && v.1 == m.1 && v.2 >= m.2))
        }),
{
}

} // verus!
