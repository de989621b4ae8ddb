//! The summary shown on a release card, cut out of the release notes'
//! Markdown: the "Highlights" section when there is one, otherwise the first
//! section after the last "Container Images" heading.

use vstd::prelude::*;
use crate::platform::{first_where, lemma_first_where, lowers_as_ascii, to_lowercase, unicode_lowercase};
use crate::text::{
    chars_of, contains, contains_exec, lead_ws, lemma_count_while,
    lemma_trim_start_skip, count_while, string_of, sub_chars, trim,
    trim_chars, trim_start, trim_start_index, append_chars,
};

verus! {

/// `l` without one trailing carriage return.
pub open spec fn strip_cr(l: Seq<char>) -> Seq<char> {
    if l.len() > 0 && l.last() == '\r' {
        l.drop_last()
    } else {
        l
    }
}

/// The lines of `s` after the partial line `cur`: split at `\n`, a `\r`
/// before a `\n` dropped, and no empty line after a final `\n`.
pub open spec fn lines_from(s: Seq<char>, cur: Seq<char>) -> Seq<Seq<char>>
    decreases s.len(),
{
    if s.len() == 0 {
        if cur.len() == 0 {
            Seq::empty()
        } else {
            seq![cur]
        }
    } else if s[0] == '\n' {
        seq![strip_cr(cur)] + lines_from(s.drop_first(), Seq::empty())
    } else {
        lines_from(s.drop_first(), cur.push(s[0]))
    }
}

/// The lines of `s` (`str::lines`).
pub open spec fn spec_lines(s: Seq<char>) -> Seq<Seq<char>> {
    lines_from(s, Seq::empty())
}

pub open spec fn rows(v: Seq<Vec<char>>) -> Seq<Seq<char>> {
    v.map_values(|r: Vec<char>| r@)
}

/// The text of a Markdown heading line: the line without its leading
/// whitespace, `#` markers and the whitespace after them; `None` for a line
/// that is no heading.
pub open spec fn spec_heading_text(line: Seq<char>) -> Option<Seq<char>> {
    let t = trim_start(line);
    let h = count_while(t, |c: char| c == '#');
    if h == 0 {
        None
    } else {
        Some(trim_start(t.skip(h as int)))
    }
}

/// Whether `line` starts, after whitespace, with `#`.
pub open spec fn spec_is_heading(line: Seq<char>) -> bool {
    let t = trim_start(line);
    t.len() > 0 && t[0] == '#'
}

pub open spec fn heading() -> spec_fn(Seq<char>) -> bool {
    |line: Seq<char>| spec_is_heading(line)
}

/// Whether `line` is a heading whose lowercased text contains `needle`.
pub open spec fn heading_with(needle: Seq<char>) -> spec_fn(Seq<char>) -> bool {
    |line: Seq<char>|
        spec_heading_text(line) matches Some(t) && contains(unicode_lowercase(t), needle)
}

/// The index of the last element satisfying `p`, if any.
pub open spec fn last_where<T>(s: Seq<T>, p: spec_fn(T) -> bool) -> Option<int>
    decreases s.len(),
{
    if s.len() == 0 {
        None
    } else if p(s.last()) {
        Some(s.len() - 1)
    } else {
        last_where(s.drop_last(), p)
    }
}

/// Lines joined with `\n` between them.
pub open spec fn join_lines(ls: Seq<Seq<char>>) -> Seq<char>
    decreases ls.len(),
{
    if ls.len() == 0 {
        Seq::empty()
    } else if ls.len() == 1 {
        ls[0]
    } else {
        join_lines(ls.drop_last()) + seq!['\n'] + ls.last()
    }
}

/// Index of the first heading at or after `from`, or the number of lines.
pub open spec fn next_heading(ls: Seq<Seq<char>>, from: int) -> int {
    from + first_where(ls.skip(from), heading())
}

/// The section that starts at line `start`: up to the next heading, joined
/// and trimmed.
pub open spec fn section_at(ls: Seq<Seq<char>>, start: int) -> Seq<char> {
    trim(join_lines(ls.subrange(start, next_heading(ls, start + 1))))
}

/// The "Highlights" section of release notes: from the first heading whose
/// text contains "highlights" (in any case) to the next heading; empty when
/// there is none.
pub open spec fn spec_highlights(markdown: Seq<char>) -> Seq<char> {
    let ls = spec_lines(markdown);
    let start = first_where(ls, heading_with("highlights"@));
    if start < ls.len() {
        section_at(ls, start as int)
    } else {
        Seq::empty()
    }
}

/// The first section after the last heading whose text contains "container
/// images" (in any case); empty when there is no such heading or no heading
/// after it.
pub open spec fn spec_after_container_images(markdown: Seq<char>) -> Seq<char> {
    let ls = spec_lines(markdown);
    match last_where(ls, heading_with("container images"@)) {
        None => Seq::empty(),
        Some(ci) => {
            let start = next_heading(ls, ci + 1);
            if start < ls.len() {
                section_at(ls, start)
            } else {
                Seq::empty()
            }
        },
    }
}

/// The summary of a release card: the highlights, or else the section after
/// the container images.
pub open spec fn spec_summary(markdown: Seq<char>) -> Seq<char> {
    let h = spec_highlights(markdown);
    if h.len() > 0 {
        h
    } else {
        spec_after_container_images(markdown)
    }
}

fn strip_cr_chars(v: Vec<char>) -> (r: Vec<char>)
    ensures
        r@ == strip_cr(v@),
{
    let mut v = v;
    if v.len() > 0 && v[v.len() - 1] == '\r' {
        v.pop();
    }
    v
}

/// The lines of `markdown`.
pub fn lines_of(markdown: &str) -> (r: Vec<Vec<char>>)
    ensures
        rows(r@) == spec_lines(markdown@),
{
    let s = chars_of(markdown);
    let mut out: Vec<Vec<char>> = Vec::new();
    let mut cur: Vec<char> = Vec::new();
    let mut i: usize = 0;
    assert(s@.skip(0) =~= s@);
    assert(rows(out@) + spec_lines(markdown@) =~= spec_lines(markdown@));
    while i < s.len()
        invariant
            i <= s@.len(),
            s@ == markdown@,
            rows(out@) + lines_from(s@.skip(i as int), cur@) == spec_lines(markdown@),
        decreases s@.len() - i,
    {
        let ghost rest = s@.skip(i as int);
        assert(rest.drop_first() =~= s@.skip(i + 1));
        assert(rest[0] == s@[i as int]);
        if s[i] == '\n' {
            let line = strip_cr_chars(cur);
            let ghost before = rows(out@);
            out.push(line);
            assert(rows(out@) =~= before.push(strip_cr(cur@)));
            assert(before + (seq![strip_cr(cur@)] + lines_from(s@.skip(i + 1), Seq::empty()))
                =~= rows(out@) + lines_from(s@.skip(i + 1), Seq::empty()));
            cur = Vec::new();
            assert(cur@ =~= Seq::<char>::empty());
        } else {
            cur.push(s[i]);
        }
        i = i + 1;
    }
    assert(s@.skip(i as int) =~= Seq::<char>::empty());
    if cur.len() > 0 {
        let ghost before = rows(out@);
        let ghost last = cur@;
        out.push(cur);
        assert(rows(out@) =~= before + seq![last]);
    } else {
        assert(rows(out@) + Seq::<Seq<char>>::empty() =~= rows(out@));
    }
    out
}

fn trim_start_chars(v: &Vec<char>) -> (r: Vec<char>)
    ensures
        r@ == trim_start(v@),
{
    proof {
        lemma_trim_start_skip(v@);
    }
    let i = trim_start_index(v);
    let r = sub_chars(v, i, v.len());
    assert(r@ =~= v@.skip(lead_ws(v@) as int));
    r
}

/// The text of a heading line, or `None` when the line is no heading.
pub fn heading_text(line: &Vec<char>) -> (r: Option<Vec<char>>)
    ensures
        (match r {
            Some(t) => spec_heading_text(line@) == Some(t@),
            None => spec_heading_text(line@) is None,
        }),
{
    let t = trim_start_chars(line);
    let mut h: usize = 0;
    while h < t.len() && t[h] == '#'
        invariant
            h <= t@.len(),
            forall|j: int| 0 <= j < h ==> #[trigger] t@[j] == '#',
        decreases t@.len() - h,
    {
        h = h + 1;
    }
    proof {
        lemma_count_while(t@, |c: char| c == '#', h as int);
    }
    if h == 0 {
        return None;
    }
    let rest = sub_chars(&t, h, t.len());
    assert(rest@ =~= t@.skip(h as int));
    Some(trim_start_chars(&rest))
}

/// Whether `line` starts, after whitespace, with `#`.
pub fn is_heading(line: &Vec<char>) -> (r: bool)
    ensures
        r == spec_is_heading(line@),
{
    let t = trim_start_chars(line);
    t.len() > 0 && t[0] == '#'
}

/// The text of a heading line, if ASCII, is lowered the ASCII way.
pub open spec fn heading_lowers_as_ascii(line: Seq<char>) -> bool {
    spec_heading_text(line) matches Some(t) ==> lowers_as_ascii(t)
}

fn is_heading_with(line: &Vec<char>, needle: &Vec<char>) -> (r: bool)
    ensures
        r == heading_with(needle@)(line@),
        heading_lowers_as_ascii(line@),
{
    match heading_text(line) {
        None => false,
        Some(t) => {
            let text = string_of(t.as_slice());
            let lowered = to_lowercase(text.as_str());
            let l = chars_of(lowered.as_str());
            contains_exec(&l, needle)
        },
    }
}

fn next_heading_exec(ls: &Vec<Vec<char>>, from: usize) -> (r: usize)
    requires
        from <= ls@.len(),
    ensures
        r == next_heading(rows(ls@), from as int),
        r <= ls@.len(),
{
    let ghost tail = rows(ls@).skip(from as int);
    let mut k: usize = from;
    while k < ls.len() && !is_heading(&ls[k])
        invariant
            from <= k <= ls@.len(),
            tail == rows(ls@).skip(from as int),
            forall|m: int| from <= m < k ==> !spec_is_heading(#[trigger] rows(ls@)[m]),
        decreases ls@.len() - k,
    {
        assert(rows(ls@)[k as int] == ls@[k as int]@);
        k = k + 1;
    }
    proof {
        assert forall|m: int| 0 <= m < k - from implies !heading()(#[trigger] tail[m]) by {
            assert(tail[m] == rows(ls@)[m + from]);
        }
        if k < ls.len() {
            assert(tail[k - from] == rows(ls@)[k as int]);
            assert(rows(ls@)[k as int] == ls@[k as int]@);
        }
        lemma_first_where(tail, heading(), k - from);
    }
    k
}

fn first_heading_with(ls: &Vec<Vec<char>>, needle: &Vec<char>) -> (r: usize)
    ensures
        r == first_where(rows(ls@), heading_with(needle@)),
        r <= ls@.len(),
        forall|m: int| 0 <= m < ls@.len() && m <= r ==> #[trigger] heading_lowers_as_ascii(rows(ls@)[m]),
{
    let mut k: usize = 0;
    let mut found = false;
    while k < ls.len() && !found
        invariant
            k <= ls@.len(),
            found ==> k < ls@.len() && heading_with(needle@)(rows(ls@)[k as int]),
            forall|m: int| 0 <= m < k ==> !heading_with(needle@)(#[trigger] rows(ls@)[m]),
            forall|m: int|
                0 <= m < ls@.len() && (m < k || (found && m == k)) ==> #[trigger] heading_lowers_as_ascii(
                    rows(ls@)[m],
                ),
        decreases ls@.len() - k + (if found { 0int } else { 1int }),
    {
        assert(rows(ls@)[k as int] == ls@[k as int]@);
        if is_heading_with(&ls[k], needle) {
            found = true;
        } else {
            k = k + 1;
        }
    }
    proof {
        if k < ls.len() {
            assert(rows(ls@)[k as int] == ls@[k as int]@);
        }
        lemma_first_where(rows(ls@), heading_with(needle@), k as int);
    }
    k
}

fn last_heading_with(ls: &Vec<Vec<char>>, needle: &Vec<char>) -> (r: Option<usize>)
    ensures
        (match last_where(rows(ls@), heading_with(needle@)) {
            None => r is None,
            Some(i) => r matches Some(k) && k == i,
        }),
        r matches Some(k) ==> k < ls@.len(),
        forall|m: int| 0 <= m < ls@.len() ==> #[trigger] heading_lowers_as_ascii(rows(ls@)[m]),
{
    let mut last: Option<usize> = None;
    let mut i: usize = 0;
    assert(rows(ls@).take(0) =~= Seq::<Seq<char>>::empty());
    while i < ls.len()
        invariant
            i <= ls@.len(),
            (match last_where(rows(ls@).take(i as int), heading_with(needle@)) {
                None => last is None,
                Some(j) => last matches Some(k) && k == j,
            }),
            last matches Some(k) ==> k < i,
            forall|m: int| 0 <= m < i ==> #[trigger] heading_lowers_as_ascii(rows(ls@)[m]),
        decreases ls@.len() - i,
    {
        assert(rows(ls@).take(i + 1).drop_last() =~= rows(ls@).take(i as int));
        assert(rows(ls@).take(i + 1).last() == ls@[i as int]@);
        if is_heading_with(&ls[i], needle) {
            last = Some(i);
        }
        i = i + 1;
    }
    assert(rows(ls@).take(i as int) =~= rows(ls@));
    last
}

/// The section starting at line `start`, joined and trimmed.
fn section_text(ls: &Vec<Vec<char>>, start: usize) -> (r: String)
    requires
        start < ls@.len(),
    ensures
        r@ == section_at(rows(ls@), start as int),
{
    let n = ls.len();
    assert(start + 1 <= n);
    let end = next_heading_exec(ls, start + 1);
    let ghost rs = rows(ls@);
    let mut acc: Vec<char> = ls[start].clone();
    assert(rs.subrange(start as int, start + 1) =~= seq![rs[start as int]]);
    assert(rs[start as int] == ls@[start as int]@);
    let mut j: usize = start + 1;
    while j < end
        invariant
            start < j <= end <= ls@.len(),
            rs == rows(ls@),
            acc@ == join_lines(rs.subrange(start as int, j as int)),
        decreases end - j,
    {
        assert(rs.subrange(start as int, j + 1).drop_last() =~= rs.subrange(start as int, j as int));
        assert(rs.subrange(start as int, j + 1).last() == ls@[j as int]@);
        acc.push('\n');
        append_chars(&mut acc, &ls[j]);
        assert(acc@ =~= join_lines(rs.subrange(start as int, j as int)) + seq!['\n'] + ls@[j as int]@);
        j = j + 1;
    }
    let t = trim_chars(&acc);
    string_of(t.as_slice())
}

/// The release notes' "Highlights" section: from the first heading (of any
/// level) whose text contains "highlights" in any case, up to the next
/// heading; empty when there is no such heading.
pub fn extract_highlights(markdown: &str) -> (r: String)
    ensures
        r@ == spec_highlights(markdown@),
        forall|m: int|
            0 <= m < spec_lines(markdown@).len() && m <= first_where(
                spec_lines(markdown@),
                heading_with("highlights"@),
            ) ==> #[trigger] heading_lowers_as_ascii(spec_lines(markdown@)[m]),
{
    let ls = lines_of(markdown);
    let needle = chars_of("highlights");
    let start = first_heading_with(&ls, &needle);
    if start < ls.len() {
        section_text(&ls, start)
    } else {
        String::new()
    }
}

/// The first section after the last heading containing "container images"
/// in any case; empty when there is none.
pub fn extract_first_section_after_container_images(markdown: &str) -> (r: String)
    ensures
        r@ == spec_after_container_images(markdown@),
        forall|m: int|
            0 <= m < spec_lines(markdown@).len() ==> #[trigger] heading_lowers_as_ascii(
                spec_lines(markdown@)[m],
            ),
{
    let ls = lines_of(markdown);
    let needle = chars_of("container images");
    let ci = match last_heading_with(&ls, &needle) {
        None => return String::new(),
        Some(ci) => ci,
    };
    let n = ls.len();
    assert(ci + 1 <= n);
    let start = next_heading_exec(&ls, ci + 1);
    if start < ls.len() {
        section_text(&ls, start)
    } else {
        String::new()
    }
}

/// The summary shown on a release card.
pub fn extract_summary(markdown: &str) -> (r: String)
    ensures
        r@ == spec_summary(markdown@),
{
    let highlights = extract_highlights(markdown);
    if !highlights.as_str().is_empty() {
        return highlights;
    }
    extract_first_section_after_container_images(markdown)
}

} // verus!
