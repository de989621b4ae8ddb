//! The list of installed engines, newest install first.

use vstd::prelude::*;
use crate::installer::{InstalledVersion, PulsarInstallMetadata};
use crate::text::{chars_of, lemma_filter_push, str_eq};

verus! {

/// `a >= b` in the order of `String`: characters compared by code point
/// (the order of their UTF-8 bytes), a proper prefix below the longer text.
pub open spec fn text_ge(a: Seq<char>, b: Seq<char>) -> bool
    decreases a.len(),
{
    if b.len() == 0 {
        true
    } else if a.len() == 0 {
        false
    } else if a[0] != b[0] {
        (a[0] as int) > (b[0] as int)
    } else {
        text_ge(a.drop_first(), b.drop_first())
    }
}

fn text_ge_exec(a: &Vec<char>, b: &Vec<char>) -> (r: bool)
    ensures
        r == text_ge(a@, b@),
{
    let mut i: usize = 0;
    assert(a@.skip(0) =~= a@);
    assert(b@.skip(0) =~= b@);
    while i < a.len() && i < b.len() && a[i] == b[i]
        invariant
            i <= a@.len(),
            i <= b@.len(),
            text_ge(a@.skip(i as int), b@.skip(i as int)) == text_ge(a@, b@),
        decreases a@.len() - i,
    {
        assert(a@.skip(i as int).drop_first() =~= a@.skip(i + 1));
        assert(b@.skip(i as int).drop_first() =~= b@.skip(i + 1));
        i = i + 1;
    }
    if i == b.len() {
        true
    } else if i == a.len() {
        false
    } else {
        a[i] > b[i]
    }
}

pub open spec fn install_date(v: InstalledVersion) -> Seq<char> {
    v.metadata.install_date@
}

/// Number of leading entries installed no earlier than `date`.
pub open spec fn lead_newer(s: Seq<InstalledVersion>, date: Seq<char>) -> nat
    decreases s.len(),
{
    if s.len() > 0 && text_ge(install_date(s[0]), date) {
        1 + lead_newer(s.drop_first(), date)
    } else {
        0
    }
}

proof fn lemma_lead_newer(s: Seq<InstalledVersion>, date: Seq<char>, k: int)
    requires
        0 <= k <= s.len(),
        forall|i: int| 0 <= i < k ==> text_ge(install_date(#[trigger] s[i]), date),
        k < s.len() ==> !text_ge(install_date(s[k]), date),
    ensures
        lead_newer(s, date) == k,
    decreases k,
{
    if k > 0 {
        assert forall|i: int| 0 <= i < k - 1 implies text_ge(
            install_date(#[trigger] s.drop_first()[i]),
            date,
        ) by {
            assert(s.drop_first()[i] == s[i + 1]);
        }
        if k - 1 < s.drop_first().len() {
            assert(s.drop_first()[k - 1] == s[k]);
        }
        lemma_lead_newer(s.drop_first(), date, k - 1);
    }
}

/// Installed versions ordered newest install first; equal dates keep their
/// order (a stable sort by install date, descending).
pub open spec fn newest_install_first(s: Seq<InstalledVersion>) -> Seq<InstalledVersion>
    decreases s.len(),
{
    if s.len() == 0 {
        s
    } else {
        let t = newest_install_first(s.drop_last());
        t.insert(lead_newer(t, install_date(s.last())) as int, s.last())
    }
}

/// Sorts installed versions newest install first, keeping the order of
/// equal install dates.
pub fn sort_newest_install_first(versions: &mut Vec<InstalledVersion>)
    ensures
        final(versions)@ == newest_install_first(old(versions)@),
{
    let ghost orig = versions@;
    let n = versions.len();
    let mut sorted: Vec<InstalledVersion> = Vec::new();
    let mut dates: Vec<Vec<char>> = Vec::new();
    let mut i: usize = 0;
    assert(orig.take(0) =~= Seq::<InstalledVersion>::empty());
    while i < n
        invariant
            n == orig.len(),
            i <= n,
            versions@ == orig.skip(i as int),
            sorted@ == newest_install_first(orig.take(i as int)),
            dates@.len() == sorted@.len(),
            forall|j: int| 0 <= j < sorted@.len() ==> #[trigger] dates@[j]@ == install_date(sorted@[j]),
        decreases n - i,
    {
        let v = versions.remove(0);
        let d = chars_of(v.metadata.install_date.as_str());
        let ghost prev = sorted@;
        let mut k: usize = 0;
        while k < sorted.len() && text_ge_exec(&dates[k], &d)
            invariant
                k <= sorted@.len(),
                sorted@ == prev,
                dates@.len() == sorted@.len(),
                forall|j: int| 0 <= j < sorted@.len() ==> #[trigger] dates@[j]@ == install_date(sorted@[j]),
                d@ == install_date(v),
                forall|j: int| 0 <= j < k ==> text_ge(install_date(#[trigger] sorted@[j]), d@),
            decreases sorted@.len() - k,
        {
            assert(dates@[k as int]@ == install_date(sorted@[k as int]));
            k = k + 1;
        }
        proof {
            if k < sorted@.len() {
                assert(dates@[k as int]@ == install_date(sorted@[k as int]));
            }
            lemma_lead_newer(prev, install_date(v), k as int);
            assert(v == orig[i as int]);
            assert(orig.take(i + 1).drop_last() =~= orig.take(i as int));
            assert(orig.take(i + 1).last() == v);
            assert(orig.skip(i as int).drop_first() =~= orig.skip(i + 1));
        }
        let ghost old_dates = dates@;
        sorted.insert(k, v);
        dates.insert(k, d);
        proof {
            assert forall|j: int| 0 <= j < sorted@.len() implies #[trigger] dates@[j]@
                == install_date(sorted@[j]) by {
                if j < k {
                    assert(dates@[j] == old_dates[j]);
                } else if j > k {
                    assert(dates@[j] == old_dates[j - 1]);
                }
            }
        }
        i = i + 1;
    }
    assert(orig.take(n as int) =~= orig);
    *versions = sorted;
}

pub open spec fn is_not_source(v: InstalledVersion) -> bool {
    v.metadata.version@ != "src"@
}

pub open spec fn not_source() -> spec_fn(InstalledVersion) -> bool {
    |v: InstalledVersion| is_not_source(v)
}

/// The installed versions with the local source checkout as the `src`
/// engine: any scanned `src` entry replaced by one for `src_path`, installed
/// at `install_date`, and the list ordered newest install first.
pub fn with_source_engine(
    versions: Vec<InstalledVersion>,
    src_path: String,
    install_date: String,
) -> (r: Vec<InstalledVersion>)
    ensures
        exists|entry: InstalledVersion|
            {
                &&& entry.metadata.version@ == "src"@
                &&& entry.metadata.install_date == install_date
                &&& entry.metadata.install_path == src_path
                &&& entry.disk_size_bytes == 0
                &&& !entry.update_available
                &&& r@ == newest_install_first(#[trigger] versions@.filter(not_source()).push(entry))
            },
{
    let mut kept: Vec<InstalledVersion> = Vec::new();
    let mut rest = versions;
    let ghost orig = rest@;
    let total = rest.len();
    assert(orig.len() == total);
    let mut i: usize = 0;
    assert(orig.take(0) =~= Seq::<InstalledVersion>::empty());
    while rest.len() > 0
        invariant
            orig == orig.take(i as int) + rest@,
            i + rest@.len() == orig.len(),
            orig.len() <= usize::MAX,
            kept@ == orig.take(i as int).filter(not_source()),
        decreases rest@.len(),
    {
        let v = rest.remove(0);
        proof {
            assert(orig[i as int] == v);
            lemma_filter_push(orig.take(i as int), v, not_source());
            assert(orig.take(i + 1) =~= orig.take(i as int).push(v));
            assert(orig.take(i + 1) + rest@ =~= orig);
        }
        if !str_eq(v.metadata.version.as_str(), "src") {
            kept.push(v);
        }
        i = i + 1;
    }
    assert(orig.take(i as int) =~= orig);
    let ghost filtered = kept@;
    let entry = InstalledVersion {
        metadata: PulsarInstallMetadata {
            version: "src".to_string(),
            install_date,
            install_path: src_path,
        },
        disk_size_bytes: 0,
        update_available: false,
    };
    let ghost e = entry;
    kept.push(entry);
    sort_newest_install_first(&mut kept);
    assert(kept@ == newest_install_first(filtered.push(e)));
    kept
}


proof fn lemma_text_ge_total(a: Seq<char>, b: Seq<char>)
    ensures
        text_ge(a, b) || text_ge(b, a),
    decreases a.len(),
{
    if a.len() > 0 && b.len() > 0 {
        if a[0] == b[0] {
            lemma_text_ge_total(a.drop_first(), b.drop_first());
        } else {
            assert((a[0] as int) != (b[0] as int));
        }
    }
}

proof fn lemma_text_ge_refl(a: Seq<char>)
    ensures
        text_ge(a, a),
    decreases a.len(),
{
    if a.len() > 0 {
        lemma_text_ge_refl(a.drop_first());
    }
}

proof fn lemma_text_ge_trans(a: Seq<char>, b: Seq<char>, c: Seq<char>)
    requires
        text_ge(a, b),
        text_ge(b, c),
    ensures
        text_ge(a, c),
    decreases a.len(),
{
    if c.len() > 0 && a.len() > 0 && b.len() > 0 && a[0] == b[0] && b[0] == c[0] {
        lemma_text_ge_trans(a.drop_first(), b.drop_first(), c.drop_first());
    }
}

proof fn lemma_lead_newer_props(s: Seq<InstalledVersion>, date: Seq<char>)
    ensures
        lead_newer(s, date) <= s.len(),
        forall|i: int| 0 <= i < lead_newer(s, date) ==> text_ge(install_date(#[trigger] s[i]), date),
        lead_newer(s, date) < s.len() ==> !text_ge(install_date(s[lead_newer(s, date) as int]), date),
    decreases s.len(),
{
    if s.len() > 0 && text_ge(install_date(s[0]), date) {
        lemma_lead_newer_props(s.drop_first(), date);
        assert forall|i: int| 0 <= i < lead_newer(s, date) implies text_ge(
            install_date(#[trigger] s[i]),
            date,
        ) by {
            if i > 0 {
                assert(s[i] == s.drop_first()[i - 1]);
            }
        }
        if lead_newer(s, date) < s.len() {
            assert(s[lead_newer(s, date) as int] == s.drop_first()[lead_newer(s.drop_first(), date) as int]);
        }
    }
}

/// Install dates never increase along the list.
pub open spec fn newest_first(s: Seq<InstalledVersion>) -> bool {
    forall|i: int, j: int|
        0 <= i < j < s.len() ==> text_ge(install_date(#[trigger] s[i]), install_date(#[trigger] s[j]))
}

/// Ordering the installed versions newest install first keeps every entry
/// and leaves install dates never increasing.
pub proof fn law_newest_install_first(s: Seq<InstalledVersion>)
    ensures
        newest_first(newest_install_first(s)),
        newest_install_first(s).to_multiset() =~= s.to_multiset(),
        newest_install_first(s).len() == s.len(),
    decreases s.len(),
{
    broadcast use vstd::multiset::group_multiset_axioms;

    if s.len() > 0 {
        let t = newest_install_first(s.drop_last());
        let x = s.last();
        let d = install_date(x);
        law_newest_install_first(s.drop_last());
        lemma_lead_newer_props(t, d);
        let k = lead_newer(t, d) as int;
        let r = t.insert(k, x);
        crate::installer::lemma_insert_multiset(t, k, x);
        s.drop_last().to_multiset_ensures();
        assert(s.drop_last().push(x) =~= s);
        t.insert_ensures(k, x);
        assert forall|i: int, j: int| 0 <= i < j < r.len() implies text_ge(
            install_date(#[trigger] r[i]),
            install_date(#[trigger] r[j]),
        ) by {
            if j < k {
                assert(r[i] == t[i] && r[j] == t[j]);
            } else if j == k {
                assert(r[j] == x);
                assert(r[i] == t[i]);
            } else if i == k {
                assert(r[i] == x);
                assert(r[j] == t[j - 1]);
                if k < t.len() {
                    lemma_text_ge_total(install_date(t[k]), d);
                    if k < j - 1 {
                        assert(text_ge(install_date(t[k]), install_date(t[j - 1])));
                    } else {
                        lemma_text_ge_refl(install_date(t[k]));
                    }
                    lemma_text_ge_trans(d, install_date(t[k]), install_date(t[j - 1]));
                }
            } else if i < k {
                assert(r[i] == t[i] && r[j] == t[j - 1]);
            } else {
                assert(r[i] == t[i - 1] && r[j] == t[j - 1]);
            }
        }
    }
}

} // verus!
