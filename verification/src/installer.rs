//! Engine installs and GitHub releases: release channels, per-repo paging
//! state, ordering releases by publish date, and matching installed
//! engines against a project's requirement.

use vstd::prelude::*;
use crate::keyed::KeyedMap;
use crate::template_cache::{last_segment, last_segment_chars};
use crate::text::{
    append_chars, ascii_lower, chars_of, contains, contains_exec, ends_with, ends_with_exec, eq_at,
    eq_ci, eq_ci_at, lemma_filter_push, occurs_at, starts_with, starts_with_ci, starts_with_ci_exec,
    starts_with_exec, str_eq, string_of, to_ascii_lower, trim, trim_chars,
};
use crate::version::{
    installed_satisfies, nightly, nightly_chars, spec_installed_satisfies, spec_version_major,
    version_major,
};

verus! {

/// Contents of the `.pulsar-install.json` file written beside an install.
#[derive(Debug, Clone)]
pub struct PulsarInstallMetadata {
    pub version: String,
    pub install_date: String,
    /// The install directory.
    pub install_path: String,
}

#[derive(Debug, Clone)]
pub struct InstalledVersion {
    pub metadata: PulsarInstallMetadata,
    pub disk_size_bytes: u64,
    pub update_available: bool,
}

#[derive(Debug, Clone)]
pub struct GitHubRelease {
    pub tag_name: String,
    pub name: String,
    pub body: String,
    pub assets: Vec<GitHubAsset>,
    pub prerelease: bool,
    /// ISO-8601 publish timestamp from the GitHub API.
    pub published_at: String,
}

#[derive(Debug, Clone)]
pub struct GitHubAsset {
    pub name: String,
    pub browser_download_url: String,
    pub size: u64,
}

/// A release channel a user can opt into.
#[derive(Debug, Clone, Copy, PartialEq, Eq, Structural, Hash)]
pub enum ReleaseChannel {
    /// Anything `>= 1.0.0` from the main Pulsar-Native repo.
    Stable,
    /// Anything `< 1.0.0` from the main Pulsar-Native repo.
    Alpha,
    /// Anything from the dedicated Nightly repo.
    Nightly,
}

/// Whether `channel` shows a release tagged `tag`.
pub open spec fn spec_includes(channel: ReleaseChannel, tag: Seq<char>) -> bool {
    match channel {
        ReleaseChannel::Nightly => true,
        ReleaseChannel::Stable => match spec_version_major(tag) {
            Some(m) => m >= 1,
            None => false,
        },
        ReleaseChannel::Alpha => match spec_version_major(tag) {
            Some(m) => m >= 0 && m < 1,
            None => false,
        },
    }
}

impl ReleaseChannel {
    pub const ALL: [ReleaseChannel; 3] = [
        ReleaseChannel::Stable,
        ReleaseChannel::Alpha,
        ReleaseChannel::Nightly,
    ];

    pub fn label(&self) -> (r: &'static str)
        ensures
            r@ == match *self {
                ReleaseChannel::Stable => "Stable"@,
                ReleaseChannel::Alpha => "Alpha"@,
                ReleaseChannel::Nightly => "Nightly"@,
            },
    {
        match self {
            ReleaseChannel::Stable => "Stable",
            ReleaseChannel::Alpha => "Alpha",
            ReleaseChannel::Nightly => "Nightly",
        }
    }

    /// The `owner/name` GitHub repository publishing this channel's releases.
    pub fn repo(&self) -> (r: &'static str)
        ensures
            r@ == match *self {
                ReleaseChannel::Nightly => "Far-Beyond-Pulsar/Nightly"@,
                _ => "Far-Beyond-Pulsar/Pulsar-Native"@,
            },
    {
        match self {
            ReleaseChannel::Stable | ReleaseChannel::Alpha => "Far-Beyond-Pulsar/Pulsar-Native",
            ReleaseChannel::Nightly => "Far-Beyond-Pulsar/Nightly",
        }
    }

    /// Whether this channel would show `release` (repo + version scoped).
    pub fn includes(&self, release: &GitHubRelease) -> (r: bool)
        ensures
            r == spec_includes(*self, release.tag_name@),
    {
        match self {
            ReleaseChannel::Nightly => true,
            ReleaseChannel::Stable => match version_major(release.tag_name.as_str()) {
                Some(m) => m >= 1,
                None => false,
            },
            ReleaseChannel::Alpha => match version_major(release.tag_name.as_str()) {
                Some(m) => m >= 0 && m < 1,
                None => false,
            },
        }
    }
}

/// Pagination/loading state for a single source repo being paged through.
#[derive(Debug, Clone)]
pub struct ChannelSource {
    pub repo: &'static str,
    pub page: u32,
    pub has_more: bool,
    pub loading: bool,
    pub error: Option<String>,
    /// Releases fetched so far for this repo (unfiltered by channel).
    pub fetched: Vec<GitHubRelease>,
}

impl ChannelSource {
    /// A source that has fetched nothing yet and expects more pages.
    pub fn new(repo: &'static str) -> (r: Self)
        ensures
            r.repo == repo,
            r.page == 0,
            r.has_more,
            !r.loading,
            r.error is None,
            r.fetched@.len() == 0,
    {
        Self { repo, page: 0, has_more: true, loading: false, error: None, fetched: Vec::new() }
    }
}

/// The canonical set of repos used as release sources: the main repo (for
/// Stable and Alpha) and the Nightly repo, both fresh.
pub fn default_channel_sources() -> (r: Vec<ChannelSource>)
    ensures
        r.len() == 2,
        r[0].repo@ == "Far-Beyond-Pulsar/Pulsar-Native"@,
        r[1].repo@ == "Far-Beyond-Pulsar/Nightly"@,
        forall|i: int|
            0 <= i < 2 ==> {
                &&& #[trigger] r[i].page == 0
                &&& r[i].has_more
                &&& !r[i].loading
                &&& r[i].error is None
                &&& r[i].fetched@.len() == 0
            },
{
    let mut v = Vec::new();
    v.push(ChannelSource::new(ReleaseChannel::Stable.repo()));
    v.push(ChannelSource::new(ReleaseChannel::Nightly.repo()));
    v
}

/// The channels selected by default: every channel except Nightly.
pub fn default_selected_channels() -> (r: Vec<ReleaseChannel>)
    ensures
        r@ == seq![ReleaseChannel::Stable, ReleaseChannel::Alpha],
{
    let mut v = Vec::new();
    v.push(ReleaseChannel::Stable);
    v.push(ReleaseChannel::Alpha);
    assert(v@ =~= seq![ReleaseChannel::Stable, ReleaseChannel::Alpha]);
    v
}

/// Whether an installed set contains at least one version satisfying `required`.
pub fn any_installed_satisfies(installed: &[InstalledVersion], required: &str) -> (r: bool)
    ensures
        r == exists|i: int|
            0 <= i < installed@.len() && spec_installed_satisfies(
                #[trigger] installed@[i].metadata.version@,
                required@,
            ),
{
    let mut i: usize = 0;
    while i < installed.len()
        invariant
            i <= installed@.len(),
            forall|j: int|
                0 <= j < i ==> !spec_installed_satisfies(
                    #[trigger] installed@[j].metadata.version@,
                    required@,
                ),
        decreases installed@.len() - i,
    {
        if installed_satisfies(installed[i].metadata.version.as_str(), required) {
            return true;
        }
        i = i + 1;
    }
    false
}


/// Number of leading entries of `s` whose key is at least `key`.
pub open spec fn lead_ge<T>(s: Seq<(i64, T)>, key: i64) -> nat
    decreases s.len(),
{
    if s.len() > 0 && s[0].0 >= key {
        1 + lead_ge(s.drop_first(), key)
    } else {
        0
    }
}

/// Inserts `x` into `s` after every leading entry whose key is at least
/// `x`'s, so that entries with equal keys keep their arrival order.
pub open spec fn insert_desc<T>(s: Seq<(i64, T)>, x: (i64, T)) -> Seq<(i64, T)> {
    s.insert(lead_ge(s, x.0) as int, x)
}

/// Stable sort by key, largest key first (what `sort_by` with reversed key
/// comparison produces).
pub open spec fn sort_desc<T>(s: Seq<(i64, T)>) -> Seq<(i64, T)>
    decreases s.len(),
{
    if s.len() == 0 {
        s
    } else {
        insert_desc(sort_desc(s.drop_last()), s.last())
    }
}

/// Pairs each element of `items` with its key.
pub open spec fn keyed<T>(keys: Seq<i64>, items: Seq<T>) -> Seq<(i64, T)> {
    Seq::new(items.len(), |i: int| (keys[i], items[i]))
}

pub open spec fn values_of<T>(s: Seq<(i64, T)>) -> Seq<T> {
    s.map_values(|p: (i64, T)| p.1)
}

proof fn lemma_lead_ge<T>(s: Seq<(i64, T)>, key: i64, k: int)
    requires
        0 <= k <= s.len(),
        forall|i: int| 0 <= i < k ==> #[trigger] s[i].0 >= key,
        k < s.len() ==> s[k].0 < key,
    ensures
        lead_ge(s, key) == k,
    decreases k,
{
    if k > 0 {
        assert forall|i: int| 0 <= i < k - 1 implies #[trigger] s.drop_first()[i].0 >= key by {
            assert(s.drop_first()[i] == s[i + 1]);
        }
        if k - 1 < s.drop_first().len() {
            assert(s.drop_first()[k - 1] == s[k]);
        }
        lemma_lead_ge(s.drop_first(), key, k - 1);
    }
}

/// Each entry with its key kept and its value mapped by `f`.
pub open spec fn key_map<T, U>(s: Seq<(i64, T)>, f: spec_fn(T) -> U) -> Seq<(i64, U)> {
    s.map_values(|p: (i64, T)| (p.0, f(p.1)))
}

proof fn lemma_lead_ge_map<T, U>(s: Seq<(i64, T)>, f: spec_fn(T) -> U, key: i64)
    ensures
        lead_ge(key_map(s, f), key) == lead_ge(s, key),
        lead_ge(s, key) <= s.len(),
    decreases s.len(),
{
    if s.len() > 0 {
        assert(key_map(s, f).drop_first() =~= key_map(s.drop_first(), f));
        lemma_lead_ge_map(s.drop_first(), f, key);
    }
}

proof fn lemma_sort_desc_len<T>(s: Seq<(i64, T)>)
    ensures
        sort_desc(s).len() == s.len(),
    decreases s.len(),
{
    if s.len() > 0 {
        lemma_sort_desc_len(s.drop_last());
        lemma_lead_ge_map(sort_desc(s.drop_last()), |t: T| t, s.last().0);
    }
}

/// Sorting by key does not look at the values: mapping the values before
/// or after sorting gives the same entries.
pub proof fn lemma_sort_desc_map<T, U>(s: Seq<(i64, T)>, f: spec_fn(T) -> U)
    ensures
        key_map(sort_desc(s), f) == sort_desc(key_map(s, f)),
    decreases s.len(),
{
    if s.len() > 0 {
        let t = s.drop_last();
        let x = s.last();
        lemma_sort_desc_map(t, f);
        lemma_sort_desc_len(t);
        assert(key_map(s, f).drop_last() =~= key_map(t, f));
        assert(key_map(s, f).last() == (x.0, f(x.1)));
        lemma_lead_ge_map(sort_desc(t), f, x.0);
        let k = lead_ge(sort_desc(t), x.0) as int;
        assert(key_map(sort_desc(t).insert(k, x), f) =~= key_map(sort_desc(t), f).insert(
            k,
            (x.0, f(x.1)),
        ));
    }
}

/// The values sorted by key, mapped by `f`, are the mapped values sorted by
/// the same keys.
pub proof fn lemma_sorted_values_map<T, U>(keys: Seq<i64>, items: Seq<T>, f: spec_fn(T) -> U)
    requires
        keys.len() == items.len(),
    ensures
        values_of(sort_desc(keyed(keys, items))).map_values(f) == values_of(
            sort_desc(keyed(keys, items.map_values(f))),
        ),
{
    lemma_sort_desc_map(keyed(keys, items), f);
    assert(key_map(keyed(keys, items), f) =~= keyed(keys, items.map_values(f)));
    let sorted = sort_desc(keyed(keys, items));
    assert(values_of(sorted).map_values(f) =~= values_of(key_map(sorted, f)));
}

/// Releases reordered so that larger keys come first; releases with equal
/// keys keep their relative order. `keys[i]` is the key of `releases[i]`.
pub fn sort_releases_by_keys(releases: &mut Vec<GitHubRelease>, keys: &Vec<i64>)
    requires
        keys@.len() == old(releases)@.len(),
    ensures
        final(releases)@ == values_of(sort_desc(keyed(keys@, old(releases)@))),
{
    let ghost orig = releases@;
    let ghost pairs_spec = keyed(keys@, orig);
    let n = releases.len();
    let mut sorted: Vec<(i64, GitHubRelease)> = Vec::new();
    let mut i: usize = 0;
    while i < n
        invariant
            n == orig.len(),
            keys@.len() == n,
            pairs_spec == keyed(keys@, orig),
            i <= n,
            releases@ == orig.skip(i as int),
            sorted@ == sort_desc(pairs_spec.take(i as int)),
        decreases n - i,
    {
        let r = releases.remove(0);
        let key = keys[i];
        let ghost prev = sorted@;
        let mut k: usize = 0;
        while k < sorted.len() && sorted[k].0 >= key
            invariant
                k <= sorted@.len(),
                sorted@ == prev,
                forall|j: int| 0 <= j < k ==> #[trigger] sorted@[j].0 >= key,
            decreases sorted@.len() - k,
        {
            k = k + 1;
        }
        proof {
            lemma_lead_ge(prev, key, k as int);
            assert(r == orig[i as int]);
            assert(pairs_spec.take(i + 1).drop_last() =~= pairs_spec.take(i as int));
            assert(pairs_spec.take(i + 1).last() == (key, r));
            assert(orig.skip(i as int).drop_first() =~= orig.skip(i + 1));
        }
        sorted.insert(k, (key, r));
        i = i + 1;
    }
    assert(pairs_spec.take(n as int) =~= pairs_spec);
    let ghost result = sorted@;
    let m = sorted.len();
    let mut j: usize = 0;
    while j < m
        invariant
            m == result.len(),
            j <= m,
            sorted@ == result.skip(j as int),
            releases@ == values_of(result.take(j as int)),
        decreases m - j,
    {
        let (_, r) = sorted.remove(0);
        releases.push(r);
        proof {
            assert(result.skip(j as int).drop_first() =~= result.skip(j + 1));
            assert(values_of(result.take(j + 1)) =~= values_of(result.take(j as int)).push(r));
        }
        j = j + 1;
    }
    assert(result.take(m as int) =~= result);
}


/// Keys never increase along `s`.
pub open spec fn is_sorted_desc<T>(s: Seq<(i64, T)>) -> bool {
    forall|i: int, j: int| 0 <= i < j < s.len() ==> #[trigger] s[i].0 >= #[trigger] s[j].0
}

/// Selects the entries whose key is `key`.
pub open spec fn key_is<T>(key: i64) -> spec_fn((i64, T)) -> bool {
    |p: (i64, T)| p.0 == key
}

proof fn lemma_lead_ge_props<T>(s: Seq<(i64, T)>, key: i64)
    ensures
        lead_ge(s, key) <= s.len(),
        forall|i: int| 0 <= i < lead_ge(s, key) ==> #[trigger] s[i].0 >= key,
        lead_ge(s, key) < s.len() ==> s[lead_ge(s, key) as int].0 < key,
    decreases s.len(),
{
    if s.len() > 0 && s[0].0 >= key {
        lemma_lead_ge_props(s.drop_first(), key);
        assert forall|i: int| 0 <= i < lead_ge(s, key) implies #[trigger] s[i].0 >= key by {
            if i > 0 {
                assert(s[i] == s.drop_first()[i - 1]);
            }
        }
    }
}

proof fn lemma_insert_desc_sorted<T>(s: Seq<(i64, T)>, x: (i64, T))
    requires
        is_sorted_desc(s),
    ensures
        is_sorted_desc(insert_desc(s, x)),
        forall|j: int|
            lead_ge(s, x.0) <= j < s.len() ==> #[trigger] s[j].0 < x.0,
{
    lemma_lead_ge_props(s, x.0);
    let k = lead_ge(s, x.0) as int;
    s.insert_ensures(k, x);
    let r = insert_desc(s, x);
    assert forall|j: int| k <= j < s.len() implies #[trigger] s[j].0 < x.0 by {
        if j > k {
            assert(s[k].0 >= s[j].0);
        }
    }
    assert forall|i: int, j: int| 0 <= i < j < r.len() implies #[trigger] r[i].0
        >= #[trigger] r[j].0 by {
        if i < k {
            if j < k {
            } else if j == k {
            } else {
                assert(r[j] == s[j - 1]);
            }
        } else if i == k {
            assert(r[j] == s[j - 1]);
        } else {
            assert(r[i] == s[i - 1]);
            assert(r[j] == s[j - 1]);
        }
    }
}

/// The order `sort_desc` produces has keys that never increase.
pub proof fn law_sort_desc_sorted<T>(s: Seq<(i64, T)>)
    ensures
        is_sorted_desc(sort_desc(s)),
    decreases s.len(),
{
    if s.len() > 0 {
        law_sort_desc_sorted(s.drop_last());
        lemma_insert_desc_sorted(sort_desc(s.drop_last()), s.last());
    }
}

pub proof fn lemma_insert_multiset<T>(s: Seq<T>, k: int, x: T)
    requires
        0 <= k <= s.len(),
    ensures
        s.insert(k, x).to_multiset() =~= s.to_multiset().insert(x),
{
    broadcast use vstd::seq_lib::group_seq_properties, vstd::multiset::group_multiset_axioms;

    let a = s.subrange(0, k);
    let b = s.subrange(k, s.len() as int);
    assert(s =~= a + b);
    vstd::seq_lib::lemma_multiset_commutative(a.push(x), b);
    vstd::seq_lib::lemma_multiset_commutative(a, b);
    a.to_multiset_ensures();
}

/// `sort_desc` reorders entries without adding or losing any.
pub proof fn law_sort_desc_permutation<T>(s: Seq<(i64, T)>)
    ensures
        sort_desc(s).to_multiset() =~= s.to_multiset(),
        sort_desc(s).len() == s.len(),
    decreases s.len(),
{
    broadcast use vstd::multiset::group_multiset_axioms;

    if s.len() > 0 {
        law_sort_desc_permutation(s.drop_last());
        let t = sort_desc(s.drop_last());
        lemma_lead_ge_props(t, s.last().0);
        lemma_insert_multiset(t, lead_ge(t, s.last().0) as int, s.last());
        s.drop_last().to_multiset_ensures();
        assert(s.drop_last().push(s.last()) =~= s);
        t.insert_ensures(lead_ge(t, s.last().0) as int, s.last());
    }
}

proof fn lemma_filter_none<T>(s: Seq<(i64, T)>, key: i64)
    requires
        forall|j: int| 0 <= j < s.len() ==> #[trigger] s[j].0 < key,
    ensures
        s.filter(key_is::<T>(key)) =~= Seq::<(i64, T)>::empty(),
    decreases s.len(),
{
    reveal(Seq::filter);
    if s.len() > 0 {
        assert forall|j: int| 0 <= j < s.drop_last().len() implies #[trigger] s.drop_last()[j].0
            < key by {
            assert(s.drop_last()[j] == s[j]);
        }
        lemma_filter_none(s.drop_last(), key);
        assert(s.last().0 < key);
    }
}

/// Stability: the entries sharing any one key appear in `sort_desc(s)` in
/// the same order as in `s`.
pub proof fn law_sort_desc_stable<T>(s: Seq<(i64, T)>, key: i64)
    ensures
        sort_desc(s).filter(key_is::<T>(key)) == s.filter(key_is::<T>(key)),
    decreases s.len(),
{
    broadcast use vstd::seq_lib::group_seq_properties;

    if s.len() > 0 {
        let x = s.last();
        let t = sort_desc(s.drop_last());
        let pred = key_is::<T>(key);
        law_sort_desc_stable(s.drop_last(), key);
        law_sort_desc_sorted(s.drop_last());
        lemma_insert_desc_sorted(t, x);
        lemma_lead_ge_props(t, x.0);
        let k = lead_ge(t, x.0) as int;
        let a = t.subrange(0, k);
        let b = t.subrange(k, t.len() as int);
        assert(t =~= a + b);
        assert(insert_desc(t, x) =~= a.push(x) + b);
        Seq::filter_distributes_over_add(a.push(x), b, pred);
        Seq::filter_distributes_over_add(a, b, pred);
        lemma_filter_push(a, x, pred);
        lemma_filter_push(s.drop_last(), x, pred);
        assert(s.drop_last().push(x) =~= s);
        if x.0 == key {
            assert forall|j: int| 0 <= j < b.len() implies #[trigger] b[j].0 < key by {
                assert(b[j] == t[k + j]);
            }
            lemma_filter_none(b, key);
            assert(a.filter(pred).push(x) + b.filter(pred) =~= (a.filter(pred) + b.filter(
                pred,
            )).push(x));
        }
    }
}


/// Milliseconds since the Unix epoch of an RFC 3339 timestamp, or `None`
/// when chrono does not accept the text.
pub uninterp spec fn rfc3339_millis(text: Seq<char>) -> Option<i64>;

/// Calls `chrono::DateTime::parse_from_rfc3339` and, on success, the parsed
/// value's `timestamp_millis`. Claimed: the result depends on the text
/// alone, and is named `rfc3339_millis`; nothing is stated about which
/// texts parse or what they map to.
#[verifier::external_body]
fn parse_rfc3339_millis(text: &str) -> (r: Option<i64>)
    ensures
        r == rfc3339_millis(text@),
{
    chrono::DateTime::parse_from_rfc3339(text).ok().map(|d| d.timestamp_millis())
}

/// Publish time of a release in milliseconds, 0 when it does not parse.
pub open spec fn release_key(published_at: Seq<char>) -> i64 {
    match rfc3339_millis(published_at) {
        Some(m) => m,
        None => 0,
    }
}

/// The keys `sort_releases_newest_first` orders by.
pub open spec fn release_keys(releases: Seq<GitHubRelease>) -> Seq<i64> {
    releases.map_values(|r: GitHubRelease| release_key(r.published_at@))
}

fn release_date_millis(release: &GitHubRelease) -> (r: i64)
    ensures
        r == release_key(release.published_at@),
{
    match parse_rfc3339_millis(release.published_at.as_str()) {
        Some(m) => m,
        None => 0,
    }
}

/// Sort `releases` newest-first by their publish date; releases whose dates
/// are equal (or do not parse, counting as 0) keep their order.
pub fn sort_releases_newest_first(releases: &mut Vec<GitHubRelease>)
    ensures
        final(releases)@ == values_of(
            sort_desc(keyed(release_keys(old(releases)@), old(releases)@)),
        ),
{
    let mut keys: Vec<i64> = Vec::new();
    let mut i: usize = 0;
    while i < releases.len()
        invariant
            i <= releases@.len(),
            releases@ == old(releases)@,
            keys@ == release_keys(releases@).take(i as int),
        decreases releases@.len() - i,
    {
        let k = release_date_millis(&releases[i]);
        keys.push(k);
        i = i + 1;
        assert(keys@ =~= release_keys(releases@).take(i as int));
    }
    assert(keys@ =~= release_keys(releases@));
    sort_releases_by_keys(releases, &keys);
}


// ── Release notes ───────────────────────────────────────────────────────────

/// The `(repo, tag)` a version's GitHub release lives at: `nightly-…`
/// versions (any ASCII case, which here agrees with Unicode lowercasing) in
/// the Nightly repo under the version itself; others in the main repo,
/// prefixed with `v` unless they start with `v` or `V`.
pub open spec fn spec_repo_tag(version: Seq<char>) -> (Seq<char>, Seq<char>) {
    if starts_with_ci(version, nightly()) {
        ("Far-Beyond-Pulsar/Nightly"@, version)
    } else if version.len() > 0 && (version[0] == 'v' || version[0] == 'V') {
        ("Far-Beyond-Pulsar/Pulsar-Native"@, version)
    } else {
        ("Far-Beyond-Pulsar/Pulsar-Native"@, seq!['v'] + version)
    }
}

/// The `(repo, tag)` GitHub identifiers for a given installed engine version.
pub fn repo_tag_for_version(version: &str) -> (r: (&'static str, String))
    ensures
        r.0@ == spec_repo_tag(version@).0,
        r.1@ == spec_repo_tag(version@).1,
{
    let v = chars_of(version);
    let n = nightly_chars();
    if starts_with_ci_exec(&v, &n) {
        ("Far-Beyond-Pulsar/Nightly", string_of(v.as_slice()))
    } else if v.len() > 0 && (v[0] == 'v' || v[0] == 'V') {
        ("Far-Beyond-Pulsar/Pulsar-Native", string_of(v.as_slice()))
    } else {
        let mut t: Vec<char> = Vec::new();
        t.push('v');
        append_chars(&mut t, &v);
        ("Far-Beyond-Pulsar/Pulsar-Native", string_of(t.as_slice()))
    }
}

/// How fetching a release's notes went.
pub enum ReleaseNotesFetch {
    /// No HTTP client could be built.
    ClientUnavailable,
    /// The request failed, was refused, or the reply did not parse.
    Unavailable,
    /// The release's `body`.
    Body(String),
}

pub open spec fn spec_release_notes(version: Seq<char>, fetch: ReleaseNotesFetch) -> Seq<char> {
    match fetch {
        ReleaseNotesFetch::ClientUnavailable => "Could not load release notes for **"@ + version
            + "**."@,
        ReleaseNotesFetch::Body(b) => if trim(b@).len() > 0 {
            b@
        } else {
            "No release notes are available for engine version **"@ + version + "**."@
        },
        ReleaseNotesFetch::Unavailable => "No release notes are available for engine version **"@
            + version + "**."@,
    }
}

fn surround(pre: &str, version: &str, post: &str) -> (r: String)
    ensures
        r@ == pre@ + version@ + post@,
{
    let mut v = chars_of(pre);
    let w = chars_of(version);
    append_chars(&mut v, &w);
    let x = chars_of(post);
    append_chars(&mut v, &x);
    string_of(v.as_slice())
}

/// The release notes shown for `version`: the fetched body when it has
/// text, otherwise a short explanation.
pub fn release_notes_text(version: &str, fetch: ReleaseNotesFetch) -> (r: String)
    ensures
        r@ == spec_release_notes(version@, fetch),
{
    match fetch {
        ReleaseNotesFetch::ClientUnavailable => surround(
            "Could not load release notes for **",
            version,
            "**.",
        ),
        ReleaseNotesFetch::Body(b) => {
            let bv = chars_of(b.as_str());
            let t = trim_chars(&bv);
            if t.len() > 0 {
                b
            } else {
                surround("No release notes are available for engine version **", version, "**.")
            }
        },
        ReleaseNotesFetch::Unavailable => surround(
            "No release notes are available for engine version **",
            version,
            "**.",
        ),
    }
}

// ── Install layout ──────────────────────────────────────────────────────────

/// How a downloaded engine asset is installed.
#[derive(Debug, Clone)]
pub enum InstallPlan {
    /// A zip archive saved beside the install directory, then extracted.
    Zip { archive_name: String },
    /// The engine executable itself, saved as `pulsar.exe`.
    RawExe,
    /// A `.tar.gz` archive saved beside the install directory, then extracted.
    TarGz { archive_name: String },
}

/// The last `/`-separated segment of `s` (`rsplit('/').next()`).
pub open spec fn url_last_segment(s: Seq<char>) -> Seq<char> {
    last_segment(s)
}

pub open spec fn spec_install_plan(url: Seq<char>, version: Seq<char>, ext: Seq<char>) -> InstallPlanView {
    let seg = url_last_segment(url);
    if ends_with_ci(url, ".zip"@) {
        InstallPlanView::Zip(
            if seg.len() > 0 {
                seg
            } else {
                "pulsar-"@ + version + ".zip"@
            },
        )
    } else if ext == "exe"@ {
        InstallPlanView::RawExe
    } else {
        InstallPlanView::TarGz(
            if seg.len() > 0 {
                seg
            } else {
                "pulsar-"@ + version + ".tar.gz"@
            },
        )
    }
}

/// `InstallPlan` with its names as character sequences.
pub enum InstallPlanView {
    Zip(Seq<char>),
    RawExe,
    TarGz(Seq<char>),
}

pub open spec fn install_plan_view(p: InstallPlan) -> InstallPlanView {
    match p {
        InstallPlan::Zip { archive_name } => InstallPlanView::Zip(archive_name@),
        InstallPlan::RawExe => InstallPlanView::RawExe,
        InstallPlan::TarGz { archive_name } => InstallPlanView::TarGz(archive_name@),
    }
}

/// `s` ends with `p` up to ASCII case.
pub open spec fn ends_with_ci(s: Seq<char>, p: Seq<char>) -> bool {
    p.len() <= s.len() && eq_ci(s.skip(s.len() - p.len()), p)
}

/// How the asset at `url` is installed for `version` on a platform whose
/// asset extension is `ext`: `.zip` URLs (any ASCII case, which here agrees
/// with Unicode lowercasing) are zip archives even on Windows; otherwise a
/// Windows (`exe`) asset is the executable and anything else a tarball.
/// Archives keep the URL's last path segment as file name, or a
/// `pulsar-<version>` name when it is empty.
pub fn install_plan(url: &str, version: &str, ext: &str) -> (r: InstallPlan)
    ensures
        install_plan_view(r) == spec_install_plan(url@, version@, ext@),
{
    let u = chars_of(url);
    let seg = last_segment_chars(&u);
    let zip = chars_of(".zip");
    let is_zip = zip.len() <= u.len() && eq_ci_at(&u, u.len() - zip.len(), &zip);
    proof {
        if zip@.len() <= u@.len() {
            assert(u@.skip(u@.len() - zip@.len()) =~= u@.subrange(
                u@.len() - zip@.len(),
                u@.len() as int,
            ));
        }
    }
    if is_zip {
        let name = if seg.len() > 0 {
            string_of(seg.as_slice())
        } else {
            surround("pulsar-", version, ".zip")
        };
        InstallPlan::Zip { archive_name: name }
    } else if str_eq(ext, "exe") {
        InstallPlan::RawExe
    } else {
        let name = if seg.len() > 0 {
            string_of(seg.as_slice())
        } else {
            surround("pulsar-", version, ".tar.gz")
        };
        InstallPlan::TarGz { archive_name: name }
    }
}

/// Whether a file found in an extracted archive is the engine binary:
/// on Windows any `pulsar*.exe`, elsewhere `pulsar` or an extension-less
/// `pulsar_*` (ASCII case ignored).
pub open spec fn spec_is_engine_binary(name: Seq<char>, windows: bool) -> bool {
    let lower = name.map_values(|c: char| ascii_lower(c));
    if windows {
        starts_with(lower, "pulsar"@) && ends_with(lower, ".exe"@)
    } else {
        lower == "pulsar"@ || (starts_with(lower, "pulsar_"@) && !lower.contains('.'))
    }
}

pub fn is_engine_binary_name(name: &str, windows: bool) -> (r: bool)
    ensures
        r == spec_is_engine_binary(name@, windows),
{
    let v = chars_of(name);
    let mut lower: Vec<char> = Vec::new();
    let mut i: usize = 0;
    while i < v.len()
        invariant
            i <= v.len(),
            lower@ == v@.take(i as int).map_values(|c: char| ascii_lower(c)),
        decreases v.len() - i,
    {
        lower.push(to_ascii_lower(v[i]));
        i = i + 1;
        assert(lower@ =~= v@.take(i as int).map_values(|c: char| ascii_lower(c)));
    }
    assert(v@.take(i as int) =~= v@);
    if windows {
        let p = chars_of("pulsar");
        let e = chars_of(".exe");
        starts_with_exec(&lower, &p) && ends_with_exec(&lower, &e)
    } else {
        let p = chars_of("pulsar");
        let p_ = chars_of("pulsar_");
        let dot: Vec<char> = vec!['.'];
        let r = (lower.len() == p.len() && eq_at(&lower, 0, &p)) || (starts_with_exec(&lower, &p_)
            && !contains_exec(&lower, &dot));
        proof {
            assert(lower@.len() == p@.len() ==> lower@.subrange(0, p@.len() as int) =~= lower@);
            assert(dot@ =~= seq!['.']);
            assert(contains(lower@, dot@) <==> lower@.contains('.')) by {
                if lower@.contains('.') {
                    let k = choose|k: int| 0 <= k < lower@.len() && lower@[k] == '.';
                    assert(lower@.subrange(k, k + 1) =~= dot@);
                    assert(occurs_at(lower@, dot@, k));
                }
                if contains(lower@, dot@) {
                    let k = choose|k: int| occurs_at(lower@, dot@, k);
                    assert(lower@.subrange(k, k + 1)[0] == lower@[k]);
                }
            }
        }
        r
    }
}

/// Binary names tried, in order, inside an install directory on `os`.
pub open spec fn spec_engine_binary_names(os: Seq<char>) -> Seq<Seq<char>> {
    if os == "windows"@ {
        seq!["pulsar.exe"@, "pulsar_engine.exe"@]
    } else if os == "macos"@ {
        seq!["Contents/MacOS/pulsar"@, "pulsar"@, "pulsar_engine"@]
    } else {
        seq!["pulsar"@, "pulsar_engine"@]
    }
}

pub fn engine_binary_names(os: &str) -> (r: Vec<&'static str>)
    ensures
        r@.map_values(|s: &str| s@) == spec_engine_binary_names(os@),
{
    let mut v: Vec<&'static str> = Vec::new();
    if str_eq(os, "windows") {
        v.push("pulsar.exe");
        v.push("pulsar_engine.exe");
    } else if str_eq(os, "macos") {
        v.push("Contents/MacOS/pulsar");
        v.push("pulsar");
        v.push("pulsar_engine");
    } else {
        v.push("pulsar");
        v.push("pulsar_engine");
    }
    assert(v@.map_values(|s: &str| s@) =~= spec_engine_binary_names(os@));
    v
}

/// Binary names a source build of the engine may produce under
/// `target/release`, preferred first.
pub fn src_binary_names(windows: bool) -> (r: Vec<&'static str>)
    ensures
        windows ==> r@.map_values(|s: &str| s@) == seq!["pulsar_engine.exe"@, "pulsar.exe"@],
        !windows ==> r@.map_values(|s: &str| s@) == seq!["pulsar_engine"@, "pulsar"@],
{
    let mut v: Vec<&'static str> = Vec::new();
    if windows {
        v.push("pulsar_engine.exe");
        v.push("pulsar.exe");
    } else {
        v.push("pulsar_engine");
        v.push("pulsar");
    }
    assert(windows ==> v@.map_values(|s: &str| s@) =~= seq!["pulsar_engine.exe"@, "pulsar.exe"@]);
    assert(!windows ==> v@.map_values(|s: &str| s@) =~= seq!["pulsar_engine"@, "pulsar"@]);
    v
}

// ── Progress records ────────────────────────────────────────────────────────

#[derive(Clone, Debug)]
pub struct DownloadProgress {
    pub bytes_downloaded: u64,
    pub total_bytes: u64,
    pub speed_bps: u64,
    pub done: bool,
    pub error: Option<String>,
}

impl Default for DownloadProgress {
    fn default() -> (r: Self)
        ensures
            r.bytes_downloaded == 0,
            r.total_bytes == 0,
            r.speed_bps == 0,
            !r.done,
            r.error is None,
    {
        Self { bytes_downloaded: 0, total_bytes: 0, speed_bps: 0, done: false, error: None }
    }
}

/// Live progress of a `cargo build` running in the background.
#[derive(Debug, Clone)]
pub struct BuildProgress {
    /// Number of crates that have finished compiling.
    pub done: usize,
    /// Total number of crates expected to build.
    pub total: usize,
    /// The crate currently (or most recently) being compiled.
    pub current: String,
    /// Recent compiler output lines (newest last), capped.
    pub logs: Vec<String>,
    /// Distinct crates that have compiled.
    pub crates: KeyedMap<()>,
    /// True once the cargo process has exited.
    pub finished: bool,
    pub error: Option<String>,
}

impl Default for BuildProgress {
    fn default() -> (r: Self)
        ensures
            r.done == 0,
            r.total == 0,
            r.current@.len() == 0,
            r.logs@.len() == 0,
            r.crates@ == Map::<Seq<char>, ()>::empty(),
            !r.finished,
            r.error is None,
    {
        Self {
            done: 0,
            total: 0,
            current: String::new(),
            logs: Vec::new(),
            crates: KeyedMap::new(),
            finished: false,
            error: None,
        }
    }
}

/// Number of compiler log lines kept in `BuildProgress::logs`.
pub const MAX_BUILD_LOGS: usize = 200;

/// The log after appending `line`: the newest `MAX_BUILD_LOGS` lines.
pub open spec fn spec_pushed_log(logs: Seq<String>, line: String) -> Seq<String> {
    let all = logs.push(line);
    if all.len() > MAX_BUILD_LOGS {
        all.skip(all.len() - MAX_BUILD_LOGS)
    } else {
        all
    }
}

/// The text of each log line.
pub open spec fn log_view(logs: Seq<String>) -> Seq<Seq<char>> {
    logs.map_values(|s: String| s@)
}

/// `spec_pushed_log` on the text of the lines.
pub open spec fn spec_pushed_lines(logs: Seq<Seq<char>>, line: Seq<char>) -> Seq<Seq<char>> {
    let all = logs.push(line);
    if all.len() > MAX_BUILD_LOGS {
        all.skip(all.len() - MAX_BUILD_LOGS)
    } else {
        all
    }
}

/// Appends `line` to the build log, dropping the oldest lines beyond
/// `MAX_BUILD_LOGS`.
pub fn push_log_locked(p: &mut BuildProgress, line: String)
    ensures
        final(p).logs@ == spec_pushed_log(old(p).logs@, line),
        log_view(final(p).logs@) == spec_pushed_lines(log_view(old(p).logs@), line@),
        final(p).done == old(p).done,
        final(p).total == old(p).total,
        final(p).current == old(p).current,
        final(p).crates == old(p).crates,
        final(p).finished == old(p).finished,
        final(p).error == old(p).error,
{
    let ghost before = p.logs@;
    let ghost text = line@;
    p.logs.push(line);
    assert(log_view(p.logs@) =~= log_view(before).push(text));
    if p.logs.len() > MAX_BUILD_LOGS {
        let excess = p.logs.len() - MAX_BUILD_LOGS;
        let ghost all = p.logs@;
        let kept = p.logs.split_off(excess);
        p.logs = kept;
        assert(log_view(p.logs@) =~= log_view(all).skip(excess as int));
    }
}

/// The build log never holds more than `MAX_BUILD_LOGS` lines once a line
/// has been pushed, and the newest line is always last.
pub proof fn law_build_log_capped(logs: Seq<String>, line: String)
    ensures
        spec_pushed_log(logs, line).len() <= MAX_BUILD_LOGS,
        spec_pushed_log(logs, line).last() == line,
        logs.len() < MAX_BUILD_LOGS ==> spec_pushed_log(logs, line) == logs.push(line),
{
}


/// The two channels of the main repository split its releases: a release
/// whose tag has a major version is shown by exactly one of Stable (major at
/// least 1) and Alpha (major 0).
pub proof fn law_stable_alpha_partition(tag: Seq<char>)
    ensures
        !(spec_includes(ReleaseChannel::Stable, tag) && spec_includes(ReleaseChannel::Alpha, tag)),
        spec_version_major(tag) matches Some(m) && m >= 0 ==> (spec_includes(
            ReleaseChannel::Stable,
            tag,
        ) || spec_includes(ReleaseChannel::Alpha, tag)),
{
}

/// The metadata the hub records for a candidate install directory with
/// path `dir`: the recorded metadata (`recorded` is `None` when there is no
/// metadata file, `Some(None)` when it cannot be read or parsed) when the
/// directory looks like an install and is the recorded install path; with no
/// metadata file, the directory's name as version (`unknown` when it has
/// none), no install date and the directory as install path, provided it
/// looks like an install.
pub open spec fn spec_metadata_for_dir(
    dir: Seq<char>,
    dir_name: Option<Seq<char>>,
    recorded: Option<Option<PulsarInstallMetadata>>,
    looks_like_install: bool,
    same_install_path: bool,
) -> Option<(Seq<char>, Seq<char>, Seq<char>)> {
    match recorded {
        Some(None) => None,
        Some(Some(m)) => if looks_like_install && same_install_path {
            Some((m.version@, m.install_date@, m.install_path@))
        } else {
            None
        },
        None => if looks_like_install {
            Some(
                (
                    match dir_name {
                        Some(n) => n,
                        None => "unknown"@,
                    },
                    Seq::empty(),
                    dir,
                ),
            )
        } else {
            None
        },
    }
}

/// The fields of optional metadata as text.
pub open spec fn metadata_fields(m: Option<PulsarInstallMetadata>) -> Option<
    (Seq<char>, Seq<char>, Seq<char>),
> {
    match m {
        Some(m) => Some((m.version@, m.install_date@, m.install_path@)),
        None => None,
    }
}

/// The metadata of a candidate install directory `dir` (see
/// `spec_metadata_for_dir`); `looks_like_install` tells whether it holds an
/// engine binary, an app bundle or a metadata file, and `same_install_path`
/// whether it resolves to the recorded install path.
pub fn metadata_for_dir(
    dir: &str,
    recorded: Option<Option<PulsarInstallMetadata>>,
    looks_like_install: bool,
    same_install_path: bool,
) -> (r: Option<PulsarInstallMetadata>)
    ensures
        exists|f: Option<Seq<char>>|
            #![trigger crate::paths::file_name_outcome(dir@, f)]
            crate::paths::file_name_outcome(dir@, f) && metadata_fields(r)
                == spec_metadata_for_dir(
                dir@,
                f,
                recorded,
                looks_like_install,
                same_install_path,
            ),
{
    let ghost recorded0 = recorded;
    let name = crate::paths::path_file_name(dir);
    let ghost f = crate::paths::opt_chars(name);
    match recorded {
        Some(None) => None,
        Some(Some(m)) => {
            if looks_like_install && same_install_path {
                Some(m)
            } else {
                None
            }
        },
        None => {
            if !looks_like_install {
                return None;
            }
            let version = match name {
                Some(n) => n,
                None => {
                    let v = chars_of("unknown");
                    string_of(v.as_slice())
                },
            };
            let d = chars_of(dir);
            let m = PulsarInstallMetadata {
                version,
                install_date: String::new(),
                install_path: string_of(d.as_slice()),
            };
            assert(metadata_fields(Some(m)) == spec_metadata_for_dir(
                dir@,
                f,
                recorded0,
                looks_like_install,
                same_install_path,
            ));
            Some(m)
        },
    }
}

/// Two plain segments joined onto `base` one after the other.
pub open spec fn joined_twice(base: Seq<char>, first: Seq<char>, second: Seq<char>, r: Seq<char>) -> bool {
    exists|mid: Seq<char>|
        crate::paths::joined_outcome(base, first, mid) && #[trigger] crate::paths::joined_outcome(
            mid,
            second,
            r,
        )
}

/// The local application data directory used on Windows.
pub open spec fn spec_local_app_data(local_app_data: Option<&str>) -> Seq<char> {
    match local_app_data {
        Some(l) => l@,
        None => "C:\\Users\\Default\\AppData\\Local"@,
    }
}

/// Where a new engine is installed by default: `Programs/Pulsar` under the
/// local application data directory on Windows (`local_app_data`, else
/// `C:\Users\Default\AppData\Local`), `/Applications/Pulsar` on macOS,
/// and `.local/share/pulsar` under `home` elsewhere.
pub open spec fn default_install_outcome(
    windows: bool,
    macos: bool,
    home: Seq<char>,
    local_app_data: Seq<char>,
    r: Seq<char>,
) -> bool {
    if windows {
        joined_twice(local_app_data, "Programs"@, "Pulsar"@, r)
    } else if macos {
        r == "/Applications/Pulsar"@
    } else {
        exists|a: Seq<char>|
            crate::paths::joined_outcome(home, ".local"@, a) && #[trigger] joined_twice(
                a,
                "share"@,
                "pulsar"@,
                r,
            )
    }
}

/// The default install location for the platform (see
/// `default_install_outcome`).
pub fn default_install_path_for(
    windows: bool,
    macos: bool,
    home: &str,
    local_app_data: Option<&str>,
) -> (r: String)
    ensures
        default_install_outcome(windows, macos, home@, spec_local_app_data(local_app_data), r@),
{
    if windows {
        let base = match local_app_data {
            Some(l) => l,
            None => "C:\\Users\\Default\\AppData\\Local",
        };
        proof {
            reveal_strlit("Programs");
            reveal_strlit("Pulsar");
        }
        let mid = crate::paths::join_path(base, "Programs");
        let r = crate::paths::join_path(mid.as_str(), "Pulsar");
        assert(crate::paths::joined_outcome(mid@, "Pulsar"@, r@));
        assert(joined_twice(base@, "Programs"@, "Pulsar"@, r@));
        r
    } else if macos {
        let v = chars_of("/Applications/Pulsar");
        string_of(v.as_slice())
    } else {
        proof {
            reveal_strlit(".local");
            reveal_strlit("share");
            reveal_strlit("pulsar");
        }
        let a = crate::paths::join_path(home, ".local");
        let b = crate::paths::join_path(a.as_str(), "share");
        let r = crate::paths::join_path(b.as_str(), "pulsar");
        assert(crate::paths::joined_outcome(b@, "pulsar"@, r@));
        assert(joined_twice(a@, "share"@, "pulsar"@, r@));
        r
    }
}

/// The directories searched for installed engines: the default install
/// location first, then `C:\Program Files\Pulsar` on Windows,
/// `Applications/Pulsar` under `home` on macOS, and `.local/bin/pulsar`
/// under `home` elsewhere.
pub fn search_roots_for(
    windows: bool,
    macos: bool,
    home: &str,
    local_app_data: Option<&str>,
) -> (r: Vec<String>)
    ensures
        r@.len() == 2,
        default_install_outcome(windows, macos, home@, spec_local_app_data(local_app_data), r@[0]@),
        windows ==> r@[1]@ == "C:\\Program Files\\Pulsar"@,
        !windows && macos ==> joined_twice(home@, "Applications"@, "Pulsar"@, r@[1]@),
        !windows && !macos ==> exists|a: Seq<char>|
            crate::paths::joined_outcome(home@, ".local"@, a) && #[trigger] joined_twice(
                a,
                "bin"@,
                "pulsar"@,
                r@[1]@,
            ),
{
    let first = default_install_path_for(windows, macos, home, local_app_data);
    let second = if windows {
        let v = chars_of("C:\\Program Files\\Pulsar");
        string_of(v.as_slice())
    } else if macos {
        proof {
            reveal_strlit("Applications");
            reveal_strlit("Pulsar");
        }
        let mid = crate::paths::join_path(home, "Applications");
        let r = crate::paths::join_path(mid.as_str(), "Pulsar");
        assert(crate::paths::joined_outcome(mid@, "Pulsar"@, r@));
        r
    } else {
        proof {
            reveal_strlit(".local");
            reveal_strlit("bin");
            reveal_strlit("pulsar");
        }
        let a = crate::paths::join_path(home, ".local");
        let b = crate::paths::join_path(a.as_str(), "bin");
        let r = crate::paths::join_path(b.as_str(), "pulsar");
        assert(crate::paths::joined_outcome(b@, "pulsar"@, r@));
        assert(joined_twice(a@, "bin"@, "pulsar"@, r@));
        r
    };
    let r = vec![first, second];
    r
}

/// Whether an extracted archive is hoisted out of its top-level folder: only
/// when the destination holds no files and exactly one folder.
pub fn should_flatten_archive_root(root_files: usize, subdirs: usize) -> (r: bool)
    ensures
        r == (root_files == 0 && subdirs == 1),
{
    root_files == 0 && subdirs == 1
}

/// Whether an entry of the archive's top-level folder is moved up into the
/// destination: every entry but one whose name, read as text, ends with `/`.
pub fn hoists_archive_entry(name: Option<&str>) -> (r: bool)
    ensures
        r == !(name matches Some(n) && ends_with(n@, seq!['/'])),
{
    match name {
        Some(n) => {
            let v = chars_of(n);
            let slash = vec!['/'];
            assert(slash@ =~= seq!['/']);
            !ends_with_exec(&v, &slash)
        },
        None => true,
    }
}

/// How an engine install ended.
#[derive(Debug)]
pub enum FinishedInstall {
    Complete { version: String },
    Failed { version: String, message: String },
}

/// The end state of installing `version`: complete, or failed with the
/// install's error message.
pub fn finished_install(version: &str, result: Result<(), String>) -> (r: FinishedInstall)
    ensures
        (match result {
            Ok(()) => r matches FinishedInstall::Complete { version: v } && v@ == version@,
            Err(message) => r matches FinishedInstall::Failed { version: v, message: m } && v@
                == version@ && m == message,
        }),
{
    let v = chars_of(version);
    match result {
        Ok(()) => FinishedInstall::Complete { version: string_of(v.as_slice()) },
        Err(message) => FinishedInstall::Failed { version: string_of(v.as_slice()), message },
    }
}

} // verus!
