//! Choosing the release asset built for the running platform.

use vstd::prelude::*;
use crate::installer::{GitHubAsset, GitHubRelease};
use crate::text::{
    append_chars, chars_of, contains, contains_exec, ends_with, ends_with_exec, starts_with,
    starts_with_exec, str_eq, string_of,
};

verus! {

/// What the running platform is called in asset names.
#[derive(Debug, Clone)]
pub struct PlatformInfo {
    /// `windows`, `macos` or `linux`.
    pub os: String,
    /// The native CPU architecture, e.g. `x86_64`, `aarch64`.
    pub arch: String,
    /// The asset extension: `exe` on Windows, `tar.gz` elsewhere.
    pub ext: String,
}

/// Number of leading elements of `s` that do not satisfy `p`: the index of
/// the first one that does, or the length when none does.
pub open spec fn first_where<T>(s: Seq<T>, p: spec_fn(T) -> bool) -> nat
    decreases s.len(),
{
    if s.len() > 0 && !p(s[0]) {
        1 + first_where(s.drop_first(), p)
    } else {
        0
    }
}

pub proof fn lemma_first_where<T>(s: Seq<T>, p: spec_fn(T) -> bool, k: int)
    requires
        0 <= k <= s.len(),
        forall|i: int| 0 <= i < k ==> !p(#[trigger] s[i]),
        k < s.len() ==> p(s[k]),
    ensures
        first_where(s, p) == k,
    decreases k,
{
    if k > 0 {
        assert forall|i: int| 0 <= i < k - 1 implies !p(#[trigger] s.drop_first()[i]) by {
            assert(s.drop_first()[i] == s[i + 1]);
        }
        if k - 1 < s.drop_first().len() {
            assert(s.drop_first()[k - 1] == s[k]);
        }
        lemma_first_where(s.drop_first(), p, k - 1);
    }
}

/// The index of the first element satisfying `p`, if any.
pub open spec fn find_first<T>(s: Seq<T>, p: spec_fn(T) -> bool) -> Option<int> {
    let k = first_where(s, p);
    if k < s.len() {
        Some(k as int)
    } else {
        None
    }
}

/// Asset names tried in order, with the platform's os, arch and extension.
pub open spec fn spec_candidates(os: Seq<char>, arch: Seq<char>, ext: Seq<char>) -> Seq<Seq<char>> {
    seq![
        "pulsar_engine-"@ + os + "-"@ + arch + "."@ + ext,
        "pulsar_engine_"@ + os + "_"@ + arch + "."@ + ext,
        "pulsar-"@ + os + "-"@ + arch + "."@ + ext,
        "pulsar_"@ + os + "_"@ + arch + "."@ + ext,
        os + "-"@ + arch + "."@ + ext,
        os + "_"@ + arch + "."@ + ext,
    ]
}

/// The platform token of Nightly asset names (`Pulsar-Native_<token>_<hash>.zip`).
pub open spec fn spec_nightly_token(os: Seq<char>, arch: Seq<char>) -> Option<Seq<char>> {
    if os == "windows"@ && arch == "x86_64"@ {
        Some("x64"@)
    } else if os == "windows"@ && arch == "aarch64"@ {
        Some("arm64"@)
    } else if os == "macos"@ && arch == "x86_64"@ {
        Some("macos-x64"@)
    } else if os == "macos"@ && arch == "aarch64"@ {
        Some("macos-arm64"@)
    } else if os == "linux"@ && arch == "x86_64"@ {
        Some("linux-x64"@)
    } else if os == "linux"@ && arch == "aarch64"@ {
        Some("linux-arm64"@)
    } else {
        None
    }
}

/// The Nightly token of each supported platform, pinned: Windows x86_64
/// `x64`, Windows aarch64 `arm64`, macOS `macos-x64` / `macos-arm64`, Linux
/// `linux-x64` / `linux-arm64`; no other platform has one, and no two
/// platforms share a token (an asset built for one architecture is never
/// picked for another).
pub proof fn law_nightly_tokens_pinned(os: Seq<char>, arch: Seq<char>, os2: Seq<char>, arch2: Seq<char>)
    ensures
        spec_nightly_token("windows"@, "x86_64"@) == Some("x64"@),
        spec_nightly_token("windows"@, "aarch64"@) == Some("arm64"@),
        spec_nightly_token("macos"@, "x86_64"@) == Some("macos-x64"@),
        spec_nightly_token("macos"@, "aarch64"@) == Some("macos-arm64"@),
        spec_nightly_token("linux"@, "x86_64"@) == Some("linux-x64"@),
        spec_nightly_token("linux"@, "aarch64"@) == Some("linux-arm64"@),
        spec_nightly_token(os, arch) is Some ==> (os == "windows"@ || os == "macos"@ || os
            == "linux"@) && (arch == "x86_64"@ || arch == "aarch64"@),
        spec_nightly_token(os, arch) is Some && spec_nightly_token(os, arch) == spec_nightly_token(
            os2,
            arch2,
        ) ==> os == os2 && arch == arch2,
{
    reveal_strlit("windows");
    reveal_strlit("macos");
    reveal_strlit("linux");
    reveal_strlit("x86_64");
    reveal_strlit("aarch64");
    reveal_strlit("x64");
    reveal_strlit("arm64");
    reveal_strlit("macos-x64");
    reveal_strlit("macos-arm64");
    reveal_strlit("linux-x64");
    reveal_strlit("linux-arm64");
    assert("x86_64"@ != "aarch64"@) by {
        assert("x86_64"@[0] != "aarch64"@[0]);
    }
    assert("windows"@ != "macos"@ && "windows"@ != "linux"@ && "macos"@ != "linux"@) by {
        assert("windows"@[0] != "macos"@[0]);
        assert("windows"@[0] != "linux"@[0]);
        assert("macos"@[0] != "linux"@[0]);
    }
    assert("x64"@ != "arm64"@) by { assert("x64"@[0] != "arm64"@[0]); }
    assert("x64"@ != "macos-x64"@ && "x64"@ != "macos-arm64"@ && "x64"@ != "linux-x64"@
        && "x64"@ != "linux-arm64"@) by {
        assert("x64"@.len() != "macos-x64"@.len());
        assert("x64"@.len() != "macos-arm64"@.len());
        assert("x64"@.len() != "linux-x64"@.len());
        assert("x64"@.len() != "linux-arm64"@.len());
    }
    assert("arm64"@ != "macos-x64"@ && "arm64"@ != "macos-arm64"@ && "arm64"@ != "linux-x64"@
        && "arm64"@ != "linux-arm64"@) by {
        assert("arm64"@[0] != "macos-x64"@[0]);
        assert("arm64"@[0] != "macos-arm64"@[0]);
        assert("arm64"@[0] != "linux-x64"@[0]);
        assert("arm64"@[0] != "linux-arm64"@[0]);
    }
    assert("macos-x64"@ != "macos-arm64"@ && "macos-x64"@ != "linux-x64"@ && "macos-x64"@
        != "linux-arm64"@) by {
        assert("macos-x64"@.len() != "macos-arm64"@.len());
        assert("macos-x64"@[0] != "linux-x64"@[0]);
        assert("macos-x64"@[0] != "linux-arm64"@[0]);
    }
    assert("macos-arm64"@ != "linux-x64"@ && "macos-arm64"@ != "linux-arm64"@) by {
        assert("macos-arm64"@[0] != "linux-x64"@[0]);
        assert("macos-arm64"@[0] != "linux-arm64"@[0]);
    }
    assert("linux-x64"@ != "linux-arm64"@) by {
        assert("linux-x64"@.len() != "linux-arm64"@.len());
    }
}

fn lit(s: &str) -> (r: String)
    ensures
        r@ == s@,
{
    let v = chars_of(s);
    string_of(v.as_slice())
}

/// Map the current OS/arch to the Nightly asset platform token.
pub fn nightly_platform_token(os: &str, arch: &str) -> (r: Option<String>)
    ensures
        (match spec_nightly_token(os@, arch@) {
            None => r is None,
            Some(t) => r matches Some(s) && s@ == t,
        }),
{
    if str_eq(os, "windows") && str_eq(arch, "x86_64") {
        Some(lit("x64"))
    } else if str_eq(os, "windows") && str_eq(arch, "aarch64") {
        Some(lit("arm64"))
    } else if str_eq(os, "macos") && str_eq(arch, "x86_64") {
        Some(lit("macos-x64"))
    } else if str_eq(os, "macos") && str_eq(arch, "aarch64") {
        Some(lit("macos-arm64"))
    } else if str_eq(os, "linux") && str_eq(arch, "x86_64") {
        Some(lit("linux-x64"))
    } else if str_eq(os, "linux") && str_eq(arch, "aarch64") {
        Some(lit("linux-arm64"))
    } else {
        None
    }
}

pub open spec fn contains_pred(p: Seq<char>) -> spec_fn(Seq<char>) -> bool {
    |n: Seq<char>| contains(n, p)
}

pub open spec fn nightly_pred(needle: Seq<char>) -> spec_fn(Seq<char>) -> bool {
    |n: Seq<char>|
        starts_with(n, "pulsar-native_"@) && contains(n, needle) && ends_with(n, ".zip"@)
}

pub open spec fn both_pred(os: Seq<char>, arch: Seq<char>) -> spec_fn(Seq<char>) -> bool {
    |n: Seq<char>| contains(n, os) && contains(n, arch)
}

/// The first pattern that some name contains decides: the first name
/// containing it.
pub open spec fn pattern_match(names: Seq<Seq<char>>, patterns: Seq<Seq<char>>) -> Option<int>
    decreases patterns.len(),
{
    if patterns.len() == 0 {
        None
    } else {
        match find_first(names, contains_pred(patterns[0])) {
            Some(i) => Some(i),
            None => pattern_match(names, patterns.drop_first()),
        }
    }
}

/// Which asset is picked, given the lowercased asset names and candidate
/// patterns: the first candidate pattern found in some name; else, for
/// platforms with a Nightly token, the first
/// `pulsar-native_<token>_….zip`; else the first name containing both the
/// os and the arch.
pub open spec fn spec_select_asset(
    names: Seq<Seq<char>>,
    patterns: Seq<Seq<char>>,
    os: Seq<char>,
    arch: Seq<char>,
) -> Option<int> {
    match pattern_match(names, patterns) {
        Some(i) => Some(i),
        None => {
            let nightly = match spec_nightly_token(os, arch) {
                None => None,
                Some(t) => find_first(names, nightly_pred("pulsar-native_"@ + t + "_"@)),
            };
            match nightly {
                Some(i) => Some(i),
                None => find_first(names, both_pred(os, arch)),
            }
        },
    }
}

pub open spec fn views_of(v: Seq<String>) -> Seq<Seq<char>> {
    v.map_values(|s: String| s@)
}

fn first_containing(names: &Vec<String>, p: &Vec<char>) -> (r: Option<usize>)
    ensures
        (match find_first(views_of(names@), contains_pred(p@)) {
            None => r is None,
            Some(i) => r matches Some(k) && k == i,
        }),
        r matches Some(i) ==> i < names@.len(),
{
    let ghost ns = views_of(names@);
    let mut k: usize = 0;
    while k < names.len()
        invariant
            k <= names@.len(),
            ns == views_of(names@),
            forall|i: int| 0 <= i < k ==> !(contains_pred(p@))(#[trigger] ns[i]),
        decreases names@.len() - k,
    {
        let n = chars_of(names[k].as_str());
        if contains_exec(&n, p) {
            proof {
                lemma_first_where(ns, contains_pred(p@), k as int);
            }
            return Some(k);
        }
        k = k + 1;
    }
    proof {
        lemma_first_where(ns, contains_pred(p@), k as int);
    }
    None
}

fn first_nightly(names: &Vec<String>, needle: &Vec<char>) -> (r: Option<usize>)
    ensures
        (match find_first(views_of(names@), nightly_pred(needle@)) {
            None => r is None,
            Some(i) => r matches Some(k) && k == i,
        }),
        r matches Some(i) ==> i < names@.len(),
{
    let ghost ns = views_of(names@);
    let prefix = chars_of("pulsar-native_");
    let zip = chars_of(".zip");
    let mut k: usize = 0;
    while k < names.len()
        invariant
            k <= names@.len(),
            ns == views_of(names@),
            prefix@ == "pulsar-native_"@,
            zip@ == ".zip"@,
            forall|i: int| 0 <= i < k ==> !(nightly_pred(needle@))(#[trigger] ns[i]),
        decreases names@.len() - k,
    {
        let n = chars_of(names[k].as_str());
        if starts_with_exec(&n, &prefix) && contains_exec(&n, needle) && ends_with_exec(&n, &zip) {
            proof {
                lemma_first_where(ns, nightly_pred(needle@), k as int);
            }
            return Some(k);
        }
        k = k + 1;
    }
    proof {
        lemma_first_where(ns, nightly_pred(needle@), k as int);
    }
    None
}

fn first_with_both(names: &Vec<String>, os: &Vec<char>, arch: &Vec<char>) -> (r: Option<usize>)
    ensures
        (match find_first(views_of(names@), both_pred(os@, arch@)) {
            None => r is None,
            Some(i) => r matches Some(k) && k == i,
        }),
        r matches Some(i) ==> i < names@.len(),
{
    let ghost ns = views_of(names@);
    let mut k: usize = 0;
    while k < names.len()
        invariant
            k <= names@.len(),
            ns == views_of(names@),
            forall|i: int| 0 <= i < k ==> !(both_pred(os@, arch@))(#[trigger] ns[i]),
        decreases names@.len() - k,
    {
        let n = chars_of(names[k].as_str());
        if contains_exec(&n, os) && contains_exec(&n, arch) {
            proof {
                lemma_first_where(ns, both_pred(os@, arch@), k as int);
            }
            return Some(k);
        }
        k = k + 1;
    }
    proof {
        lemma_first_where(ns, both_pred(os@, arch@), k as int);
    }
    None
}

/// Index of the asset built for the platform named `os`/`arch`, given the
/// lowercased asset names and lowercased candidate patterns.
pub fn select_platform_asset(
    lowered_names: &Vec<String>,
    lowered_patterns: &Vec<String>,
    os: &str,
    arch: &str,
) -> (r: Option<usize>)
    ensures
        (match spec_select_asset(
            views_of(lowered_names@),
            views_of(lowered_patterns@),
            os@,
            arch@,
        ) {
            None => r is None,
            Some(i) => r matches Some(k) && k == i,
        }),
        r matches Some(i) ==> i < lowered_names@.len(),
{
    let ghost names = views_of(lowered_names@);
    let ghost pats = views_of(lowered_patterns@);
    let mut j: usize = 0;
    assert(pats.skip(0) =~= pats);
    while j < lowered_patterns.len()
        invariant
            j <= lowered_patterns@.len(),
            names == views_of(lowered_names@),
            pats == views_of(lowered_patterns@),
            pattern_match(names, pats) == pattern_match(names, pats.skip(j as int)),
        decreases lowered_patterns@.len() - j,
    {
        let p = chars_of(lowered_patterns[j].as_str());
        let ghost rest = pats.skip(j as int);
        assert(rest[0] == p@);
        assert(rest.drop_first() =~= pats.skip(j + 1));
        if let Some(i) = first_containing(lowered_names, &p) {
            return Some(i);
        }
        j = j + 1;
    }
    assert(pats.skip(j as int) =~= Seq::<Seq<char>>::empty());
    let osv = chars_of(os);
    let archv = chars_of(arch);
    if let Some(token) = nightly_platform_token(os, arch) {
        let mut needle = chars_of("pulsar-native_");
        let t = chars_of(token.as_str());
        append_chars(&mut needle, &t);
        needle.push('_');
        proof {
            reveal_strlit("_");
            assert(needle@ =~= "pulsar-native_"@ + token@ + "_"@);
        }
        if let Some(i) = first_nightly(lowered_names, &needle) {
            return Some(i);
        }
    }
    first_with_both(lowered_names, &osv, &archv)
}

/// Lowercase of a string by the Unicode `Lowercase` mapping
/// (`str::to_lowercase`).
pub uninterp spec fn unicode_lowercase(s: Seq<char>) -> Seq<char>;

/// `s` holds ASCII characters only.
pub open spec fn all_ascii(s: Seq<char>) -> bool {
    forall|i: int| 0 <= i < s.len() ==> (#[trigger] s[i] as u32) < 128
}

/// Calls `str::to_lowercase`. Claimed: the result depends on the text alone,
/// named `unicode_lowercase`; on ASCII text it lowers `A`-`Z` to `a`-`z` and
/// keeps every other character (the Unicode `Lowercase` mapping on ASCII).
/// The mapping of other characters is left unsaid.
#[verifier::external_body]
pub(crate) fn to_lowercase(s: &str) -> (r: String)
    ensures
        r@ == unicode_lowercase(s@),
        all_ascii(s@) ==> r@ == s@.map_values(|c: char| crate::text::ascii_lower(c)),
{
    s.to_lowercase()
}

fn candidates(os: &str, arch: &str, ext: &str) -> (v: Vec<String>)
    ensures
        views_of(v@) == spec_candidates(os@, arch@, ext@),
{
    let o = chars_of(os);
    let a = chars_of(arch);
    let e = chars_of(ext);
    let mut v: Vec<String> = Vec::new();
    v.push(build5("pulsar_engine-", &o, "-", &a, &e));
    v.push(build5("pulsar_engine_", &o, "_", &a, &e));
    v.push(build5("pulsar-", &o, "-", &a, &e));
    v.push(build5("pulsar_", &o, "_", &a, &e));
    v.push(build5("", &o, "-", &a, &e));
    v.push(build5("", &o, "_", &a, &e));
    proof {
        reveal_strlit("");
        assert(""@ + os@ =~= os@);
        assert(views_of(v@) =~= spec_candidates(os@, arch@, ext@));
    }
    v
}

/// `pre + os + sep + arch + "." + ext`.
fn build5(pre: &str, os: &Vec<char>, sep: &str, arch: &Vec<char>, ext: &Vec<char>) -> (s: String)
    ensures
        s@ == pre@ + os@ + sep@ + arch@ + "."@ + ext@,
{
    let mut v = chars_of(pre);
    append_chars(&mut v, os);
    let sv = chars_of(sep);
    append_chars(&mut v, &sv);
    append_chars(&mut v, arch);
    let dot = chars_of(".");
    append_chars(&mut v, &dot);
    append_chars(&mut v, ext);
    string_of(v.as_slice())
}

/// The lowercased names of the assets.
pub open spec fn lowered_asset_names(assets: Seq<GitHubAsset>) -> Seq<Seq<char>> {
    assets.map_values(|a: GitHubAsset| unicode_lowercase(a.name@))
}

/// The lowercased candidate patterns of a platform.
pub open spec fn lowered_candidates(p: PlatformInfo) -> Seq<Seq<char>> {
    spec_candidates(p.os@, p.arch@, p.ext@).map_values(|c: Seq<char>| unicode_lowercase(c))
}

/// On ASCII text, `unicode_lowercase` of `s` lowers `A`-`Z` and keeps the
/// rest.
pub open spec fn lowers_as_ascii(s: Seq<char>) -> bool {
    all_ascii(s) ==> unicode_lowercase(s) == s.map_values(|c: char| crate::text::ascii_lower(c))
}

/// The asset of `release` built for `platform`, if any. On ASCII asset
/// names and platform strings the lowercasing is the ASCII one.
pub fn find_platform_asset<'a>(release: &'a GitHubRelease, platform: &PlatformInfo) -> (r: Option<
    &'a GitHubAsset,
>)
    ensures
        forall|k: int|
            0 <= k < release.assets@.len() ==> #[trigger] lowers_as_ascii(
                release.assets@[k].name@,
            ),
        forall|k: int|
            0 <= k < spec_candidates(platform.os@, platform.arch@, platform.ext@).len()
                ==> #[trigger] lowers_as_ascii(
                spec_candidates(platform.os@, platform.arch@, platform.ext@)[k],
            ),
        (match spec_select_asset(
            lowered_asset_names(release.assets@),
            lowered_candidates(*platform),
            platform.os@,
            platform.arch@,
        ) {
            None => r is None,
            Some(i) => r matches Some(a) && *a == release.assets@[i],
        }),
{
    let mut names: Vec<String> = Vec::new();
    let mut i: usize = 0;
    while i < release.assets.len()
        invariant
            i <= release.assets@.len(),
            names@.len() == i,
            views_of(names@) == lowered_asset_names(release.assets@).take(i as int),
            forall|k: int| 0 <= k < i ==> #[trigger] lowers_as_ascii(release.assets@[k].name@),
        decreases release.assets@.len() - i,
    {
        let l = to_lowercase(release.assets[i].name.as_str());
        names.push(l);
        proof {
            assert(views_of(names@)[i as int] == l@);
            assert(lowered_asset_names(release.assets@)[i as int] == unicode_lowercase(
                release.assets@[i as int].name@,
            ));
        }
        i = i + 1;
        assert(views_of(names@) =~= lowered_asset_names(release.assets@).take(i as int));
    }
    assert(lowered_asset_names(release.assets@).take(i as int) =~= lowered_asset_names(
        release.assets@,
    ));
    let cands = candidates(platform.os.as_str(), platform.arch.as_str(), platform.ext.as_str());
    let mut pats: Vec<String> = Vec::new();
    let mut j: usize = 0;
    while j < cands.len()
        invariant
            j <= cands@.len(),
            pats@.len() == j,
            views_of(cands@) == spec_candidates(platform.os@, platform.arch@, platform.ext@),
            views_of(pats@) == lowered_candidates(*platform).take(j as int),
            forall|k: int|
                0 <= k < j ==> #[trigger] lowers_as_ascii(
                    spec_candidates(platform.os@, platform.arch@, platform.ext@)[k],
                ),
        decreases cands@.len() - j,
    {
        let l = to_lowercase(cands[j].as_str());
        pats.push(l);
        proof {
            assert(views_of(pats@)[j as int] == l@);
            assert(cands@[j as int]@ == views_of(cands@)[j as int]);
            assert(lowered_candidates(*platform)[j as int] == unicode_lowercase(
                spec_candidates(platform.os@, platform.arch@, platform.ext@)[j as int],
            ));
        }
        j = j + 1;
        assert(views_of(pats@) =~= lowered_candidates(*platform).take(j as int));
    }
    assert(lowered_candidates(*platform).take(j as int) =~= lowered_candidates(*platform));
    match select_platform_asset(&names, &pats, platform.os.as_str(), platform.arch.as_str()) {
        None => None,
        Some(k) => Some(&release.assets[k]),
    }
}

} // verus!
