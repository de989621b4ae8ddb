//! Naming of template cache entries: each template repository URL maps to a
//! stable directory name `<slug>-<hash>` inside the cache directory.

use vstd::prelude::*;
use vstd::string::StringSliceAdditionalSpecFns;
use crate::paths::{is_data_base, join_path, joined_outcome, plain_name, template_cache_dir};
use crate::text::{chars_of, ends_with, string_of, sub_chars};

verus! {

/// FNV-1a 64-bit offset basis and prime.
pub open spec fn fnv_offset() -> u64 {
    0xcbf2_9ce4_8422_2325
}

pub open spec fn fnv_prime() -> u64 {
    0x0000_0100_0000_01b3
}

/// FNV-1a over `bytes`: start from the offset basis, then for each byte xor
/// it in and multiply by the prime, wrapping.
pub open spec fn spec_fnv1a(bytes: Seq<u8>) -> u64
    decreases bytes.len(),
{
    if bytes.len() == 0 {
        fnv_offset()
    } else {
        (spec_fnv1a(bytes.drop_last()) ^ (bytes.last() as u64)).wrapping_mul(fnv_prime())
    }
}

/// Stable FNV-1a hash of the UTF-8 bytes of `data`, so cache entries
/// survive Rust toolchain changes.
pub fn fnv1a(data: &str) -> (h: u64)
    ensures
        h == spec_fnv1a(data.spec_bytes()),
{
    let bytes = data.as_bytes();
    let mut hash: u64 = 0xcbf2_9ce4_8422_2325;
    let mut i: usize = 0;
    while i < bytes.len()
        invariant
            i <= bytes@.len(),
            bytes@ == data.spec_bytes(),
            hash == spec_fnv1a(bytes@.take(i as int)),
        decreases bytes@.len() - i,
    {
        proof {
            assert(bytes@.take(i + 1).drop_last() =~= bytes@.take(i as int));
        }
        hash = hash ^ (bytes[i] as u64);
        hash = hash.wrapping_mul(0x0000_0100_0000_01b3);
        i = i + 1;
    }
    assert(bytes@.take(bytes@.len() as int) =~= bytes@);
    hash
}

/// What follows the last `/` of `s` (all of `s` when it has none).
pub open spec fn last_segment(s: Seq<char>) -> Seq<char>
    decreases s.len(),
{
    if s.len() > 0 && s.last() != '/' {
        last_segment(s.drop_last()).push(s.last())
    } else {
        Seq::empty()
    }
}

/// `s` with every trailing `.git` removed (`trim_end_matches(".git")`).
pub open spec fn strip_git_suffixes(s: Seq<char>) -> Seq<char>
    decreases s.len(),
{
    if s.len() >= 4 && ends_with(s, ".git"@) {
        strip_git_suffixes(s.take(s.len() - 4))
    } else {
        s
    }
}

/// `s` with every trailing `/` removed.
pub open spec fn strip_slashes(s: Seq<char>) -> Seq<char>
    decreases s.len(),
{
    if s.len() > 0 && s.last() == '/' {
        strip_slashes(s.drop_last())
    } else {
        s
    }
}

/// The name of the cache entry's repository: the last path segment of the
/// URL (trailing `/` ignored) without trailing `.git`s.
pub open spec fn repo_segment(url: Seq<char>) -> Seq<char> {
    strip_git_suffixes(last_segment(strip_slashes(url)))
}

/// Whether `c` is kept in a slug, given whether it is alphanumeric.
pub open spec fn slug_char(c: char, alphanumeric: bool) -> char {
    if alphanumeric || c == '-' || c == '_' {
        c
    } else {
        '-'
    }
}

/// Lowercase hexadecimal digit of `d < 16`.
pub open spec fn hex_lower(d: nat) -> char {
    if d < 10 {
        (48 + d) as char
    } else {
        (87 + d) as char
    }
}

/// The last `k` hexadecimal digits of `n`, most significant first.
pub open spec fn hex_fixed(n: nat, k: nat) -> Seq<char>
    decreases k,
{
    if k == 0 {
        Seq::empty()
    } else {
        hex_fixed(n / 16, (k - 1) as nat).push(hex_lower(n % 16))
    }
}

fn hex_lower_exec(d: u64) -> (c: char)
    requires
        d < 16,
    ensures
        c == hex_lower(d as nat),
{
    if d < 10 {
        (48u8 + d as u8) as char
    } else {
        (87u8 + d as u8) as char
    }
}

fn hex_fixed_exec(n: u64, k: u64) -> (v: Vec<char>)
    ensures
        v@ == hex_fixed(n as nat, k as nat),
    decreases k,
{
    if k == 0 {
        Vec::new()
    } else {
        let mut v = hex_fixed_exec(n / 16, k - 1);
        v.push(hex_lower_exec(n % 16));
        v
    }
}

/// `"<slug>-<hash>"`: the slug is the repository segment with every
/// character other than alphanumerics (as `alphanumeric` classifies the
/// segment's characters), `-` and `_` replaced by `-` (`template` when
/// empty); the hash is the low 32 bits of `fnv1a(url)` as 8 lowercase hex
/// digits.
pub open spec fn spec_entry_name(url: Seq<char>, bytes: Seq<u8>, alphanumeric: Seq<bool>) -> Seq<char> {
    let seg = repo_segment(url);
    let slug = Seq::new(seg.len(), |i: int| slug_char(seg[i], alphanumeric[i]));
    let slug = if slug.len() == 0 {
        "template"@
    } else {
        slug
    };
    slug + seq!['-'] + hex_fixed(spec_fnv1a(bytes) as nat % 0x1_0000_0000, 8)
}

/// The alphanumeric classification of the repository segment of `url`.
pub open spec fn segment_classes(url: Seq<char>) -> Seq<bool> {
    repo_segment(url).map_values(|c: char| unicode_alphanumeric(c))
}

/// The cache entry name of `url`.
pub open spec fn spec_entry_name_of(url: Seq<char>) -> Seq<char> {
    spec_entry_name(url, vstd::utf8::encode_utf8(url), segment_classes(url))
}

/// Unicode `Alphabetic` or `Numeric` (`char::is_alphanumeric`).
pub uninterp spec fn unicode_alphanumeric(c: char) -> bool;

/// Calls `char::is_alphanumeric`. Claimed: the answer depends on the
/// character alone, named `unicode_alphanumeric`; among ASCII characters
/// exactly the letters and digits are alphanumeric. Which other characters
/// are (Unicode tables) is left unsaid.
#[verifier::external_body]
fn is_alphanumeric(c: char) -> (r: bool)
    ensures
        r == unicode_alphanumeric(c),
        (c as u32) < 128 ==> (r <==> ('a' <= c <= 'z' || 'A' <= c <= 'Z' || '0' <= c <= '9')),
{
    c.is_alphanumeric()
}

/// The characters after the last `/` of `t`.
pub fn last_segment_chars(t: &Vec<char>) -> (seg: Vec<char>)
    ensures
        seg@ == last_segment(t@),
{
    let mut b = t.len();
    assert(t@.take(t@.len() as int) =~= t@);
    assert(t@.subrange(t@.len() as int, t@.len() as int) =~= Seq::<char>::empty());
    while b > 0 && t[b - 1] != '/'
        invariant
            b <= t.len(),
            last_segment(t@) == last_segment(t@.take(b as int)) + t@.subrange(
                b as int,
                t@.len() as int,
            ),
        decreases b,
    {
        proof {
            let tb = t@.take(b as int);
            assert(tb.drop_last() =~= t@.take(b - 1));
            assert(tb.last() == t@[b - 1]);
            assert(t@.subrange(b - 1, t@.len() as int) =~= seq![t@[b - 1]] + t@.subrange(
                b as int,
                t@.len() as int,
            ));
            assert(last_segment(tb) == last_segment(t@.take(b - 1)).push(t@[b - 1]));
            assert(last_segment(t@.take(b - 1)).push(t@[b - 1]) + t@.subrange(
                b as int,
                t@.len() as int,
            ) =~= last_segment(t@.take(b - 1)) + t@.subrange(b - 1, t@.len() as int));
        }
        b = b - 1;
    }
    proof {
        if b > 0 {
            assert(t@.take(b as int).last() == t@[b - 1]);
        }
        assert(last_segment(t@.take(b as int)) =~= Seq::<char>::empty());
    }
    let seg = sub_chars(t, b, t.len());
    assert(seg@ =~= last_segment(t@));
    seg
}

/// The characters of the repository segment of `url`.
pub fn repo_segment_chars(url: &str) -> (v: Vec<char>)
    ensures
        v@ == repo_segment(url@),
{
    let u = chars_of(url);
    let mut e = u.len();
    assert(u@.take(u@.len() as int) =~= u@);
    while e > 0 && u[e - 1] == '/'
        invariant
            e <= u.len(),
            strip_slashes(u@.take(e as int)) == strip_slashes(u@),
        decreases e,
    {
        assert(u@.take(e as int).drop_last() =~= u@.take(e - 1));
        e = e - 1;
    }
    let t = sub_chars(&u, 0, e);
    assert(t@ =~= u@.take(e as int));
    assert(strip_slashes(t@) == t@);
    let seg = last_segment_chars(&t);
    let mut k = seg.len();
    let git = chars_of(".git");
    assert(seg@.take(seg@.len() as int) =~= seg@);
    while k >= 4 && crate::text::eq_at(&seg, k - 4, &git)
        invariant
            k <= seg.len(),
            git@ == ".git"@,
            strip_git_suffixes(seg@.take(k as int)) == strip_git_suffixes(seg@),
        decreases k,
    {
        proof {
            reveal_strlit(".git");
            let s = seg@.take(k as int);
            assert(s.skip(s.len() - 4) =~= seg@.subrange(k - 4, k as int));
            assert(s.take(s.len() - 4) =~= seg@.take(k - 4));
        }
        k = k - 4;
    }
    proof {
        reveal_strlit(".git");
        let s = seg@.take(k as int);
        if k >= 4 {
            assert(s.skip(s.len() - 4) =~= seg@.subrange(k - 4, k as int));
        }
        assert(strip_git_suffixes(s) == s);
    }
    let r = sub_chars(&seg, 0, k);
    assert(r@ =~= seg@.take(k as int));
    r
}

/// The cache entry name for `repo_url`, given the alphanumeric
/// classification of the characters of its repository segment.
pub fn entry_name_classified(repo_url: &str, alphanumeric: &Vec<bool>) -> (name: String)
    requires
        alphanumeric@.len() == repo_segment(repo_url@).len(),
    ensures
        name@ == spec_entry_name(repo_url@, repo_url.spec_bytes(), alphanumeric@),
{
    let seg = repo_segment_chars(repo_url);
    let mut slug: Vec<char> = Vec::new();
    let mut i: usize = 0;
    while i < seg.len()
        invariant
            i <= seg.len(),
            alphanumeric@.len() == seg@.len(),
            slug@ == Seq::new(i as nat, |j: int| slug_char(seg@[j], alphanumeric@[j])),
        decreases seg.len() - i,
    {
        let c = seg[i];
        if alphanumeric[i] || c == '-' || c == '_' {
            slug.push(c);
        } else {
            slug.push('-');
        }
        i = i + 1;
        assert(slug@ =~= Seq::new(i as nat, |j: int| slug_char(seg@[j], alphanumeric@[j])));
    }
    let mut out = if slug.len() == 0 {
        chars_of("template")
    } else {
        slug
    };
    out.push('-');
    let h = fnv1a(repo_url) % 0x1_0000_0000;
    let hex = hex_fixed_exec(h, 8);
    crate::text::append_chars(&mut out, &hex);
    string_of(out.as_slice())
}

/// On an ASCII character, `unicode_alphanumeric` holds of exactly the
/// letters and digits.
pub open spec fn classifies_as_ascii(c: char) -> bool {
    (c as u32) < 128 ==> (unicode_alphanumeric(c) <==> ('a' <= c <= 'z' || 'A' <= c <= 'Z' || '0'
        <= c <= '9'))
}

/// Deterministic cache entry name for a template repository URL. The
/// characters of the repository segment are classified as ASCII ones where
/// they are ASCII.
pub fn entry_name(repo_url: &str) -> (name: String)
    ensures
        name@ == spec_entry_name_of(repo_url@),
        forall|k: int|
            0 <= k < repo_segment(repo_url@).len() ==> #[trigger] classifies_as_ascii(
                repo_segment(repo_url@)[k],
            ),
{
    let seg = repo_segment_chars(repo_url);
    let mut flags: Vec<bool> = Vec::new();
    let mut i: usize = 0;
    while i < seg.len()
        invariant
            i <= seg.len(),
            flags@ == seg@.take(i as int).map_values(|c: char| unicode_alphanumeric(c)),
            forall|k: int| 0 <= k < i ==> #[trigger] classifies_as_ascii(seg@[k]),
        decreases seg.len() - i,
    {
        flags.push(is_alphanumeric(seg[i]));
        i = i + 1;
        assert(flags@ =~= seg@.take(i as int).map_values(|c: char| unicode_alphanumeric(c)));
    }
    assert(seg@.take(seg@.len() as int) =~= seg@);
    entry_name_classified(repo_url, &flags)
}

/// Local on-disk cache for project templates: templates are cloned once into
/// `<appdata>/TemplateCache/<entry>`.
pub struct TemplateCacheService;

/// `c` is the template cache directory: `TemplateCache` joined onto the
/// hub's base directory.
pub open spec fn is_cache_root(c: Seq<char>) -> bool {
    exists|base: Seq<char>|
        is_data_base(base) && #[trigger] joined_outcome(base, "TemplateCache"@, c)
}

impl TemplateCacheService {
    pub fn cache_dir() -> (r: String)
        ensures
            is_cache_root(r@),
    {
        template_cache_dir()
    }

    /// Deterministic per-URL directory inside the cache.
    pub fn entry_dir(repo_url: &str) -> (r: String)
        ensures
            forall|k: int|
                0 <= k < repo_segment(repo_url@).len() ==> #[trigger] classifies_as_ascii(
                    repo_segment(repo_url@)[k],
                ),
            plain_name(spec_entry_name_of(repo_url@)) ==> exists|cache: Seq<char>|
                is_cache_root(cache) && #[trigger] joined_outcome(
                    cache,
                    spec_entry_name_of(repo_url@),
                    r@,
                ),
    {
        let base = Self::cache_dir();
        let name = entry_name(repo_url);
        let r = join_path(base.as_str(), name.as_str());
        assert(plain_name(name@) ==> joined_outcome(base@, name@, r@));
        r
    }
}

} // verus!
