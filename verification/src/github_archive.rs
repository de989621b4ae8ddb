//! GitHub repository URLs: recognising `https://github.com/{owner}/{repo}`
//! (optionally `/tree/{ref}`) and the codeload archive URLs tried, in order,
//! when a snapshot is fetched over HTTPS instead of cloned.

use vstd::prelude::*;
use crate::text::{
    append_chars, chars_of, count_while, ends_with, ends_with_exec, lemma_count_while,
    starts_with, starts_with_exec, string_of, sub_chars, trim,
    trim_chars,
};

verus! {

/// Owner/name (+ optional ref) parsed out of a GitHub repository URL.
#[derive(Debug, Clone)]
pub struct GitHubRepoRef {
    pub owner: String,
    pub name: String,
    pub requested_ref: Option<String>,
}

pub open spec fn not_slash() -> spec_fn(char) -> bool {
    |c: char| c != '/'
}

/// The part of `s` before its first `/`.
pub open spec fn slash_head(s: Seq<char>) -> Seq<char> {
    s.take(count_while(s, not_slash()) as int)
}

/// What follows the first `/` of `s`, if `s` has one.
pub open spec fn slash_tail(s: Seq<char>) -> Option<Seq<char>> {
    let k = count_while(s, not_slash());
    if k < s.len() {
        Some(s.skip(k + 1 as int))
    } else {
        None
    }
}

/// `s.trim_end_matches('/')`.
pub open spec fn strip_trailing_slashes(s: Seq<char>) -> Seq<char>
    decreases s.len(),
{
    if s.len() > 0 && s.last() == '/' {
        strip_trailing_slashes(s.drop_last())
    } else {
        s
    }
}

/// `s.strip_prefix(p)`.
pub open spec fn strip_prefix(s: Seq<char>, p: Seq<char>) -> Option<Seq<char>> {
    if starts_with(s, p) {
        Some(s.skip(p.len() as int))
    } else {
        None
    }
}

/// `s.strip_suffix(p).unwrap_or(s)`.
pub open spec fn strip_suffix_or_same(s: Seq<char>, p: Seq<char>) -> Seq<char> {
    if ends_with(s, p) {
        s.take(s.len() - p.len())
    } else {
        s
    }
}

pub open spec fn https_prefix() -> Seq<char> {
    "https://github.com/"@
}

pub open spec fn http_prefix() -> Seq<char> {
    "http://github.com/"@
}

pub open spec fn ssh_prefix() -> Seq<char> {
    "git@github.com:"@
}

/// The repository path of a GitHub URL: after trimming whitespace and
/// trailing `/`, what follows the first of `https://github.com/`,
/// `http://github.com/`, `git@github.com:` that prefixes it.
pub open spec fn repo_path(url: Seq<char>) -> Option<Seq<char>> {
    let t = strip_trailing_slashes(trim(url));
    match strip_prefix(t, https_prefix()) {
        Some(r) => Some(r),
        None => match strip_prefix(t, http_prefix()) {
            Some(r) => Some(r),
            None => strip_prefix(t, ssh_prefix()),
        },
    }
}

/// `https://github.com/{owner}/{repo}[.git][/tree/{ref}]`: owner and repo
/// are the first two `/`-separated segments (trimmed, both non-empty) of
/// the repository path without one trailing `.git`; the ref is everything
/// after a third segment that reads `tree`.
pub open spec fn spec_parse_github_url(url: Seq<char>) -> Option<
    (Seq<char>, Seq<char>, Option<Seq<char>>),
> {
    match repo_path(url) {
        None => None,
        Some(r) => {
            let rest = strip_suffix_or_same(r, ".git"@);
            let owner = trim(slash_head(rest));
            match slash_tail(rest) {
                None => None,
                Some(r1) => {
                    let name = trim(slash_head(r1));
                    if owner.len() == 0 || name.len() == 0 {
                        None
                    } else {
                        let requested = match slash_tail(r1) {
                            None => None,
                            Some(r2) => if slash_head(r2) == "tree"@ {
                                slash_tail(r2)
                            } else {
                                None
                            },
                        };
                        Some((owner, name, requested))
                    }
                },
            }
        },
    }
}

/// The value a `GitHubRepoRef` describes.
pub open spec fn repo_ref_view(r: GitHubRepoRef) -> (Seq<char>, Seq<char>, Option<Seq<char>>) {
    (
        r.owner@,
        r.name@,
        match r.requested_ref {
            Some(s) => Some(s@),
            None => None,
        },
    )
}

fn count_not_slash(v: &Vec<char>) -> (k: usize)
    ensures
        k == count_while(v@, not_slash()),
        k <= v@.len(),
{
    let mut k: usize = 0;
    while k < v.len() && v[k] != '/'
        invariant
            k <= v.len(),
            forall|i: int| 0 <= i < k ==> (not_slash())(#[trigger] v@[i]),
        decreases v.len() - k,
    {
        k = k + 1;
    }
    proof {
        lemma_count_while(v@, not_slash(), k as int);
    }
    k
}

fn slash_split(v: &Vec<char>) -> (r: (Vec<char>, Option<Vec<char>>))
    ensures
        r.0@ == slash_head(v@),
        match slash_tail(v@) {
            None => r.1 is None,
            Some(t) => r.1 matches Some(w) && w@ == t,
        },
{
    let k = count_not_slash(v);
    let h = sub_chars(v, 0, k);
    assert(h@ =~= slash_head(v@));
    if k < v.len() {
        let t = sub_chars(v, k + 1, v.len());
        assert(t@ =~= v@.skip(k + 1 as int));
        (h, Some(t))
    } else {
        (h, None)
    }
}

fn strip_prefix_chars(t: &Vec<char>, p: &Vec<char>) -> (r: Option<Vec<char>>)
    ensures
        match strip_prefix(t@, p@) {
            None => r is None,
            Some(s) => r matches Some(w) && w@ == s,
        },
{
    if starts_with_exec(t, p) {
        let w = sub_chars(t, p.len(), t.len());
        assert(w@ =~= t@.skip(p@.len() as int));
        Some(w)
    } else {
        None
    }
}

fn repo_path_chars(url: &str) -> (r: Option<Vec<char>>)
    ensures
        match repo_path(url@) {
            None => r is None,
            Some(s) => r matches Some(w) && w@ == s,
        },
{
    let v = chars_of(url);
    let t0 = trim_chars(&v);
    let mut e = t0.len();
    assert(t0@.take(t0@.len() as int) =~= t0@);
    while e > 0 && t0[e - 1] == '/'
        invariant
            e <= t0.len(),
            strip_trailing_slashes(t0@.take(e as int)) == strip_trailing_slashes(t0@),
        decreases e,
    {
        assert(t0@.take(e as int).drop_last() =~= t0@.take(e - 1));
        e = e - 1;
    }
    assert(t0@.take(t0@.len() as int) =~= t0@);
    let t = sub_chars(&t0, 0, e);
    assert(t@ =~= t0@.take(e as int));
    assert(strip_trailing_slashes(t@) == t@);
    let https = chars_of("https://github.com/");
    match strip_prefix_chars(&t, &https) {
        Some(r) => Some(r),
        None => {
            let http = chars_of("http://github.com/");
            match strip_prefix_chars(&t, &http) {
                Some(r) => Some(r),
                None => {
                    let ssh = chars_of("git@github.com:");
                    strip_prefix_chars(&t, &ssh)
                },
            }
        },
    }
}

/// Parse `https://github.com/{owner}/{repo}[.git][/tree/{ref}]`.
pub fn parse_github_url(url: &str) -> (r: Option<GitHubRepoRef>)
    ensures
        match spec_parse_github_url(url@) {
            None => r is None,
            Some(v) => r matches Some(g) && repo_ref_view(g) == v,
        },
{
    let r = match repo_path_chars(url) {
        None => return None,
        Some(r) => r,
    };
    let git = chars_of(".git");
    let rest = if ends_with_exec(&r, &git) {
        sub_chars(&r, 0, r.len() - git.len())
    } else {
        sub_chars(&r, 0, r.len())
    };
    assert(rest@ =~= strip_suffix_or_same(r@, ".git"@));
    let (h0, t0) = slash_split(&rest);
    let owner = trim_chars(&h0);
    let r1 = match t0 {
        None => return None,
        Some(r1) => r1,
    };
    let (h1, t1) = slash_split(&r1);
    let name = trim_chars(&h1);
    if owner.len() == 0 || name.len() == 0 {
        return None;
    }
    let requested = match t1 {
        None => None,
        Some(r2) => {
            let (h2, t2) = slash_split(&r2);
            let tree = chars_of("tree");
            if h2.len() == tree.len() && crate::text::eq_at(&h2, 0, &tree) {
                assert(h2@.subrange(0, tree@.len() as int) =~= h2@);
                match t2 {
                    None => None,
                    Some(x) => Some(string_of(x.as_slice())),
                }
            } else {
                assert(h2@.len() == tree@.len() ==> h2@.subrange(0, tree@.len() as int) =~= h2@);
                None
            }
        },
    };
    Some(
        GitHubRepoRef {
            owner: string_of(owner.as_slice()),
            name: string_of(name.as_slice()),
            requested_ref: requested,
        },
    )
}

/// `"https://codeload.github.com/{owner}/{repo}"`, the repo name without
/// trailing `/`.
pub open spec fn archive_base(owner: Seq<char>, name: Seq<char>) -> Seq<char> {
    "https://codeload.github.com/"@ + owner + "/"@ + strip_trailing_slashes(name)
}

/// Candidate archive URLs, most likely first: the default branch head when
/// no ref was requested, else the ref as a branch, as a tag, then as given.
pub open spec fn spec_archive_urls(owner: Seq<char>, name: Seq<char>, requested: Option<Seq<char>>) -> Seq<Seq<char>> {
    let base = archive_base(owner, name);
    match requested {
        None => seq![base + "/tar.gz/HEAD"@],
        Some(r) => seq![
            base + "/tar.gz/refs/heads/"@ + r,
            base + "/tar.gz/refs/tags/"@ + r,
            base + "/tar.gz/"@ + r,
        ],
    }
}

fn joined(a: &Vec<char>, b: &str, c: &Vec<char>) -> (s: String)
    ensures
        s@ == a@ + b@ + c@,
{
    let mut v = sub_chars(a, 0, a.len());
    assert(v@ =~= a@);
    let w = chars_of(b);
    append_chars(&mut v, &w);
    append_chars(&mut v, c);
    string_of(v.as_slice())
}

/// Candidate codeload archive URLs, most likely first.
pub fn archive_urls(r: &GitHubRepoRef) -> (urls: Vec<String>)
    ensures
        urls@.len() == spec_archive_urls(r.owner@, r.name@, repo_ref_view(*r).2).len(),
        forall|i: int|
            0 <= i < urls@.len() ==> #[trigger] urls@[i]@ == spec_archive_urls(
                r.owner@,
                r.name@,
                repo_ref_view(*r).2,
            )[i],
{
    let name = chars_of(r.name.as_str());
    let mut e = name.len();
    assert(name@.take(name@.len() as int) =~= name@);
    while e > 0 && name[e - 1] == '/'
        invariant
            e <= name.len(),
            strip_trailing_slashes(name@.take(e as int)) == strip_trailing_slashes(name@),
        decreases e,
    {
        assert(name@.take(e as int).drop_last() =~= name@.take(e - 1));
        e = e - 1;
    }
    assert(name@.take(name@.len() as int) =~= name@);
    let trimmed = sub_chars(&name, 0, e);
    assert(trimmed@ =~= name@.take(e as int));
    let mut base = chars_of("https://codeload.github.com/");
    let owner = chars_of(r.owner.as_str());
    append_chars(&mut base, &owner);
    let slash = chars_of("/");
    append_chars(&mut base, &slash);
    append_chars(&mut base, &trimmed);
    assert(base@ =~= archive_base(r.owner@, r.name@));
    let mut urls: Vec<String> = Vec::new();
    match &r.requested_ref {
        None => {
            let empty: Vec<char> = Vec::new();
            let u = joined(&base, "/tar.gz/HEAD", &empty);
            assert(u@ =~= base@ + "/tar.gz/HEAD"@);
            urls.push(u);
        },
        Some(reference) => {
            let rc = chars_of(reference.as_str());
            urls.push(joined(&base, "/tar.gz/refs/heads/", &rc));
            urls.push(joined(&base, "/tar.gz/refs/tags/", &rc));
            urls.push(joined(&base, "/tar.gz/", &rc));
        },
    }
    urls
}


/// A name segment as it stands in a repository URL: non-empty, without `/`,
/// not starting or ending with whitespace.
pub open spec fn plain_name(s: Seq<char>) -> bool {
    &&& s.len() > 0
    &&& !s.contains('/')
    &&& !crate::text::is_ws(s[0])
    &&& !crate::text::is_ws(s.last())
}

proof fn lemma_trim_plain(s: Seq<char>)
    requires
        s.len() > 0,
        !crate::text::is_ws(s[0]),
        !crate::text::is_ws(s.last()),
    ensures
        trim(s) == s,
{
    crate::text::lemma_trim_start_skip(s);
    assert(crate::text::lead_ws(s) == 0);
    assert(crate::text::trim_start(s) =~= s);
    crate::text::lemma_trim_end_take(s);
    assert(crate::text::trail_ws(s) == 0);
    assert(crate::text::trim_end(s) =~= s);
}

proof fn lemma_no_slash_head(s: Seq<char>)
    requires
        !s.contains('/'),
    ensures
        slash_head(s) == s,
        slash_tail(s) is None,
{
    assert forall|i: int| 0 <= i < s.len() implies not_slash()(#[trigger] s[i]) by {
        if s[i] == '/' {
            assert(s.contains('/'));
        }
    }
    lemma_count_while(s, not_slash(), s.len() as int);
    assert(s.take(s.len() as int) =~= s);
}

/// The URL of a repository page parses back into its owner and name:
/// `https://github.com/{owner}/{name}` gives `owner`, `name` and no ref,
/// for plain segments and a name that does not end in `.git`.
pub proof fn law_repo_url_round_trip(owner: Seq<char>, name: Seq<char>)
    requires
        plain_name(owner),
        plain_name(name),
        !ends_with(name, ".git"@),
    ensures
        spec_parse_github_url(https_prefix() + owner + seq!['/'] + name) == Some(
            (owner, name, None::<Seq<char>>),
        ),
{
    reveal_strlit("https://github.com/");
    reveal_strlit(".git");
    let path = owner + seq!['/'] + name;
    let url = https_prefix() + path;
    assert(url =~= https_prefix() + owner + seq!['/'] + name);
    assert(url[0] == 'h');
    assert(url.last() == name.last());
    lemma_trim_plain(url);
    assert(strip_trailing_slashes(url) == url);
    assert(url.take(https_prefix().len() as int) =~= https_prefix());
    assert(url.skip(https_prefix().len() as int) =~= path);
    assert(strip_prefix(url, https_prefix()) == Some(path));
    assert(!ends_with(path, ".git"@)) by {
        if ends_with(path, ".git"@) {
            if name.len() >= 4 {
                assert(path.take(path.len() - 4) + path.skip(path.len() - 4) =~= path);
                assert(path.skip(path.len() - 4) =~= name.skip(name.len() - 4));
                assert(name.take(name.len() - 4) =~= name.take(name.len() - 4));
                assert(ends_with(name, ".git"@));
            } else {
                let k = path.len() - 4;
                assert(path.skip(k) == ".git"@);
                let m = owner.len() - k;
                assert(0 <= m < 4);
                assert(path[owner.len() as int] == '/');
                assert(path.skip(k)[m] == path[owner.len() as int]);
                assert(".git"@[m] != '/');
            }
        }
    }
    assert(strip_suffix_or_same(path, ".git"@) == path);
    assert forall|i: int| 0 <= i < owner.len() implies not_slash()(#[trigger] path[i]) by {
        assert(path[i] == owner[i]);
        if owner[i] == '/' {
            assert(owner.contains('/'));
        }
    }
    assert(path[owner.len() as int] == '/');
    lemma_count_while(path, not_slash(), owner.len() as int);
    assert(slash_head(path) =~= owner);
    assert(path.skip(owner.len() + 1 as int) =~= name);
    assert(slash_tail(path) == Some(name));
    lemma_trim_plain(owner);
    lemma_no_slash_head(name);
    lemma_trim_plain(name);
}

} // verus!
