//! Locations of the hub's own files: the per-user data directory and the
//! files and directories kept in it. Paths are carried as `String`s.

use vstd::prelude::*;
use crate::text::{chars_of, ends_with, starts_with, str_eq, string_of};

verus! {

/// `r` is the relative, separator-free `segment` joined onto `base`:
/// directly after it, or after one `/` or `\` separator.
pub open spec fn spec_joined(base: Seq<char>, segment: Seq<char>, r: Seq<char>) -> bool {
    ||| r == base + segment
    ||| r == base + seq!['/'] + segment
    ||| r == base + seq!['\\'] + segment
}

/// The Windows verbatim prefix `\\?\`, under which joining normalizes the
/// whole path.
pub open spec fn verbatim_prefix() -> Seq<char> {
    seq!['\\', '\\', '?', '\\']
}

/// A path segment without separators or drive colon.
pub open spec fn plain_segment(s: Seq<char>) -> bool {
    s.len() > 0 && !s.contains('/') && !s.contains('\\') && !s.contains(':')
}

/// What joining the plain name `segment` onto `base` gives: the base
/// followed by the segment with at most one separator between; under a
/// Windows verbatim prefix, where the base is normalized first, a path that
/// keeps the prefix and ends with the segment.
pub open spec fn joined_outcome(base: Seq<char>, segment: Seq<char>, r: Seq<char>) -> bool {
    ||| spec_joined(base, segment, r)
    ||| {
        &&& starts_with(base, verbatim_prefix())
        &&& starts_with(r, verbatim_prefix())
        &&& ends_with(r, segment)
    }
}

/// Calls `Path::join` (and converts the result to a `String`). Claimed
/// (`joined_outcome`): for a plain name (a relative segment other than `.`
/// and `..`) the result extends the base by the segment, with at most one
/// separator between; under a Windows verbatim prefix the path is normalized
/// (`.` and `..` removed), which leaves such a name as the last component,
/// so only the prefix and the segment at the end are claimed. Which separator
/// is used is left unsaid (it is the platform's).
#[verifier::external_body]
pub(crate) fn join_path(base: &str, segment: &str) -> (r: String)
    ensures
        plain_name(segment@) ==> joined_outcome(base@, segment@, r@),
{
    std::path::Path::new(base).join(segment).to_string_lossy().into_owned()
}

/// The hub's project identity, from which `directories` derives its
/// per-user directories.
pub const PROJECT_QUALIFIER: &'static str = "com";

pub const PROJECT_ORGANIZATION: &'static str = "Pulsar";

pub const PROJECT_APPLICATION: &'static str = "Pulsar_Engine";

/// A part of a project identity: non-empty printable ASCII without spaces or
/// path separators.
pub open spec fn project_name_part(s: Seq<char>) -> bool {
    &&& s.len() > 0
    &&& forall|i: int|
        0 <= i < s.len() ==> 0x21 <= (#[trigger] s[i] as u32) <= 0x7e && s[i] != '/' && s[i]
            != '\\'
}

/// The three parts of the hub's project identity are plain parts.
pub proof fn lemma_project_identity()
    ensures
        project_name_part(PROJECT_QUALIFIER@),
        project_name_part(PROJECT_ORGANIZATION@),
        project_name_part(PROJECT_APPLICATION@),
{
    reveal_strlit("com");
    reveal_strlit("Pulsar");
    reveal_strlit("Pulsar_Engine");
}

/// `x` ends with the directory name `directories` derives for the project
/// (`qualifier`, `organization`, `application`) on one of the platforms: the
/// lowercased application name under the XDG layout, the bundle identifier
/// `qualifier.organization.application` on macOS, or the leaf `leaf` that
/// follows the `organization\application` folder on Windows.
pub open spec fn project_dir_ends(
    x: Seq<char>,
    qualifier: Seq<char>,
    organization: Seq<char>,
    application: Seq<char>,
    leaf: Seq<char>,
) -> bool {
    ||| ends_with(x, application.map_values(|c: char| crate::text::ascii_lower(c)))
    ||| ends_with(x, qualifier + seq!['.'] + organization + seq!['.'] + application)
    ||| ends_with(x, leaf)
}

/// What a data directory `d` found for a project can be, whatever the
/// environment: when there is one, a path that ends with the project's
/// directory name (`project_dir_ends`, `data` on Windows).
pub open spec fn data_dir_outcome(
    d: Option<Seq<char>>,
    qualifier: Seq<char>,
    organization: Seq<char>,
    application: Seq<char>,
) -> bool {
    d matches Some(x) ==> project_dir_ends(x, qualifier, organization, application, "data"@)
}

/// Calls `directories::ProjectDirs::from(qualifier, organization,
/// application)` and takes `data_dir` of the result. Claimed
/// (`data_dir_outcome`): a directory, when there is one, ends with the
/// project's path fragment that the crate joins last on each platform (for
/// identity parts without spaces, the crate's lowercasing and space
/// replacement leave them as they are, up to the ASCII lowercasing under the
/// XDG layout). Whether there is one, and the base directory it lies in,
/// depend on the user's environment and are left unsaid.
#[verifier::external_body]
fn project_data_dir(qualifier: &str, organization: &str, application: &str) -> (r: Option<String>)
    requires
        project_name_part(qualifier@),
        project_name_part(organization@),
        project_name_part(application@),
    ensures
        data_dir_outcome(opt_chars(r), qualifier@, organization@, application@),
{
    directories::ProjectDirs::from(qualifier, organization, application).map(
        |d| d.data_dir().to_string_lossy().into_owned(),
    )
}

/// What a cache directory `d` found for a project can be, whatever the
/// environment: when there is one, a path that ends with the project's
/// directory name (`project_dir_ends`, `cache` on Windows).
pub open spec fn cache_dir_outcome(
    d: Option<Seq<char>>,
    qualifier: Seq<char>,
    organization: Seq<char>,
    application: Seq<char>,
) -> bool {
    d matches Some(x) ==> project_dir_ends(x, qualifier, organization, application, "cache"@)
}

/// Calls `directories::ProjectDirs::from(qualifier, organization,
/// application)` and takes `cache_dir` of the result. Claimed
/// (`cache_dir_outcome`): a directory, when there is one, ends with the path
/// fragment that the crate joins last on each platform. Whether there is
/// one, and the base directory it lies in, depend on the user's environment
/// and are left unsaid.
#[verifier::external_body]
fn project_cache_dir(qualifier: &str, organization: &str, application: &str) -> (r: Option<String>)
    requires
        project_name_part(qualifier@),
        project_name_part(organization@),
        project_name_part(application@),
    ensures
        cache_dir_outcome(opt_chars(r), qualifier@, organization@, application@),
{
    directories::ProjectDirs::from(qualifier, organization, application).map(
        |d| d.cache_dir().to_string_lossy().into_owned(),
    )
}

/// The hub's data directory, when there is one.
fn hub_data_dir() -> (r: Option<String>)
    ensures
        data_dir_outcome(opt_chars(r), PROJECT_QUALIFIER@, PROJECT_ORGANIZATION@, PROJECT_APPLICATION@),
{
    proof {
        lemma_project_identity();
    }
    project_data_dir(PROJECT_QUALIFIER, PROJECT_ORGANIZATION, PROJECT_APPLICATION)
}

/// The hub's cache directory, when there is one.
fn hub_cache_dir() -> (r: Option<String>)
    ensures
        cache_dir_outcome(opt_chars(r), PROJECT_QUALIFIER@, PROJECT_ORGANIZATION@, PROJECT_APPLICATION@),
{
    proof {
        lemma_project_identity();
    }
    project_cache_dir(PROJECT_QUALIFIER, PROJECT_ORGANIZATION, PROJECT_APPLICATION)
}

/// A data directory the hub can find (see `data_dir_outcome`).
pub open spec fn is_hub_data_dir(s: Seq<char>) -> bool {
    data_dir_outcome(Some(s), PROJECT_QUALIFIER@, PROJECT_ORGANIZATION@, PROJECT_APPLICATION@)
}

/// A cache directory the hub can find (see `cache_dir_outcome`).
pub open spec fn is_hub_cache_dir(s: Seq<char>) -> bool {
    cache_dir_outcome(Some(s), PROJECT_QUALIFIER@, PROJECT_ORGANIZATION@, PROJECT_APPLICATION@)
}

fn plain(s: &str) -> (r: String)
    ensures
        r@ == s@,
{
    let v = chars_of(s);
    string_of(v.as_slice())
}

/// A base directory for the hub's own files: the data directory found for
/// the hub, or `.` when there is none.
pub open spec fn is_data_base(s: Seq<char>) -> bool {
    s == seq!['.'] || is_hub_data_dir(s)
}

/// The hub's data directory, `.` when the platform has none. What the
/// platform's directory is depends on the user's environment.
pub fn appdata_dir() -> (r: String)
    ensures
        is_data_base(r@),
{
    match hub_data_dir() {
        Some(dir) => dir,
        None => {
            proof {
                reveal_strlit(".");
                assert("."@ =~= seq!['.']);
            }
            plain(".")
        },
    }
}

/// `name` inside the data directory, or `name` alone when there is none.
fn data_file(name: &str) -> (r: String)
    requires
        plain_name(name@),
    ensures
        r@ == name@ || exists|base: Seq<char>|
            is_hub_data_dir(base) && #[trigger] joined_outcome(base, name@, r@),
{
    match hub_data_dir() {
        Some(d) => {
            let r = join_path(d.as_str(), name);
            assert(joined_outcome(d@, name@, r@));
            r
        },
        None => plain(name),
    }
}

pub fn recent_projects_path() -> (r: String)
    ensures
        r@ == "recent_projects.json"@ || exists|base: Seq<char>|
            is_hub_data_dir(base) && #[trigger] joined_outcome(
                base,
                "recent_projects.json"@,
                r@,
            ),
{
    proof {
        reveal_strlit("recent_projects.json");
    }
    data_file("recent_projects.json")
}

pub fn cloud_servers_path() -> (r: String)
    ensures
        r@ == "cloud_servers.json"@ || exists|base: Seq<char>|
            is_hub_data_dir(base) && #[trigger] joined_outcome(
                base,
                "cloud_servers.json"@,
                r@,
            ),
{
    proof {
        reveal_strlit("cloud_servers.json");
    }
    data_file("cloud_servers.json")
}

pub fn thumbnail_cache_dir() -> (r: String)
    ensures
        r@ == "template_thumbnails"@ || exists|base: Seq<char>|
            is_hub_cache_dir(base) && #[trigger] joined_outcome(
                base,
                "template_thumbnails"@,
                r@,
            ),
{
    proof {
        reveal_strlit("template_thumbnails");
    }
    match hub_cache_dir() {
        Some(d) => {
            let r = join_path(d.as_str(), "template_thumbnails");
            assert(joined_outcome(d@, "template_thumbnails"@, r@));
            r
        },
        None => plain("template_thumbnails"),
    }
}

/// `name` inside the hub's base directory (`appdata_dir`).
fn in_appdata(name: &str) -> (r: String)
    requires
        plain_name(name@),
    ensures
        exists|base: Seq<char>| is_data_base(base) && #[trigger] joined_outcome(base, name@, r@),
{
    let base = appdata_dir();
    let r = join_path(base.as_str(), name);
    assert(joined_outcome(base@, name@, r@));
    r
}

pub fn plugins_dir() -> (r: String)
    ensures
        exists|base: Seq<char>|
            is_data_base(base) && #[trigger] joined_outcome(base, "plugins"@, r@),
{
    proof {
        reveal_strlit("plugins");
    }
    in_appdata("plugins")
}

pub fn registries_dir() -> (r: String)
    ensures
        exists|base: Seq<char>|
            is_data_base(base) && #[trigger] joined_outcome(base, "registries"@, r@),
{
    proof {
        reveal_strlit("registries");
    }
    in_appdata("registries")
}

pub fn template_cache_dir() -> (r: String)
    ensures
        exists|base: Seq<char>|
            is_data_base(base) && #[trigger] joined_outcome(base, "TemplateCache"@, r@),
{
    proof {
        reveal_strlit("TemplateCache");
    }
    in_appdata("TemplateCache")
}

pub fn cloud_intro_seen_path() -> (r: String)
    ensures
        exists|base: Seq<char>|
            is_data_base(base) && #[trigger] joined_outcome(base, "cloud_intro_seen"@, r@),
{
    proof {
        reveal_strlit("cloud_intro_seen");
    }
    in_appdata("cloud_intro_seen")
}

/// A path component that every platform reads as a plain name: no
/// separator, no drive colon, and neither `.` nor `..`.
pub open spec fn plain_name(s: Seq<char>) -> bool {
    plain_segment(s) && s != seq!['.'] && s != seq!['.', '.']
}

/// Index of the last `/` in `s`, or -1 when there is none.
pub open spec fn last_slash(s: Seq<char>) -> int
    decreases s.len(),
{
    if s.len() == 0 {
        -1
    } else if s.last() == '/' {
        s.len() - 1
    } else {
        last_slash(s.drop_last())
    }
}

/// `s` is plain names joined by single `/` separators, with or without a
/// leading `/`: a path that every platform splits the same way.
pub open spec fn plain_path(s: Seq<char>) -> bool
    decreases s.len(),
{
    let i = last_slash(s);
    if i < 0 {
        plain_name(s)
    } else if i == 0 {
        plain_name(s.skip(1))
    } else if i < s.len() {
        plain_name(s.skip(i + 1)) && plain_path(s.take(i))
    } else {
        false
    }
}

/// `last_slash` is -1 or the index of a `/` with none after it.
pub proof fn lemma_last_slash(s: Seq<char>)
    ensures
        -1 <= last_slash(s) < s.len(),
        last_slash(s) >= 0 ==> s[last_slash(s)] == '/',
        forall|j: int| last_slash(s) < j < s.len() ==> s[j] != '/',
    decreases s.len(),
{
    if s.len() > 0 && s.last() != '/' {
        lemma_last_slash(s.drop_last());
        assert forall|j: int| last_slash(s) < j < s.len() implies s[j] != '/' by {
            if j < s.len() - 1 {
                assert(s[j] == s.drop_last()[j]);
            }
        }
    }
}

/// The last name of a plain path is a plain name.
pub proof fn lemma_plain_file_name(s: Seq<char>)
    requires
        plain_path(s),
    ensures
        plain_name(plain_file_name(s)),
{
    lemma_last_slash(s);
    if last_slash(s) < 0 {
        assert(s.skip(0) =~= s);
    }
}

/// Two plain segments one after the other make a plain segment.
pub proof fn lemma_plain_segment_concat(a: Seq<char>, b: Seq<char>)
    requires
        plain_segment(a),
        plain_segment(b),
    ensures
        plain_segment(a + b),
{
    let s = a + b;
    assert forall|c: char| c == '/' || c == '\\' || c == ':' implies !s.contains(c) by {
        if s.contains(c) {
            let i = choose|i: int| 0 <= i < s.len() && s[i] == c;
            if i < a.len() {
                assert(a[i] == c);
            } else {
                assert(b[i - a.len()] == c);
            }
        }
    }
}

/// The last name of a plain path.
pub open spec fn plain_file_name(s: Seq<char>) -> Seq<char> {
    s.skip(last_slash(s) + 1)
}

/// A plain path without its last name: the empty path for a single name,
/// `/` for a name right under the root, else everything before the last `/`.
pub open spec fn plain_parent(s: Seq<char>) -> Seq<char> {
    let i = last_slash(s);
    if i < 0 {
        Seq::empty()
    } else if i == 0 {
        seq!['/']
    } else {
        s.take(i)
    }
}

/// An optional `String` taken as its characters.
pub open spec fn opt_chars(o: Option<String>) -> Option<Seq<char>> {
    match o {
        Some(s) => Some(s@),
        None => None,
    }
}

/// What the file name `r` of `path` is known to be on every platform: a
/// name is non-empty and holds no `/`; the empty path and `/` have none; of
/// a plain path it is the last name.
pub open spec fn file_name_outcome(path: Seq<char>, r: Option<Seq<char>>) -> bool {
    &&& r matches Some(n) ==> n.len() > 0 && !n.contains('/')
    &&& path.len() == 0 ==> r is None
    &&& path == seq!['/'] ==> r is None
    &&& plain_path(path) ==> r == Some(plain_file_name(path))
}

/// What the parent `r` of `path` is known to be on every platform: a
/// parent is a proper prefix of the path; the empty path and `/` have none;
/// of a plain path it is `plain_parent`.
pub open spec fn parent_outcome(path: Seq<char>, r: Option<Seq<char>>) -> bool {
    &&& r matches Some(p) ==> p.len() < path.len() && path.take(p.len() as int) == p
    &&& path.len() == 0 ==> r is None
    &&& path == seq!['/'] ==> r is None
    &&& plain_path(path) ==> r == Some(plain_parent(path))
}

/// The file name of `path` (`Path::file_name`), converted to a `String`.
/// Claimed: `file_name_outcome`, that is what the documentation of
/// `Path::file_name` shows for every platform. Which name other paths have
/// follows the platform's path syntax and is left unsaid.
#[verifier::external_body]
pub(crate) fn path_file_name(path: &str) -> (r: Option<String>)
    ensures
        file_name_outcome(path@, opt_chars(r)),
{
    std::path::Path::new(path).file_name().map(|n| n.to_string_lossy().into_owned())
}

/// The parent of `path` (`Path::parent`), converted to a `String`. Claimed:
/// `parent_outcome`, that is what the documentation of `Path::parent` shows
/// for every platform. Which prefix other paths have as parent follows the
/// platform's path syntax and is left unsaid.
#[verifier::external_body]
fn path_parent(path: &str) -> (r: Option<String>)
    ensures
        parent_outcome(path@, opt_chars(r)),
{
    std::path::Path::new(path).parent().map(|p| p.to_string_lossy().into_owned())
}

/// The normalized project path, given the file name `f` of `path`, its
/// parent `p` and the parent's file name `pn`: the parent when the two
/// names are equal, else `path` itself.
pub open spec fn spec_normalized(
    path: Seq<char>,
    f: Option<Seq<char>>,
    p: Option<Seq<char>>,
    pn: Option<Seq<char>>,
) -> Seq<char> {
    match (f, p, pn) {
        (Some(a), Some(q), Some(b)) => if a == b {
            q
        } else {
            path
        },
        _ => path,
    }
}

/// `r` is `path` normalized for some file name, parent and parent's file
/// name that the platform can give.
pub open spec fn normalized_outcome(path: Seq<char>, r: Seq<char>) -> bool {
    exists|f: Option<Seq<char>>, p: Option<Seq<char>>, pn: Option<Seq<char>>|
        #![trigger spec_normalized(path, f, p, pn)]
        {
            &&& file_name_outcome(path, f)
            &&& parent_outcome(path, p)
            &&& (p matches Some(q) ==> (f is Some ==> file_name_outcome(q, pn)))
            &&& r == spec_normalized(path, f, p, pn)
        }
}

/// A project picked as `…/Name/Name` is normalized to its parent `…/Name`;
/// other paths are returned unchanged.
pub fn normalize_project_path(path: &str) -> (r: String)
    ensures
        normalized_outcome(path@, r@),
{
    let file_name = path_file_name(path);
    let parent = path_parent(path);
    let ghost f = opt_chars(file_name);
    let ghost p = opt_chars(parent);
    match (file_name, parent) {
        (Some(name), Some(par)) => {
            let parent_name = path_file_name(par.as_str());
            let ghost pn = opt_chars(parent_name);
            match parent_name {
                Some(pname) => {
                    if str_eq(name.as_str(), pname.as_str()) {
                        assert(par@ == spec_normalized(path@, f, p, pn));
                        return par;
                    }
                },
                None => {},
            }
            let r = plain(path);
            assert(r@ == spec_normalized(path@, f, p, pn));
            r
        },
        _ => {
            let r = plain(path);
            assert(r@ == spec_normalized(path@, f, p, None));
            r
        },
    }
}

} // verus!
