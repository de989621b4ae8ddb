//! Resumable streaming downloads: where a partial download is staged, from
//! which offset it resumes, and how the server's reply settles the offset.

use vstd::prelude::*;
use crate::paths::{
    file_name_outcome, lemma_plain_file_name, lemma_plain_segment_concat, opt_chars, path_file_name,
    plain_file_name, plain_parent, plain_path, plain_segment,
};
use crate::text::{chars_of, concat_str, ends_with};

verus! {

/// `name` pushed onto the directory `dir` (`PathBuf::push` of a relative
/// plain name): the name alone onto the empty path, directly after a
/// trailing `/`, else after one separator (`/`, or `\` on Windows).
pub open spec fn spec_pushed(dir: Seq<char>, name: Seq<char>, r: Seq<char>) -> bool {
    if dir.len() == 0 {
        r == name
    } else if dir.last() == '/' {
        r == dir + name
    } else {
        r == dir + seq!['/'] + name || r == dir + seq!['\\'] + name
    }
}

/// `path` with its file name replaced by `name` (`Path::with_file_name`),
/// converted to a `String`. Claimed: for a non-empty `name` without `/` or
/// `\` that is neither `.` nor `..`, the result ends with `name` (it is
/// pushed as the last component, and even the normalization under a Windows
/// verbatim prefix keeps such a component); for a plain path and a plain
/// `name`, it is `name` pushed onto the path's parent (the documentation: the
/// last component is popped, which truncates to the parent, then `name` is
/// pushed). Which separator is pushed is the platform's; what other paths
/// and names give follows the platform's path syntax and is left unsaid.
#[verifier::external_body]
fn path_with_file_name(path: &str, name: &str) -> (r: String)
    requires
        name@.len() > 0,
        !name@.contains('/'),
    ensures
        !name@.contains('\\') && name@ != seq!['.'] && name@ != seq!['.', '.'] ==> ends_with(
            r@,
            name@,
        ),
        plain_path(path@) && plain_segment(name@) ==> spec_pushed(plain_parent(path@), name@, r@),
{
    std::path::Path::new(path).with_file_name(name).to_string_lossy().into_owned()
}

/// Sibling staging path (`<name>.part`) used while the download is in
/// flight: the destination's file name with `.part` appended, in the
/// destination's directory. There is one exactly when the destination has
/// a file name.
pub fn part_path(dest: &str) -> (r: Result<String, String>)
    ensures
        exists|f: Option<Seq<char>>|
            #![trigger file_name_outcome(dest@, f)]
            {
                &&& file_name_outcome(dest@, f)
                &&& (r is Ok <==> f is Some)
                &&& (r matches Ok(p) ==> (f matches Some(n) && (!n.contains('\\') ==> ends_with(
                    p@,
                    n + ".part"@,
                ) && ends_with(p@, ".part"@) && p@.len() > ".part"@.len())))
            },
        dest@.len() == 0 ==> r is Err,
        dest@ == seq!['/'] ==> r is Err,
        r matches Err(e) ==> e@ == "Invalid destination path"@,
        plain_path(dest@) ==> (r matches Ok(p) && spec_pushed(
            plain_parent(dest@),
            plain_file_name(dest@) + ".part"@,
            p@,
        )),
{
    let found = path_file_name(dest);
    let ghost f = opt_chars(found);
    match found {
        None => {
            let e = chars_of("Invalid destination path");
            let r = Err(crate::text::string_of(e.as_slice()));
            assert(file_name_outcome(dest@, f));
            r
        },
        Some(name) => {
            let staged = concat_str(name.as_str(), ".part");
            proof {
                assert(staged@.len() > 0);
                assert(!staged@.contains('/')) by {
                    reveal_strlit(".part");
                    if staged@.contains('/') {
                        let i = choose|i: int| 0 <= i < staged@.len() && staged@[i] == '/';
                        if i < name@.len() {
                            assert(name@[i] == '/');
                        }
                    }
                }
                if plain_path(dest@) {
                    reveal_strlit(".part");
                    lemma_plain_file_name(dest@);
                    assert(!".part"@.contains('/') && !".part"@.contains('\\')
                        && !".part"@.contains(':')) by {
                        let q = ".part"@;
                        assert(q =~= seq!['.', 'p', 'a', 'r', 't']);
                    }
                    lemma_plain_segment_concat(name@, ".part"@);
                }
            }
            let p = path_with_file_name(dest, staged.as_str());
            proof {
                reveal_strlit(".part");
                let w = name@ + ".part"@;
                assert(w.len() > 2);
                if !name@.contains('\\') {
                    assert(!w.contains('\\')) by {
                        assert(".part"@ =~= seq!['.', 'p', 'a', 'r', 't']);
                        if w.contains('\\') {
                            let i = choose|i: int| 0 <= i < w.len() && w[i] == '\\';
                            if i < name@.len() {
                                assert(name@[i] == '\\');
                            }
                        }
                    }
                    assert(w != seq!['.'] && w != seq!['.', '.']) by {
                        if w == seq!['.'] || w == seq!['.', '.'] {
                            assert(w.len() <= 2);
                        }
                    }
                    assert(ends_with(p@, w));
                    assert(p@.skip(p@.len() - 5) =~= w.skip(w.len() - 5));
                    assert(w.skip(w.len() - 5) =~= ".part"@);
                }
                assert(file_name_outcome(dest@, f));
            }
            Ok(p)
        },
    }
}

/// Byte offset an existing `.part` file lets us resume from: its length
/// when resuming is enabled, else 0.
pub fn initial_offset(part_len: Option<u64>, resume: bool) -> (r: u64)
    ensures
        r == if resume {
            match part_len {
                Some(n) => n,
                None => 0,
            }
        } else {
            0
        },
{
    if resume {
        match part_len {
            Some(n) => n,
            None => 0,
        }
    } else {
        0
    }
}

/// What a reply settles: `(offset, total)`.
pub open spec fn spec_negotiate(requested_offset: u64, status: u16, content_length: Option<u64>) -> (
    u64,
    Option<int>,
) {
    if requested_offset > 0 && status == 206 {
        (
            requested_offset,
            match content_length {
                Some(len) => Some(requested_offset + len),
                None => None,
            },
        )
    } else {
        (
            0,
            match content_length {
                Some(len) => Some(len as int),
                None => None,
            },
        )
    }
}

/// Resolve the server's reply into the on-disk offset to continue at plus the
/// effective total size. A `200` despite a Range request means the server
/// ignored it — restart from zero. On `206`, the content length covers only
/// the remaining bytes, so the total includes what is already on disk.
pub fn negotiate(requested_offset: u64, status: u16, content_length: Option<u64>) -> (r: (
    u64,
    Option<u64>,
))
    requires
        requested_offset > 0 && status == 206 ==> (content_length matches Some(len)
            ==> requested_offset + len <= u64::MAX),
    ensures
        r.0 == spec_negotiate(requested_offset, status, content_length).0,
        match r.1 {
            Some(t) => spec_negotiate(requested_offset, status, content_length).1 == Some(t as int),
            None => spec_negotiate(requested_offset, status, content_length).1 is None,
        },
{
    if requested_offset > 0 && status == 206 {
        (
            requested_offset,
            match content_length {
                Some(len) => Some(requested_offset + len),
                None => None,
            },
        )
    } else {
        (0, content_length)
    }
}

/// A download that does not resume always starts writing at offset 0,
/// whatever the server answers.
pub proof fn law_fresh_download_starts_at_zero(
    part_len: Option<u64>,
    status: u16,
    content_length: Option<u64>,
)
    ensures
        spec_negotiate(0, status, content_length).0 == 0,
        spec_negotiate(0, status, content_length).1 == match content_length {
            Some(len) => Some(len as int),
            None => None::<int>,
        },
{
}

/// When a resumed range is honoured, the offset is the bytes already on
/// disk and the total is those bytes plus what the server still sends; in
/// every other case the download restarts from 0 and the total is what the
/// server announced.
pub proof fn law_offset_is_requested_or_zero(
    requested_offset: u64,
    status: u16,
    content_length: Option<u64>,
)
    ensures
        ({
            let (offset, total) = spec_negotiate(requested_offset, status, content_length);
            &&& offset == requested_offset || offset == 0
            &&& offset > 0 <==> (requested_offset > 0 && status == 206)
            &&& (content_length matches Some(len) ==> total == Some(offset + len))
            &&& (content_length is None ==> total is None)
        }),
{
}

} // verus!
