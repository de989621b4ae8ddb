//! Cloud server addresses as the user types them.

use vstd::prelude::*;
use crate::text::{append_chars, chars_of, starts_with, starts_with_exec, string_of, trim, trim_chars};
use crate::template_cache::strip_slashes;
use crate::types::{CloudProjectStatus, CloudServer, CloudServerStatus};
use crate::text::{dec, dec_chars};

verus! {

/// The address with surrounding whitespace and trailing `/`s removed, and
/// `http://` put in front when it names no `http://` or `https://` scheme.
pub open spec fn spec_normalize_url(raw: Seq<char>) -> Seq<char> {
    let t = strip_slashes(trim(raw));
    if starts_with(t, "http://"@) || starts_with(t, "https://"@) {
        t
    } else {
        "http://"@ + t
    }
}

/// Normalizes a server address typed by the user.
pub fn normalize_url(raw: &str) -> (r: String)
    ensures
        r@ == spec_normalize_url(raw@),
{
    let v = chars_of(raw);
    let t = trim_chars(&v);
    let mut e: usize = t.len();
    assert(t@.take(e as int) =~= t@);
    while e > 0 && t[e - 1] == '/'
        invariant
            e <= t@.len(),
            strip_slashes(t@.take(e as int)) == strip_slashes(t@),
        decreases e,
    {
        assert(t@.take(e as int).drop_last() =~= t@.take(e - 1));
        e = e - 1;
    }
    let s = crate::text::sub_chars(&t, 0, e);
    assert(s@ =~= t@.take(e as int));
    assert(strip_slashes(s@) == s@);
    let http = chars_of("http://");
    let https = chars_of("https://");
    if starts_with_exec(&s, &http) || starts_with_exec(&s, &https) {
        string_of(s.as_slice())
    } else {
        let mut out = http;
        append_chars(&mut out, &s);
        string_of(out.as_slice())
    }
}


/// Index of the last page of the cloud introduction.
pub const CLOUD_INTRO_LAST_PAGE: usize = 2;

/// What "next" does on the cloud introduction.
pub enum IntroStep {
    /// Show this page.
    Page(usize),
    /// Close the introduction and remember it was seen.
    Close,
}

/// "Next" on page `page`: the following page, or closing after the last.
pub fn next_cloud_intro_page(page: usize) -> (r: IntroStep)
    ensures
        page < CLOUD_INTRO_LAST_PAGE ==> (r matches IntroStep::Page(p) && p == page + 1),
        page >= CLOUD_INTRO_LAST_PAGE ==> r is Close,
{
    if page < CLOUD_INTRO_LAST_PAGE {
        IntroStep::Page(page + 1)
    } else {
        IntroStep::Close
    }
}

/// "Back" on page `page`: the page before, staying on the first.
pub fn prev_cloud_intro_page(page: usize) -> (r: usize)
    ensures
        r == if page > 0 {
            page - 1
        } else {
            0
        },
{
    if page > 0 {
        page - 1
    } else {
        0
    }
}

/// Jumping to page `page`, at most the last one.
pub fn set_cloud_intro_page(page: usize) -> (r: usize)
    ensures
        r == if page < CLOUD_INTRO_LAST_PAGE {
            page
        } else {
            CLOUD_INTRO_LAST_PAGE
        },
{
    if page < CLOUD_INTRO_LAST_PAGE {
        page
    } else {
        CLOUD_INTRO_LAST_PAGE
    }
}

/// Removes server `index` when there is one, forgetting the selection when
/// it was that server; returns whether a server was removed.
pub fn remove_cloud_server(
    servers: &mut Vec<CloudServer>,
    selected: &mut Option<usize>,
    index: usize,
) -> (removed: bool)
    ensures
        removed == (index < old(servers)@.len()),
        removed ==> final(servers)@ == old(servers)@.remove(index as int),
        !removed ==> final(servers)@ == old(servers)@,
        removed && *old(selected) == Some(index) ==> *final(selected) is None,
        !(removed && *old(selected) == Some(index)) ==> *final(selected) == *old(selected),
{
    if index < servers.len() {
        servers.remove(index);
        if *selected == Some(index) {
            *selected = None;
        }
        true
    } else {
        false
    }
}


/// The status line of a cloud server card.
pub open spec fn spec_server_status_label(status: CloudServerStatus) -> Seq<char> {
    match status {
        CloudServerStatus::Online { latency_ms, .. } => "Online \u{00B7} "@ + dec(latency_ms as nat)
            + "ms"@,
        CloudServerStatus::Connecting => "Connecting\u{2026}"@,
        CloudServerStatus::Offline => "Offline"@,
        CloudServerStatus::Unauthorized => "Unauthorized"@,
        CloudServerStatus::Unknown => "Unknown"@,
    }
}

fn text_of(parts: &Vec<char>) -> (r: String)
    ensures
        r@ == parts@,
{
    string_of(parts.as_slice())
}

/// The status line of a cloud server card.
pub fn server_status_label(status: &CloudServerStatus) -> (r: String)
    ensures
        r@ == spec_server_status_label(*status),
{
    match status {
        CloudServerStatus::Online { latency_ms, .. } => {
            let mut v = chars_of("Online \u{00B7} ");
            let n = dec_chars(*latency_ms as u64);
            append_chars(&mut v, &n);
            let ms = chars_of("ms");
            append_chars(&mut v, &ms);
            text_of(&v)
        },
        CloudServerStatus::Connecting => text_of(&chars_of("Connecting\u{2026}")),
        CloudServerStatus::Offline => text_of(&chars_of("Offline")),
        CloudServerStatus::Unauthorized => text_of(&chars_of("Unauthorized")),
        CloudServerStatus::Unknown => text_of(&chars_of("Unknown")),
    }
}

/// Active users and projects of a server: what an online server reports,
/// zero otherwise.
pub fn server_activity(status: &CloudServerStatus) -> (r: (u32, u32))
    ensures
        r == (match *status {
            CloudServerStatus::Online { active_users, active_projects, .. } => (
                active_users,
                active_projects,
            ),
            _ => (0u32, 0u32),
        }),
{
    match status {
        CloudServerStatus::Online { active_users, active_projects, .. } => (
            *active_users,
            *active_projects,
        ),
        _ => (0, 0),
    }
}

/// The status line of a cloud project card, whether it is preparing, and the
/// error to show.
pub fn project_status_label(status: &CloudProjectStatus) -> (r: (String, bool, Option<String>))
    ensures
        r.0@ == (match *status {
            CloudProjectStatus::Idle => "Idle"@,
            CloudProjectStatus::Preparing => "Preparing\u{2026}"@,
            CloudProjectStatus::Running { user_count } => "Running ("@ + dec(user_count as nat)
                + ")"@,
            CloudProjectStatus::Error(_) => "Error"@,
        }),
        r.1 == (*status is Preparing),
        r.2 == (match *status {
            CloudProjectStatus::Error(e) => Some(e),
            _ => None,
        }),
{
    match status {
        CloudProjectStatus::Idle => (text_of(&chars_of("Idle")), false, None),
        CloudProjectStatus::Preparing => (text_of(&chars_of("Preparing\u{2026}")), true, None),
        CloudProjectStatus::Running { user_count } => {
            let mut v = chars_of("Running (");
            let n = dec_chars(*user_count as u64);
            append_chars(&mut v, &n);
            let close = chars_of(")");
            append_chars(&mut v, &close);
            (text_of(&v), false, None)
        },
        CloudProjectStatus::Error(e) => (text_of(&chars_of("Error")), false, Some(e.clone())),
    }
}

} // verus!
verus! {

/// The address line of a server's detail view: its URL, followed by
/// ` · v<version>` when the server is online and reports a version (neither
/// empty nor `?`).
pub open spec fn spec_server_address_line(url: Seq<char>, status: CloudServerStatus) -> Seq<char> {
    match status {
        CloudServerStatus::Online { version, .. } => if version@.len() > 0 && version@
            != "?"@ {
            url + " \u{00B7} v"@ + version@
        } else {
            url
        },
        _ => url,
    }
}

pub fn server_address_line(url: &str, status: &CloudServerStatus) -> (r: String)
    ensures
        r@ == spec_server_address_line(url@, *status),
{
    let mut v = chars_of(url);
    match status {
        CloudServerStatus::Online { version, .. } => {
            let w = chars_of(version.as_str());
            if w.len() > 0 && !crate::text::str_eq(version.as_str(), "?") {
                let sep = chars_of(" \u{00B7} v");
                append_chars(&mut v, &sep);
                append_chars(&mut v, &w);
            }
        },
        _ => {},
    }
    text_of(&v)
}

/// The subtitle of a cloud project card: `<description> · <owner>`, or the
/// owner alone when there is no description.
pub open spec fn spec_project_subtitle(description: Seq<char>, owner: Seq<char>) -> Seq<char> {
    if description.len() == 0 {
        owner
    } else {
        description + " \u{00B7} "@ + owner
    }
}

pub fn project_subtitle(description: &str, owner: &str) -> (r: String)
    ensures
        r@ == spec_project_subtitle(description@, owner@),
{
    let mut v = chars_of(description);
    if v.len() == 0 {
        return text_of(&chars_of(owner));
    }
    let sep = chars_of(" \u{00B7} ");
    append_chars(&mut v, &sep);
    let w = chars_of(owner);
    append_chars(&mut v, &w);
    text_of(&v)
}

} // verus!
