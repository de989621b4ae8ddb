//! Progress of a source build: folding the lines that `cargo build
//! --message-format=json` prints into the build overlay's state.

use vstd::prelude::*;
use crate::installer::{BuildProgress, log_view, push_log_locked, spec_pushed_lines};
use crate::text::{
    chars_of, concat_str, lemma_trim_end_take, starts_with, starts_with_exec, str_eq, string_of,
    sub_chars, trim, trim_chars, trim_end, trim_end_index,
};

verus! {

/// The fields of one JSON message of cargo that the overlay reads.
pub struct CargoMessage {
    /// `reason`, when it is a string.
    pub reason: Option<String>,
    /// `target.name`, when it is a string.
    pub target_name: Option<String>,
    /// `success`, when it is a boolean.
    pub success: Option<bool>,
    /// `message.rendered`, when it is a string.
    pub rendered: Option<String>,
    /// `message` written back as JSON text, when present.
    pub message: Option<String>,
}

pub struct CargoMessageView {
    pub reason: Option<Seq<char>>,
    pub target_name: Option<Seq<char>>,
    pub success: Option<bool>,
    pub rendered: Option<Seq<char>>,
    pub message: Option<Seq<char>>,
}

pub open spec fn text_view(o: Option<String>) -> Option<Seq<char>> {
    match o {
        Some(s) => Some(s@),
        None => None,
    }
}

impl View for CargoMessage {
    type V = CargoMessageView;

    open spec fn view(&self) -> CargoMessageView {
        CargoMessageView {
            reason: text_view(self.reason),
            target_name: text_view(self.target_name),
            success: self.success,
            rendered: text_view(self.rendered),
            message: text_view(self.message),
        }
    }
}

pub open spec fn message_view(m: Option<CargoMessage>) -> Option<CargoMessageView> {
    match m {
        Some(m) => Some(m@),
        None => None,
    }
}

/// The fields of `line` read as a JSON value by `serde_json`; `None` when
/// the line is not JSON.
pub uninterp spec fn cargo_json_fields(line: Seq<char>) -> Option<CargoMessageView>;

/// Parses `line` with `serde_json::from_str::<serde_json::Value>` and picks
/// the fields the overlay reads (`Value::get`, `as_str`, `as_bool`, and
/// `to_string` for the `message` value). Claimed: the result depends on the
/// line alone, named `cargo_json_fields`; JSON parsing itself is left unsaid.
#[verifier::external_body]
fn read_cargo_json(line: &str) -> (r: Option<CargoMessage>)
    ensures
        message_view(r) == cargo_json_fields(line@),
{
    let value = serde_json::from_str::<serde_json::Value>(line).ok()?;
    let text = |v: Option<&serde_json::Value>| v.and_then(|v| v.as_str()).map(|s| s.to_string());
    Some(CargoMessage {
        reason: text(value.get("reason")),
        target_name: text(value.get("target").and_then(|t| t.get("name"))),
        success: value.get("success").and_then(|s| s.as_bool()),
        rendered: text(value.get("message").and_then(|m| m.get("rendered"))),
        message: value.get("message").map(|m| m.to_string()),
    })
}

/// The number of entries of the top-level `packages` array of the JSON
/// document `json` (`cargo metadata` output) as `serde_json` reads it; `None`
/// when it is not JSON or has no such array.
pub uninterp spec fn metadata_package_count(json: Seq<u8>) -> Option<usize>;

/// Parses `json` with `serde_json::from_slice::<serde_json::Value>` and
/// counts the `packages` array (`Value::get`, `as_array`, `len`). Claimed:
/// the result depends on the bytes alone, named `metadata_package_count`;
/// JSON parsing itself is left unsaid.
#[verifier::external_body]
fn read_package_count(json: &[u8]) -> (r: Option<usize>)
    ensures
        r == metadata_package_count(json@),
{
    let value = serde_json::from_slice::<serde_json::Value>(json).ok()?;
    value.get("packages").and_then(|packages| packages.as_array()).map(|array| array.len())
}

/// How many crates a source build compiles, from the output of `cargo
/// metadata`: its package count when the command succeeded, else unknown.
pub fn src_crate_count(metadata_succeeded: bool, stdout: &[u8]) -> (r: Option<usize>)
    ensures
        r == if metadata_succeeded {
            metadata_package_count(stdout@)
        } else {
            None
        },
{
    if !metadata_succeeded {
        return None;
    }
    read_package_count(stdout)
}

/// What the overlay shows of a build.
pub struct BuildView {
    pub done: int,
    pub current: Seq<char>,
    pub logs: Seq<Seq<char>>,
    pub crates: Set<Seq<char>>,
    pub finished: bool,
    pub error: Option<Seq<char>>,
}

pub open spec fn build_view(p: BuildProgress) -> BuildView {
    BuildView {
        done: p.done as int,
        current: p.current@,
        logs: log_view(p.logs@),
        crates: p.crates@.dom(),
        finished: p.finished,
        error: text_view(p.error),
    }
}

pub open spec fn text_or(o: Option<Seq<char>>, default: Seq<char>) -> Seq<char> {
    match o {
        Some(t) => t,
        None => default,
    }
}

/// The newest log line, or `default` when there is none.
pub open spec fn last_line_or(logs: Seq<Seq<char>>, default: Seq<char>) -> Seq<char> {
    if logs.len() > 0 {
        logs.last()
    } else {
        default
    }
}

/// The build after one JSON line of cargo (already trimmed, not empty):
/// a finished crate is counted once and logged, the end of the build is
/// recorded with its outcome, diagnostics and other messages are logged,
/// and a line that is no JSON is logged as it is.
pub open spec fn spec_json_step(s: BuildView, line: Seq<char>, msg: Option<CargoMessageView>) -> BuildView {
    match msg {
        None => BuildView { logs: spec_pushed_lines(s.logs, line), ..s },
        Some(m) => {
            let reason = text_or(m.reason, Seq::empty());
            if reason == "compiler-artifact"@ {
                let name = text_or(m.target_name, "crate"@);
                BuildView {
                    done: if s.crates.contains(name) {
                        s.done
                    } else {
                        s.done + 1
                    },
                    crates: s.crates.insert(name),
                    current: "Compiling "@ + name,
                    logs: spec_pushed_lines(s.logs, "Compiled "@ + name),
                    ..s
                }
            } else if reason == "build-finished"@ {
                let success = m.success == Some(true);
                BuildView {
                    finished: true,
                    error: if success {
                        s.error
                    } else {
                        Some(last_line_or(s.logs, "cargo build failed"@))
                    },
                    current: if success {
                        "Done"@
                    } else {
                        "Build failed"@
                    },
                    ..s
                }
            } else if reason == "compiler-message"@ {
                match m.rendered {
                    Some(r) => BuildView { logs: spec_pushed_lines(s.logs, trim_end(r)), ..s },
                    None => s,
                }
            } else if reason == "build-script-executed"@ || reason == "build-plan"@ {
                s
            } else {
                match m.message {
                    Some(t) => BuildView { logs: spec_pushed_lines(s.logs, t), ..s },
                    None => s,
                }
            }
        },
    }
}

fn lit(s: &str) -> (r: String)
    ensures
        r@ == s@,
{
    let v = chars_of(s);
    string_of(v.as_slice())
}

fn trim_end_string(s: &str) -> (r: String)
    ensures
        r@ == trim_end(s@),
{
    let v = chars_of(s);
    proof {
        lemma_trim_end_take(v@);
    }
    let i = trim_end_index(&v);
    let t = sub_chars(&v, 0, i);
    assert(t@ =~= trim_end(v@));
    string_of(t.as_slice())
}

/// Folds one trimmed, non-empty JSON line of cargo, already read into its
/// fields (`None` when it is no JSON), into the build's progress.
pub fn apply_cargo_message(p: &mut BuildProgress, line: String, msg: Option<CargoMessage>)
    requires
        old(p).done < usize::MAX,
    ensures
        build_view(*final(p)) == spec_json_step(build_view(*old(p)), line@, message_view(msg)),
        final(p).total == old(p).total,
{
    let ghost s = build_view(*p);
    match msg {
        None => {
            push_log_locked(p, line);
        },
        Some(m) => {
            let reason = match m.reason {
                Some(r) => r,
                None => String::new(),
            };
            if str_eq(reason.as_str(), "compiler-artifact") {
                let name = match m.target_name {
                    Some(n) => n,
                    None => lit("crate"),
                };
                if p.crates.get(name.as_str()).is_none() {
                    p.done = p.done + 1;
                }
                p.crates.insert(name.clone(), ());
                assert(p.crates@.dom() =~= s.crates.insert(name@));
                p.current = concat_str("Compiling ", name.as_str());
                push_log_locked(p, concat_str("Compiled ", name.as_str()));
            } else if str_eq(reason.as_str(), "build-finished") {
                let success = match m.success {
                    Some(b) => b,
                    None => false,
                };
                p.finished = true;
                if !success {
                    let n = p.logs.len();
                    p.error = Some(
                        if n > 0 {
                            assert(log_view(p.logs@)[n - 1] == p.logs@[n - 1]@);
                            p.logs[n - 1].clone()
                        } else {
                            lit("cargo build failed")
                        },
                    );
                }
                p.current = if success {
                    lit("Done")
                } else {
                    lit("Build failed")
                };
            } else if str_eq(reason.as_str(), "compiler-message") {
                match m.rendered {
                    Some(r) => {
                        let t = trim_end_string(r.as_str());
                        push_log_locked(p, t);
                    },
                    None => {},
                }
            } else if str_eq(reason.as_str(), "build-script-executed") || str_eq(
                reason.as_str(),
                "build-plan",
            ) {
            } else {
                match m.message {
                    Some(t) => {
                        push_log_locked(p, t);
                    },
                    None => {},
                }
            }
        },
    }
    assert(build_view(*p) =~= spec_json_step(s, line@, message_view(msg)));
}

/// Folds one line of cargo's JSON output into the build's progress; blank
/// lines change nothing.
pub fn apply_cargo_json_line(p: &mut BuildProgress, line: &str)
    requires
        old(p).done < usize::MAX,
    ensures
        trim(line@).len() == 0 ==> *final(p) == *old(p),
        trim(line@).len() > 0 ==> build_view(*final(p)) == spec_json_step(
            build_view(*old(p)),
            trim(line@),
            cargo_json_fields(trim(line@)),
        ),
{
    let v = chars_of(line);
    let t = trim_chars(&v);
    if t.len() == 0 {
        return;
    }
    let trimmed = string_of(t.as_slice());
    let msg = read_cargo_json(trimmed.as_str());
    apply_cargo_message(p, trimmed, msg);
}

/// The build after one line of cargo's human-readable output: the trimmed
/// line is logged, and shown as the current activity unless a crate is
/// being compiled.
pub open spec fn spec_text_step(s: BuildView, line: Seq<char>) -> BuildView {
    let t = trim(line);
    if t.len() == 0 {
        s
    } else {
        BuildView {
            current: if s.current.len() == 0 || !starts_with(s.current, "Compiling"@) {
                t
            } else {
                s.current
            },
            logs: spec_pushed_lines(s.logs, t),
            ..s
        }
    }
}

/// Folds one line of cargo's human-readable output into the progress.
pub fn apply_cargo_text_line(p: &mut BuildProgress, line: &str)
    ensures
        build_view(*final(p)) == spec_text_step(build_view(*old(p)), line@),
        final(p).total == old(p).total,
{
    let ghost s = build_view(*p);
    let v = chars_of(line);
    let t = trim_chars(&v);
    if t.len() == 0 {
        return;
    }
    let trimmed = string_of(t.as_slice());
    let cur = chars_of(p.current.as_str());
    let compiling = chars_of("Compiling");
    if cur.len() == 0 || !starts_with_exec(&cur, &compiling) {
        p.current = trimmed.clone();
    }
    push_log_locked(p, trimmed);
    assert(build_view(*p) =~= spec_text_step(s, line@));
}

/// The error reported when cargo exits unsuccessfully: the recorded error,
/// else the newest log line, else a generic message.
pub fn build_failure_message(p: &BuildProgress) -> (r: String)
    ensures
        r@ == (match p.error {
            Some(e) => e@,
            None => last_line_or(log_view(p.logs@), "cargo build failed"@),
        }),
{
    match &p.error {
        Some(e) => e.clone(),
        None => {
            let n = p.logs.len();
            if n > 0 {
                assert(log_view(p.logs@)[n - 1] == p.logs@[n - 1]@);
                p.logs[n - 1].clone()
            } else {
                lit("cargo build failed")
            }
        },
    }
}

} // verus!
