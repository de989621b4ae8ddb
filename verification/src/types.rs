//! Shared data types of the hub: prompts, progress records, cloud and plugin
//! descriptions, and the download list with its human-readable sizes.

use vstd::prelude::*;
use crate::text::{append_chars, chars_of, concat_str, dec, dec_chars, digit, digit_char, string_of};

verus! {

/// `2^53`: below it every integer is exactly an `f64`.
pub open spec fn pow53() -> nat {
    0x20_0000_0000_0000
}

/// `n / d` rounded to the nearest integer, ties to the even one.
pub open spec fn round_half_even(n: nat, d: nat) -> nat
    recommends
        d > 0,
{
    let q = n / d;
    let r = n % d;
    if 2 * r > d {
        q + 1
    } else if 2 * r < d {
        q
    } else if q % 2 == 1 {
        q + 1
    } else {
        q
    }
}

/// The power of two `d` (at most `fuel` doublings from the start) from which
/// on `b / d` has fewer than 53 bits.
pub open spec fn f64_scale(b: nat, d: nat, fuel: nat) -> nat
    decreases fuel,
{
    if fuel == 0 || b / d < pow53() || d > b {
        d
    } else {
        f64_scale(b, 2 * d, (fuel - 1) as nat)
    }
}

/// The value of `b as f64` for a `u64` `b`: `b` rounded to 53 significant
/// bits, ties to even.
pub open spec fn f64_of(b: nat) -> nat {
    let d = f64_scale(b, 1, 64);
    round_half_even(b, d) * d
}

/// Tenths of `b as f64 / unit as f64`, rounded the way `{:.1}` rounds the
/// (exact) quotient: to nearest, ties to even.
pub open spec fn tenths(b: nat, unit: nat) -> nat {
    round_half_even(10 * f64_of(b), unit)
}

/// `"<int>.<digit> <suffix>"` for a count of tenths.
pub open spec fn one_decimal(t: nat, suffix: Seq<char>) -> Seq<char> {
    dec(t / 10) + seq!['.', digit_char((t % 10) as int), ' '] + suffix
}

pub open spec fn kib() -> nat {
    1024
}

/// Human-readable size: bytes below 1 KB, otherwise the largest of KB, MB,
/// GB, TB, PB (powers of 1024) that fits, with one decimal.
pub open spec fn spec_format_bytes(bytes: nat) -> Seq<char> {
    let kb = kib();
    let mb = 1024 * kb;
    let gb = 1024 * mb;
    let tb = 1024 * gb;
    let pb = 1024 * tb;
    if bytes >= pb {
        one_decimal(tenths(bytes, pb), seq!['P', 'B'])
    } else if bytes >= tb {
        one_decimal(tenths(bytes, tb), seq!['T', 'B'])
    } else if bytes >= gb {
        one_decimal(tenths(bytes, gb), seq!['G', 'B'])
    } else if bytes >= mb {
        one_decimal(tenths(bytes, mb), seq!['M', 'B'])
    } else if bytes >= kb {
        one_decimal(tenths(bytes, kb), seq!['K', 'B'])
    } else {
        dec(bytes) + seq![' ', 'B']
    }
}

pub(crate) fn round_half_even_exec(n: u128, d: u128) -> (r: u128)
    requires
        d > 0,
        n / d < u128::MAX,
    ensures
        r == round_half_even(n as nat, d as nat),
{
    let q = n / d;
    let r = n % d;
    if r > d - r {
        q + 1
    } else if r < d - r {
        q
    } else if q % 2 == 1 {
        q + 1
    } else {
        q
    }
}

fn f64_of_exec(b: u64) -> (r: u128)
    ensures
        r == f64_of(b as nat),
        r <= 0x2_0000_0000_0000_0000u128,
{
    let bb = b as u128;
    let mut d: u128 = 1;
    let mut fuel: u64 = 64;
    while fuel > 0 && bb / d >= 0x20_0000_0000_0000u128 && d <= bb
        invariant
            1 <= d <= 0x2_0000_0000_0000_0000u128,
            bb == b as u128,
            f64_scale(b as nat, d as nat, fuel as nat) == f64_scale(b as nat, 1, 64),
        decreases fuel,
    {
        assert(f64_scale(b as nat, d as nat, fuel as nat) == f64_scale(
            b as nat,
            (2 * d) as nat,
            (fuel - 1) as nat,
        ));
        d = d * 2;
        fuel = fuel - 1;
    }
    let m = round_half_even_exec(bb, d);
    proof {
        vstd::arithmetic::div_mod::lemma_fundamental_div_mod(bb as int, d as int);
        let q = (bb / d) as int;
        assert(m <= q + 1);
        assert(m * d <= q * d + d) by (nonlinear_arith)
            requires
                m <= q + 1,
                d >= 1,
        ;
        assert(q * d == d * q) by (nonlinear_arith);
    }
    m * d
}

fn one_decimal_chars(t: u128, suffix: &Vec<char>) -> (v: Vec<char>)
    requires
        t / 10 <= u64::MAX,
    ensures
        v@ == one_decimal(t as nat, suffix@),
{
    let whole = (t / 10) as u64;
    let frac = (t % 10) as u64;
    let mut v = dec_chars(whole);
    v.push('.');
    v.push(digit(frac));
    v.push(' ');
    append_chars(&mut v, suffix);
    assert(v@ =~= one_decimal(t as nat, suffix@));
    v
}

/// Human-readable byte count, e.g. `"512 B"`, `"1.5 KB"`, `"2.0 GB"`.
pub fn format_bytes(bytes: u64) -> (s: String)
    ensures
        s@ == spec_format_bytes(bytes as nat),
{
    let kb: u128 = 1024;
    let mb: u128 = 1024 * kb;
    let gb: u128 = 1024 * mb;
    let tb: u128 = 1024 * gb;
    let pb: u128 = 1024 * tb;
    let b = bytes as u128;
    let f = f64_of_exec(bytes);
    let v = if b >= pb {
        let t = round_half_even_exec(10 * f, pb);
        let u = vec!['P', 'B'];
        assert(u@ =~= seq!['P', 'B']);
        one_decimal_chars(t, &u)
    } else if b >= tb {
        let t = round_half_even_exec(10 * f, tb);
        let u = vec!['T', 'B'];
        assert(u@ =~= seq!['T', 'B']);
        one_decimal_chars(t, &u)
    } else if b >= gb {
        let t = round_half_even_exec(10 * f, gb);
        let u = vec!['G', 'B'];
        assert(u@ =~= seq!['G', 'B']);
        one_decimal_chars(t, &u)
    } else if b >= mb {
        let t = round_half_even_exec(10 * f, mb);
        let u = vec!['M', 'B'];
        assert(u@ =~= seq!['M', 'B']);
        one_decimal_chars(t, &u)
    } else if b >= kb {
        let t = round_half_even_exec(10 * f, kb);
        let u = vec!['K', 'B'];
        assert(u@ =~= seq!['K', 'B']);
        one_decimal_chars(t, &u)
    } else {
        let mut v = dec_chars(bytes);
        v.push(' ');
        v.push('B');
        assert(v@ =~= dec(bytes as nat) + seq![' ', 'B']);
        v
    };
    string_of(v.as_slice())
}

} // verus!

verus! {

// ── Engine release notes modal ─────────────────────────────────────────────

/// A full-screen modal showing a particular engine version's release notes.
#[derive(Clone, Debug)]
pub struct ReleaseNotesModal {
    pub title: String,
    pub body: String,
}

/// A pending prompt asking the user whether to auto-install a missing engine
/// that a project requires.
#[derive(Clone, Debug)]
pub struct EnginePrompt {
    pub project_name: String,
    pub project_path: String,
    pub required: String,
}

#[derive(Clone, Copy, PartialEq, Eq, Debug)]
pub enum EntryScreenView {
    Recent,
    Templates,
    NewProject,
    CloneGit,
    Versions,
    CloudProjects,
    Friends,
}

#[derive(Clone, Debug)]
pub struct CloneProgress {
    pub current: usize,
    pub total: usize,
    pub message: String,
    pub completed: bool,
    pub error: Option<String>,
    pub cancelled: bool,
}

// ── Cloud projects ─────────────────────────────────────────────────────────

#[derive(Clone, Debug, PartialEq)]
pub enum CloudServerStatus {
    Unknown,
    Connecting,
    Online { latency_ms: u32, version: String, active_users: u32, active_projects: u32 },
    Offline,
    Unauthorized,
}

impl Default for CloudServerStatus {
    fn default() -> (r: Self)
        ensures
            r is Unknown,
    {
        CloudServerStatus::Unknown
    }
}

#[derive(Clone, Debug, PartialEq)]
pub enum CloudProjectStatus {
    Idle,
    Preparing,
    Running { user_count: u32 },
    Error(String),
}

#[derive(Clone, Debug)]
pub struct CloudProject {
    pub id: String,
    pub name: String,
    pub description: String,
    pub status: CloudProjectStatus,
    pub last_modified: String,
    pub size_bytes: u64,
    pub owner: String,
    /// The default/root environment ID on the Studio server, if one exists.
    pub environment_id: Option<String>,
}

#[derive(Clone, Debug)]
pub struct CloudServer {
    pub id: String,
    pub alias: String,
    pub url: String,
    pub auth_token: String,
    pub username: String,
    pub status: CloudServerStatus,
    pub projects: Vec<CloudProject>,
}

impl Default for CloudServer {
    fn default() -> (r: Self)
        ensures
            r.id@.len() == 0,
            r.alias@.len() == 0,
            r.url@.len() == 0,
            r.auth_token@.len() == 0,
            r.username@.len() == 0,
            r.status is Unknown,
            r.projects@.len() == 0,
    {
        Self {
            id: String::new(),
            alias: String::new(),
            url: String::new(),
            auth_token: String::new(),
            username: String::new(),
            status: CloudServerStatus::Unknown,
            projects: Vec::new(),
        }
    }
}

// ── Dependencies and plugins ───────────────────────────────────────────────

#[derive(Clone, Debug)]
pub struct DependencyStatus {
    pub rust_installed: bool,
    pub build_tools_installed: bool,
    pub compiler_info: Option<String>,
}

#[derive(Clone, Debug, PartialEq)]
pub enum InstallStatus {
    Idle,
    Downloading,
    Installing,
    Complete,
    Error(String),
}

#[derive(Clone, Debug)]
pub struct PluginRegistry {
    pub name: String,
    pub url: String,
}

#[derive(Clone, Debug)]
pub struct RegistryPlugin {
    pub name: String,
    pub description: String,
    pub repo_url: String,
    pub author: String,
    pub tags: Vec<String>,
    pub registry_url: String,
}

#[derive(Clone, Debug)]
pub enum PluginInstallMethod {
    BinaryDownload,
    BuiltFromSource,
}

#[derive(Clone, Debug)]
pub struct InstalledPlugin {
    pub name: String,
    pub repo_url: String,
    pub version: String,
    pub installed_at: String,
    pub install_method: PluginInstallMethod,
    pub library_path: String,
}

#[derive(Clone, Copy, PartialEq, Eq, Debug)]
pub enum OnboardingTab {
    Theme,
    Plugins,
}

impl Default for OnboardingTab {
    fn default() -> (r: Self)
        ensures
            r == OnboardingTab::Theme,
    {
        OnboardingTab::Theme
    }
}

#[derive(Clone, Debug)]
pub struct PendingInvite {
    pub from_username: String,
    pub from_home_server: Option<String>,
    pub message: String,
    pub notification_id: String,
}

#[derive(Clone, Debug)]
pub struct VersionRemoveRequested {
    pub version: String,
}

#[derive(Clone, Debug)]
pub struct VersionInstallRequested {
    pub version: String,
}

// ── Download manager ──────────────────────────────────────────────────────

#[verifier::external_type_specification]
#[verifier::external_body]
pub struct ExInstant(std::time::Instant);

/// `Instant::clone`: `Instant` is `Copy`, so the clone is the same instant.
pub assume_specification[ <std::time::Instant as Clone>::clone ](
    instant: &std::time::Instant,
) -> (r: std::time::Instant)
    ensures
        r == *instant,
;

#[derive(Clone, Debug, PartialEq)]
pub enum DownloadKind {
    EngineVersion { version: String },
    TemplateClone { name: String },
}

#[derive(Clone, Debug, PartialEq)]
pub enum DownloadStatus {
    Downloading { bytes_downloaded: u64, total_bytes: u64, speed_bps: u64 },
    Complete,
    Failed(String),
}

#[derive(Clone, Debug)]
pub struct DownloadItem {
    pub id: String,
    pub kind: DownloadKind,
    pub status: DownloadStatus,
    pub started_at: std::time::Instant,
}

pub open spec fn spec_label(kind: DownloadKind) -> Seq<char> {
    match kind {
        DownloadKind::EngineVersion { version } => "Engine v"@ + version@,
        DownloadKind::TemplateClone { name } => "Template: "@ + name@,
    }
}

pub open spec fn spec_downloaded_display(status: DownloadStatus) -> Seq<char> {
    match status {
        DownloadStatus::Downloading { bytes_downloaded, total_bytes, .. } => spec_format_bytes(
            bytes_downloaded as nat,
        ) + " / "@ + spec_format_bytes(total_bytes as nat),
        DownloadStatus::Complete => "Complete"@,
        DownloadStatus::Failed(e) => e@,
    }
}

pub open spec fn spec_speed_display(status: DownloadStatus) -> Seq<char> {
    match status {
        DownloadStatus::Downloading { speed_bps, .. } => if speed_bps > 0 {
            spec_format_bytes(speed_bps as nat) + "/s"@
        } else {
            Seq::empty()
        },
        _ => Seq::empty(),
    }
}

impl DownloadItem {
    pub fn label(&self) -> (r: String)
        ensures
            r@ == spec_label(self.kind),
    {
        match &self.kind {
            DownloadKind::EngineVersion { version } => concat_str("Engine v", version.as_str()),
            DownloadKind::TemplateClone { name } => concat_str("Template: ", name.as_str()),
        }
    }

    /// `"<downloaded> / <total>"` while downloading, else the final state.
    pub fn downloaded_display(&self) -> (r: String)
        ensures
            r@ == spec_downloaded_display(self.status),
    {
        match &self.status {
            DownloadStatus::Downloading { bytes_downloaded, total_bytes, .. } => {
                let a = format_bytes(*bytes_downloaded);
                let b = concat_str(a.as_str(), " / ");
                let c = format_bytes(*total_bytes);
                concat_str(b.as_str(), c.as_str())
            },
            DownloadStatus::Complete => {
                let v = chars_of("Complete");
                string_of(v.as_slice())
            },
            DownloadStatus::Failed(e) => e.clone(),
        }
    }

    /// `"<speed>/s"` while downloading at a known speed, else empty.
    pub fn speed_display(&self) -> (r: String)
        ensures
            r@ == spec_speed_display(self.status),
    {
        match &self.status {
            DownloadStatus::Downloading { speed_bps, .. } => {
                if *speed_bps > 0 {
                    let a = format_bytes(*speed_bps);
                    concat_str(a.as_str(), "/s")
                } else {
                    String::new()
                }
            },
            _ => String::new(),
        }
    }
}

} // verus!
