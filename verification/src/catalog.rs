//! The engine-version screen's decisions: which release sources the
//! selected channels need, how a fetched page joins a source, which releases
//! are listed, which installed engine a project launches with, and which
//! release installs an engine a project asks for.

use vstd::prelude::*;
use crate::installer::{
    ChannelSource, GitHubAsset, GitHubRelease, InstalledVersion, ReleaseChannel,
    any_installed_satisfies, keyed, lemma_sorted_values_map, release_keys, sort_desc,
    sort_releases_newest_first, spec_includes, values_of,
};
use crate::platform::{
    PlatformInfo, find_platform_asset, lowered_asset_names, lowered_candidates, spec_select_asset,
};
use crate::text::{eq_ci, starts_with_ci, str_eq};
use crate::version::{
    installed_satisfies, nightly, parse_version, required_min_version, spec_installed_satisfies,
    spec_parse_version, spec_required_min_version, src_name, version_ge, version_ge_exec,
};

verus! {

/// Releases listed per page by the GitHub releases API.
pub const RELEASES_PER_PAGE: u32 = 30;

/// The repository publishing a channel's releases.
pub open spec fn repo_of(c: ReleaseChannel) -> Seq<char> {
    match c {
        ReleaseChannel::Nightly => "Far-Beyond-Pulsar/Nightly"@,
        _ => "Far-Beyond-Pulsar/Pulsar-Native"@,
    }
}

/// The repositories of `channels`, each once, in order of first need.
pub open spec fn spec_needed_repos(channels: Seq<ReleaseChannel>) -> Seq<Seq<char>>
    decreases channels.len(),
{
    if channels.len() == 0 {
        Seq::empty()
    } else {
        let earlier = spec_needed_repos(channels.drop_last());
        let r = repo_of(channels.last());
        if earlier.contains(r) {
            earlier
        } else {
            earlier.push(r)
        }
    }
}

pub open spec fn str_views(v: Seq<&'static str>) -> Seq<Seq<char>> {
    v.map_values(|s: &'static str| s@)
}

fn contains_str(v: &Vec<&'static str>, s: &str) -> (r: bool)
    ensures
        r == str_views(v@).contains(s@),
{
    let mut i: usize = 0;
    while i < v.len()
        invariant
            i <= v@.len(),
            forall|j: int| 0 <= j < i ==> #[trigger] str_views(v@)[j] != s@,
        decreases v@.len() - i,
    {
        if str_eq(v[i], s) {
            assert(str_views(v@)[i as int] == s@);
            return true;
        }
        i = i + 1;
    }
    false
}

/// The repositories backing the selected channels.
pub fn needed_repos(selected: &Vec<ReleaseChannel>) -> (r: Vec<&'static str>)
    ensures
        str_views(r@) == spec_needed_repos(selected@),
{
    let mut out: Vec<&'static str> = Vec::new();
    let mut i: usize = 0;
    assert(selected@.take(0) =~= Seq::<ReleaseChannel>::empty());
    assert(str_views(out@) =~= Seq::<Seq<char>>::empty());
    while i < selected.len()
        invariant
            i <= selected@.len(),
            str_views(out@) == spec_needed_repos(selected@.take(i as int)),
        decreases selected@.len() - i,
    {
        assert(selected@.take(i + 1).drop_last() =~= selected@.take(i as int));
        let repo = selected[i].repo();
        if !contains_str(&out, repo) {
            let ghost before = str_views(out@);
            out.push(repo);
            assert(str_views(out@) =~= before.push(repo@));
        }
        i = i + 1;
    }
    assert(selected@.take(i as int) =~= selected@);
    out
}

/// The selected channels after turning `channel` on (appended when absent)
/// or off (every occurrence removed).
pub open spec fn spec_toggled(
    selected: Seq<ReleaseChannel>,
    channel: ReleaseChannel,
    on: bool,
) -> Seq<ReleaseChannel> {
    if on {
        if selected.contains(channel) {
            selected
        } else {
            selected.push(channel)
        }
    } else {
        selected.filter(other_than(channel))
    }
}

pub open spec fn other_than(channel: ReleaseChannel) -> spec_fn(ReleaseChannel) -> bool {
    |c: ReleaseChannel| c != channel
}

/// Turns a release channel on or off.
pub fn toggle_channel(selected: &mut Vec<ReleaseChannel>, channel: ReleaseChannel, on: bool)
    ensures
        final(selected)@ == spec_toggled(old(selected)@, channel, on),
{
    let ghost orig = selected@;
    if on {
        let mut i: usize = 0;
        while i < selected.len()
            invariant
                on,
                i <= selected@.len(),
                selected@ == orig,
                forall|j: int| 0 <= j < i ==> #[trigger] selected@[j] != channel,
            decreases selected@.len() - i,
        {
            if selected[i] == channel {
                assert(orig[i as int] == channel);
                return;
            }
            i = i + 1;
        }
        assert(!orig.contains(channel));
        selected.push(channel);
    } else {
        let mut kept: Vec<ReleaseChannel> = Vec::new();
        let mut i: usize = 0;
        while i < selected.len()
            invariant
                !on,
                i <= selected@.len(),
                selected@ == orig,
                kept@ == orig.take(i as int).filter(other_than(channel)),
            decreases selected@.len() - i,
        {
            proof {
                crate::text::lemma_filter_push(
                    orig.take(i as int),
                    orig[i as int],
                    other_than(channel),
                );
                assert(orig.take(i + 1) =~= orig.take(i as int).push(orig[i as int]));
            }
            if selected[i] != channel {
                kept.push(selected[i]);
            }
            i = i + 1;
        }
        assert(orig.take(i as int) =~= orig);
        *selected = kept;
    }
}

/// Whether some source backing a selected channel has more pages.
pub open spec fn spec_has_more(sources: Seq<ChannelSource>, needed: Seq<Seq<char>>) -> bool {
    exists|i: int|
        0 <= i < sources.len() && needed.contains(#[trigger] sources[i].repo@)
            && sources[i].has_more
}

pub fn recompute_has_more(sources: &Vec<ChannelSource>, needed: &Vec<&'static str>) -> (r: bool)
    ensures
        r == spec_has_more(sources@, str_views(needed@)),
{
    let mut i: usize = 0;
    while i < sources.len()
        invariant
            i <= sources@.len(),
            forall|j: int|
                0 <= j < i ==> !(str_views(needed@).contains(#[trigger] sources@[j].repo@)
                    && sources@[j].has_more),
        decreases sources@.len() - i,
    {
        if sources[i].has_more && contains_str(needed, sources[i].repo) {
            return true;
        }
        i = i + 1;
    }
    false
}

/// The sources to ask for their next page: those backing a selected channel
/// that have more, each with the page number after its last.
pub open spec fn spec_load_more_targets(
    sources: Seq<ChannelSource>,
    needed: Seq<Seq<char>>,
) -> Seq<(Seq<char>, int)>
    decreases sources.len(),
{
    if sources.len() == 0 {
        Seq::empty()
    } else {
        let earlier = spec_load_more_targets(sources.drop_last(), needed);
        let s = sources.last();
        if needed.contains(s.repo@) && s.has_more {
            earlier.push((s.repo@, s.page + 1))
        } else {
            earlier
        }
    }
}

pub open spec fn target_views(v: Seq<(&'static str, u32)>) -> Seq<(Seq<char>, int)> {
    v.map_values(|t: (&'static str, u32)| (t.0@, t.1 as int))
}

pub fn load_more_targets(sources: &Vec<ChannelSource>, needed: &Vec<&'static str>) -> (r: Vec<
    (&'static str, u32),
>)
    requires
        forall|i: int| 0 <= i < sources@.len() ==> #[trigger] sources@[i].page < u32::MAX,
    ensures
        target_views(r@) == spec_load_more_targets(sources@, str_views(needed@)),
{
    let mut out: Vec<(&'static str, u32)> = Vec::new();
    let mut i: usize = 0;
    assert(sources@.take(0) =~= Seq::<ChannelSource>::empty());
    assert(target_views(out@) =~= Seq::<(Seq<char>, int)>::empty());
    while i < sources.len()
        invariant
            i <= sources@.len(),
            forall|k: int| 0 <= k < sources@.len() ==> #[trigger] sources@[k].page < u32::MAX,
            target_views(out@) == spec_load_more_targets(
                sources@.take(i as int),
                str_views(needed@),
            ),
        decreases sources@.len() - i,
    {
        assert(sources@.take(i + 1).drop_last() =~= sources@.take(i as int));
        assert(sources@.take(i + 1).last() == sources@[i as int]);
        if sources[i].has_more && contains_str(needed, sources[i].repo) {
            let ghost before = target_views(out@);
            out.push((sources[i].repo, sources[i].page + 1));
            assert(target_views(out@) =~= before.push(
                (sources@[i as int].repo@, sources@[i as int].page + 1),
            ));
        }
        i = i + 1;
    }
    assert(sources@.take(i as int) =~= sources@);
    out
}

/// The sources never fetched that a newly selected channel needs: backing a
/// selected channel, on page 0, with nothing fetched and not loading.
pub open spec fn spec_sources_to_fetch(
    sources: Seq<ChannelSource>,
    needed: Seq<Seq<char>>,
) -> Seq<Seq<char>>
    decreases sources.len(),
{
    if sources.len() == 0 {
        Seq::empty()
    } else {
        let earlier = spec_sources_to_fetch(sources.drop_last(), needed);
        let s = sources.last();
        if needed.contains(s.repo@) && s.page == 0 && s.fetched@.len() == 0 && !s.loading {
            earlier.push(s.repo@)
        } else {
            earlier
        }
    }
}

pub fn sources_to_fetch(sources: &Vec<ChannelSource>, needed: &Vec<&'static str>) -> (r: Vec<
    &'static str,
>)
    ensures
        str_views(r@) == spec_sources_to_fetch(sources@, str_views(needed@)),
{
    let mut out: Vec<&'static str> = Vec::new();
    let mut i: usize = 0;
    assert(sources@.take(0) =~= Seq::<ChannelSource>::empty());
    assert(str_views(out@) =~= Seq::<Seq<char>>::empty());
    while i < sources.len()
        invariant
            i <= sources@.len(),
            str_views(out@) == spec_sources_to_fetch(sources@.take(i as int), str_views(needed@)),
        decreases sources@.len() - i,
    {
        assert(sources@.take(i + 1).drop_last() =~= sources@.take(i as int));
        assert(sources@.take(i + 1).last() == sources@[i as int]);
        let s = &sources[i];
        if s.page == 0 && s.fetched.len() == 0 && !s.loading && contains_str(needed, s.repo) {
            let ghost before = str_views(out@);
            out.push(s.repo);
            assert(str_views(out@) =~= before.push(s.repo@));
        }
        i = i + 1;
    }
    assert(sources@.take(i as int) =~= sources@);
    out
}


/// The tags of releases.
pub open spec fn release_tags(rs: Seq<GitHubRelease>) -> Seq<Seq<char>> {
    rs.map_values(|r: GitHubRelease| r.tag_name@)
}

/// `fetched` followed by the releases of `list` whose tags it does not hold
/// yet (the first of equal tags wins).
pub open spec fn spec_merged(fetched: Seq<GitHubRelease>, list: Seq<GitHubRelease>) -> Seq<
    GitHubRelease,
>
    decreases list.len(),
{
    if list.len() == 0 {
        fetched
    } else {
        let earlier = spec_merged(fetched, list.drop_last());
        let r = list.last();
        if release_tags(earlier).contains(r.tag_name@) {
            earlier
        } else {
            earlier.push(r)
        }
    }
}

fn contains_tag(v: &Vec<GitHubRelease>, tag: &str) -> (r: bool)
    ensures
        r == release_tags(v@).contains(tag@),
{
    let mut i: usize = 0;
    while i < v.len()
        invariant
            i <= v@.len(),
            forall|j: int| 0 <= j < i ==> #[trigger] release_tags(v@)[j] != tag@,
        decreases v@.len() - i,
    {
        assert(release_tags(v@)[i as int] == v@[i as int].tag_name@);
        if str_eq(v[i].tag_name.as_str(), tag) {
            return true;
        }
        i = i + 1;
    }
    false
}

/// Joins the reply for page `page` of a source: on success the new releases
/// are appended (tags already held are skipped), the page is recorded and
/// more pages are expected when the page was full; on failure the error is
/// kept. Either way the source is no longer loading.
pub fn apply_page_result(
    src: &mut ChannelSource,
    page: u32,
    result: Result<Vec<GitHubRelease>, String>,
)
    ensures
        final(src).repo == old(src).repo,
        !final(src).loading,
        (match result {
            Ok(list) => {
                &&& final(src).fetched@ == spec_merged(old(src).fetched@, list@)
                &&& final(src).page == page
                &&& final(src).has_more == (list@.len() == RELEASES_PER_PAGE)
                &&& final(src).error == old(src).error
            },
            Err(e) => {
                &&& final(src).fetched@ == old(src).fetched@
                &&& final(src).page == old(src).page
                &&& final(src).has_more == old(src).has_more
                &&& final(src).error == Some(e)
            },
        }),
{
    match result {
        Ok(list) => {
            let has_more = list.len() == 30;
            let ghost all = list@;
            let ghost start = src.fetched@;
            let mut rest = list;
            let mut i: usize = 0;
            assert(all.take(0) =~= Seq::<GitHubRelease>::empty());
            while rest.len() > 0
                invariant
                    all == all.take(i as int) + rest@,
                    i + rest@.len() == all.len(),
                    all.len() <= usize::MAX,
                    src.repo == old(src).repo,
                    src.error == old(src).error,
                    src.fetched@ == spec_merged(start, all.take(i as int)),
                decreases rest@.len(),
            {
                let r = rest.remove(0);
                proof {
                    assert(all[i as int] == r);
                    assert(all.take(i + 1).drop_last() =~= all.take(i as int));
                    assert(all.take(i + 1).last() == r);
                    assert(all.take(i + 1) + rest@ =~= all);
                }
                if !contains_tag(&src.fetched, r.tag_name.as_str()) {
                    src.fetched.push(r);
                }
                i = i + 1;
            }
            assert(all.take(i as int) =~= all);
            src.page = page;
            src.has_more = has_more;
            src.loading = false;
        },
        Err(e) => {
            src.error = Some(e);
            src.loading = false;
        },
    }
}


/// `a` is at least `b` in the order of `Option<(u64, u64, u64)>`: `None`
/// below every version, versions compared component by component.
pub open spec fn opt_version_ge(a: Option<(u64, u64, u64)>, b: Option<(u64, u64, u64)>) -> bool {
    match (a, b) {
        (_, None) => true,
        (None, Some(_)) => false,
        (Some(x), Some(y)) => version_ge(x, y),
    }
}

fn opt_version_ge_exec(a: Option<(u64, u64, u64)>, b: Option<(u64, u64, u64)>) -> (r: bool)
    ensures
        r == opt_version_ge(a, b),
{
    match (a, b) {
        (_, None) => true,
        (None, Some(_)) => false,
        (Some(x), Some(y)) => version_ge_exec(x, y),
    }
}

/// Index of the newest installed engine satisfying `required`: the greatest
/// parsed version among those that satisfy it, the last one on ties.
pub open spec fn best_installed(installed: Seq<InstalledVersion>, required: Seq<char>) -> Option<int>
    decreases installed.len(),
{
    if installed.len() == 0 {
        None
    } else {
        let earlier = best_installed(installed.drop_last(), required);
        let i = installed.len() - 1;
        if spec_installed_satisfies(installed[i].metadata.version@, required) {
            match earlier {
                None => Some(i),
                Some(b) => if opt_version_ge(
                    spec_parse_version(installed[i].metadata.version@),
                    spec_parse_version(installed[b].metadata.version@),
                ) {
                    Some(i)
                } else {
                    Some(b)
                },
            }
        } else {
            earlier
        }
    }
}

proof fn lemma_best_installed(installed: Seq<InstalledVersion>, required: Seq<char>)
    ensures
        best_installed(installed, required) matches Some(b) ==> 0 <= b < installed.len()
            && spec_installed_satisfies(installed[b].metadata.version@, required),
        best_installed(installed, required) is None ==> forall|j: int|
            0 <= j < installed.len() ==> !spec_installed_satisfies(
                #[trigger] installed[j].metadata.version@,
                required,
            ),
        best_installed(installed, required) matches Some(b) ==> forall|j: int|
            0 <= j < installed.len() && spec_installed_satisfies(
                #[trigger] installed[j].metadata.version@,
                required,
            ) ==> opt_version_ge(
                spec_parse_version(installed[b].metadata.version@),
                spec_parse_version(installed[j].metadata.version@),
            ),
    decreases installed.len(),
{
    if installed.len() > 0 {
        let t = installed.drop_last();
        let i = installed.len() - 1;
        lemma_best_installed(t, required);
        assert forall|j: int| 0 <= j < t.len() implies #[trigger] t[j] == installed[j] by {}
        assert forall|j: int|
            0 <= j < installed.len() && spec_installed_satisfies(
                #[trigger] installed[j].metadata.version@,
                required,
            ) implies (match best_installed(installed, required) {
            Some(b) => opt_version_ge(
                spec_parse_version(installed[b].metadata.version@),
                spec_parse_version(installed[j].metadata.version@),
            ),
            None => false,
        }) by {
            if j < i {
                assert(t[j] == installed[j]);
                assert(spec_installed_satisfies(t[j].metadata.version@, required));
            }
        }
    }
}

/// The install directory of the newest installed engine that satisfies
/// `required`, if any.
pub fn installed_engine_dir_satisfying(installed: &Vec<InstalledVersion>, required: &str) -> (r:
    Option<String>)
    ensures
        (match best_installed(installed@, required@) {
            None => r is None,
            Some(b) => r matches Some(d) && d == installed@[b].metadata.install_path,
        }),
{
    let mut best: Option<usize> = None;
    let mut best_version: Option<(u64, u64, u64)> = None;
    let mut i: usize = 0;
    assert(installed@.take(0) =~= Seq::<InstalledVersion>::empty());
    while i < installed.len()
        invariant
            i <= installed@.len(),
            (match best_installed(installed@.take(i as int), required@) {
                None => best is None,
                Some(b) => best matches Some(k) && k == b && best_version == spec_parse_version(
                    installed@[b].metadata.version@,
                ),
            }),
            best matches Some(k) ==> k < i,
        decreases installed@.len() - i,
    {
        let ghost t = installed@.take(i + 1);
        assert(t.drop_last() =~= installed@.take(i as int));
        assert(t[i as int] == installed@[i as int]);
        proof {
            lemma_best_installed(installed@.take(i as int), required@);
            if let Some(b) = best_installed(installed@.take(i as int), required@) {
                assert(t[b] == installed@[b]);
            }
        }
        let v = installed[i].metadata.version.as_str();
        if installed_satisfies(v, required) {
            let pv = parse_version(v);
            match best {
                None => {
                    best = Some(i);
                    best_version = pv;
                },
                Some(_) => {
                    if opt_version_ge_exec(pv, best_version) {
                        best = Some(i);
                        best_version = pv;
                    }
                },
            }
        }
        i = i + 1;
    }
    assert(installed@.take(i as int) =~= installed@);
    match best {
        None => None,
        Some(k) => Some(installed[k].metadata.install_path.clone()),
    }
}

/// A project launches with the newest installed engine that satisfies its
/// requirement: that engine satisfies it, and no satisfying engine has a
/// greater version.
pub proof fn law_launches_newest_satisfying(installed: Seq<InstalledVersion>, required: Seq<char>)
    ensures
        (exists|j: int|
            0 <= j < installed.len() && spec_installed_satisfies(
                #[trigger] installed[j].metadata.version@,
                required,
            )) <==> best_installed(installed, required) is Some,
        best_installed(installed, required) matches Some(b) ==> {
            &&& spec_installed_satisfies(installed[b].metadata.version@, required)
            &&& forall|j: int|
                0 <= j < installed.len() && spec_installed_satisfies(
                    #[trigger] installed[j].metadata.version@,
                    required,
                ) ==> opt_version_ge(
                    spec_parse_version(installed[b].metadata.version@),
                    spec_parse_version(installed[j].metadata.version@),
                )
        },
{
    lemma_best_installed(installed, required);
    if let Some(b) = best_installed(installed, required) {
        assert(spec_installed_satisfies(installed[b].metadata.version@, required));
    }
}

/// What opening a project does, given the engine its `Pulsar.toml` requires.
pub enum LaunchChoice {
    /// The project uses the local source build: compile it, then launch.
    BuildFromSource,
    /// The project uses the local source build, but none is configured.
    SourceMissing,
    /// Launch with the engine installed in this directory.
    Launch { dir: String },
    /// No installed engine satisfies the requirement: offer to install one.
    PromptInstall { required: String },
    /// No requirement: launch with the newest installed engine, if any.
    LaunchNewest { newest: Option<String> },
}

pub enum LaunchChoiceView {
    BuildFromSource,
    SourceMissing,
    Launch(Seq<char>),
    PromptInstall(Seq<char>),
    LaunchNewest(Option<Seq<char>>),
}

pub open spec fn launch_choice_view(c: LaunchChoice) -> LaunchChoiceView {
    match c {
        LaunchChoice::BuildFromSource => LaunchChoiceView::BuildFromSource,
        LaunchChoice::SourceMissing => LaunchChoiceView::SourceMissing,
        LaunchChoice::Launch { dir } => LaunchChoiceView::Launch(dir@),
        LaunchChoice::PromptInstall { required } => LaunchChoiceView::PromptInstall(required@),
        LaunchChoice::LaunchNewest { newest } => LaunchChoiceView::LaunchNewest(
            match newest {
                Some(d) => Some(d@),
                None => None,
            },
        ),
    }
}

pub open spec fn newest_dir(installed: Seq<InstalledVersion>) -> Option<Seq<char>> {
    if installed.len() > 0 {
        Some(installed[0].metadata.install_path@)
    } else {
        None
    }
}

/// `src` (ASCII case ignored) selects the local source build; a requirement
/// that an installed engine satisfies launches the newest such engine; any
/// other requirement asks to install one; without a requirement the newest
/// installed engine (the first listed) is used.
pub open spec fn spec_launch_choice(
    required: Option<Seq<char>>,
    installed: Seq<InstalledVersion>,
    source_configured: bool,
) -> LaunchChoiceView {
    match required {
        Some(req) => if eq_ci(req, src_name()) {
            if source_configured {
                LaunchChoiceView::BuildFromSource
            } else {
                LaunchChoiceView::SourceMissing
            }
        } else {
            match best_installed(installed, req) {
                Some(b) => LaunchChoiceView::Launch(installed[b].metadata.install_path@),
                None => LaunchChoiceView::PromptInstall(req),
            }
        },
        None => LaunchChoiceView::LaunchNewest(newest_dir(installed)),
    }
}

/// Decides how a project is opened.
pub fn launch_choice(
    required: Option<String>,
    installed: &Vec<InstalledVersion>,
    source_configured: bool,
) -> (r: LaunchChoice)
    ensures
        launch_choice_view(r) == spec_launch_choice(
            match required {
                Some(s) => Some(s@),
                None => None,
            },
            installed@,
            source_configured,
        ),
{
    match required {
        Some(req) => {
            let v = crate::text::chars_of(req.as_str());
            let src = crate::version::src_chars();
            if v.len() == src.len() && crate::text::eq_ci_at(&v, 0, &src) {
                assert(v@.subrange(0, src@.len() as int) =~= v@);
                if source_configured {
                    LaunchChoice::BuildFromSource
                } else {
                    LaunchChoice::SourceMissing
                }
            } else {
                proof {
                    if eq_ci(req@, src_name()) {
                        assert(v@.subrange(0, src@.len() as int) =~= v@);
                    }
                }
                match installed_engine_dir_satisfying(installed, req.as_str()) {
                    Some(dir) => LaunchChoice::Launch { dir },
                    None => LaunchChoice::PromptInstall { required: req },
                }
            }
        },
        None => {
            if installed.len() > 0 {
                LaunchChoice::LaunchNewest { newest: Some(installed[0].metadata.install_path.clone()) }
            } else {
                LaunchChoice::LaunchNewest { newest: None }
            }
        },
    }
}


/// Whether `release` has an asset built for `platform`.
pub open spec fn has_platform_asset(release: GitHubRelease, platform: PlatformInfo) -> bool {
    spec_select_asset(
        lowered_asset_names(release.assets@),
        lowered_candidates(platform),
        platform.os@,
        platform.arch@,
    ) is Some
}

pub open spec fn tagged(tag: Seq<char>) -> spec_fn(GitHubRelease) -> bool {
    |r: GitHubRelease| r.tag_name@ == tag
}

pub open spec fn installable(min: (u64, u64, u64), platform: PlatformInfo) -> spec_fn(
    GitHubRelease,
) -> bool {
    |r: GitHubRelease|
        has_platform_asset(r, platform) && (spec_parse_version(r.tag_name@) matches Some(v)
            && version_ge(v, min))
}

/// The release to install for a project requiring `required`: a release
/// tagged exactly so; otherwise, unless a nightly is required, the first
/// listed (newest) release with an asset for the platform whose version is
/// at least the requirement's minimum.
pub open spec fn spec_pick_engine_tag(
    releases: Seq<GitHubRelease>,
    required: Seq<char>,
    platform: PlatformInfo,
) -> Option<Seq<char>> {
    let exact = crate::platform::first_where(releases, tagged(required));
    if exact < releases.len() {
        Some(releases[exact as int].tag_name@)
    } else if starts_with_ci(required, nightly()) {
        None
    } else {
        match spec_required_min_version(required) {
            None => None,
            Some(min) => {
                let k = crate::platform::first_where(releases, installable(min, platform));
                if k < releases.len() {
                    Some(releases[k as int].tag_name@)
                } else {
                    None
                }
            },
        }
    }
}

/// The first element satisfying `p` is found when there is one.
proof fn lemma_first_where_found<T>(s: Seq<T>, p: spec_fn(T) -> bool, i: int)
    requires
        0 <= i < s.len(),
        p(s[i]),
    ensures
        crate::platform::first_where(s, p) <= i,
        p(s[crate::platform::first_where(s, p) as int]),
    decreases i,
{
    if !p(s[0]) {
        assert(s.drop_first()[i - 1] == s[i]);
        lemma_first_where_found(s.drop_first(), p, i - 1);
        let k = crate::platform::first_where(s.drop_first(), p);
        assert(s.drop_first()[k as int] == s[k as int + 1]);
    }
}

/// Exact tag first: when a listed release is tagged exactly as required,
/// that tag is picked, nightly or not.
pub proof fn law_exact_tag_first(
    releases: Seq<GitHubRelease>,
    required: Seq<char>,
    platform: PlatformInfo,
    i: int,
)
    requires
        0 <= i < releases.len(),
        releases[i].tag_name@ == required,
    ensures
        spec_pick_engine_tag(releases, required, platform) == Some(required),
{
    assert(tagged(required)(releases[i]));
    lemma_first_where_found(releases, tagged(required), i);
    let e = crate::platform::first_where(releases, tagged(required));
    assert(tagged(required)(releases[e as int]));
    assert(releases[e as int].tag_name@ == required);
}

/// Picks the release tag to install for a project's requirement.
pub fn pick_engine_tag(releases: &Vec<GitHubRelease>, required: &str, platform: &PlatformInfo) -> (r:
    Option<String>)
    ensures
        (match spec_pick_engine_tag(releases@, required@, *platform) {
            None => r is None,
            Some(t) => r matches Some(s) && s@ == t,
        }),
        (exists|j: int| 0 <= j < releases@.len() && #[trigger] releases@[j].tag_name@ == required@)
            ==> (r matches Some(s) && s@ == required@),
{
    let mut i: usize = 0;
    while i < releases.len() && !str_eq(releases[i].tag_name.as_str(), required)
        invariant
            i <= releases@.len(),
            forall|j: int| 0 <= j < i ==> !tagged(required@)(#[trigger] releases@[j]),
        decreases releases@.len() - i,
    {
        i = i + 1;
    }
    proof {
        crate::platform::lemma_first_where(releases@, tagged(required@), i as int);
    }
    if i < releases.len() {
        return Some(releases[i].tag_name.clone());
    }
    let req = crate::text::chars_of(required);
    let n = crate::version::nightly_chars();
    if crate::text::starts_with_ci_exec(&req, &n) {
        return None;
    }
    let min = match required_min_version(required) {
        None => return None,
        Some(m) => m,
    };
    let mut k: usize = 0;
    while k < releases.len()
        invariant
            k <= releases@.len(),
            forall|j: int| 0 <= j < k ==> !installable(min, *platform)(#[trigger] releases@[j]),
            crate::platform::first_where(releases@, tagged(required@)) == releases@.len(),
            forall|j: int| 0 <= j < releases@.len() ==> !tagged(required@)(#[trigger] releases@[j]),
            !starts_with_ci(required@, nightly()),
            spec_required_min_version(required@) == Some(min),
        decreases releases@.len() - k,
    {
        let r = &releases[k];
        let fits = match parse_version(r.tag_name.as_str()) {
            Some(v) => version_ge_exec(v, min),
            None => false,
        };
        let found = find_platform_asset(r, platform).is_some();
        assert(found == has_platform_asset(releases@[k as int], *platform));
        if fits && found {
            assert(installable(min, *platform)(releases@[k as int]));
            proof {
                crate::platform::lemma_first_where(releases@, installable(min, *platform), k as int);
            }
            return Some(r.tag_name.clone());
        }
        k = k + 1;
    }
    proof {
        crate::platform::lemma_first_where(releases@, installable(min, *platform), k as int);
    }
    None
}

/// What to do about an engine install that a project asked for.
pub enum PendingStep {
    /// No install is pending.
    Idle,
    /// An installed engine now satisfies the requirement: drop the request.
    Satisfied,
    /// No listed release fits yet: keep waiting.
    Wait,
    /// Install the release with this tag, dropping the request.
    Install(String),
}

/// The next step for a pending install request.
pub fn pending_install_step(
    pending: &Option<String>,
    installed: &Vec<InstalledVersion>,
    releases: &Vec<GitHubRelease>,
    platform: &PlatformInfo,
) -> (r: PendingStep)
    ensures
        (match pending {
            None => r is Idle,
            Some(req) => if exists|i: int|
                0 <= i < installed@.len() && spec_installed_satisfies(
                    #[trigger] installed@[i].metadata.version@,
                    req@,
                ) {
                r is Satisfied
            } else {
                match spec_pick_engine_tag(releases@, req@, *platform) {
                    None => r is Wait,
                    Some(t) => r matches PendingStep::Install(s) && s@ == t,
                }
            },
        }),
{
    match pending {
        None => PendingStep::Idle,
        Some(req) => {
            if any_installed_satisfies(installed.as_slice(), req.as_str()) {
                PendingStep::Satisfied
            } else {
                match pick_engine_tag(releases, req.as_str(), platform) {
                    None => PendingStep::Wait,
                    Some(tag) => PendingStep::Install(tag),
                }
            }
        },
    }
}

/// Whether installing for `required` first needs the Nightly channel turned
/// on: a `nightly-` requirement (ASCII case ignored) while Nightly is off.
pub fn needs_nightly_channel(required: &str, selected: &Vec<ReleaseChannel>) -> (r: bool)
    ensures
        r == (starts_with_ci(required@, nightly()) && !selected@.contains(ReleaseChannel::Nightly)),
{
    let req = crate::text::chars_of(required);
    let n = crate::version::nightly_chars();
    if !crate::text::starts_with_ci_exec(&req, &n) {
        return false;
    }
    let mut i: usize = 0;
    while i < selected.len()
        invariant
            i <= selected@.len(),
            forall|j: int| 0 <= j < i ==> #[trigger] selected@[j] != ReleaseChannel::Nightly,
        decreases selected@.len() - i,
    {
        if selected[i] == ReleaseChannel::Nightly {
            assert(selected@[i as int] == ReleaseChannel::Nightly);
            return false;
        }
        i = i + 1;
    }
    true
}

/// The directory name an engine release installs under: its tag without
/// leading `v`s.
pub open spec fn spec_install_dir_name(tag: Seq<char>) -> Seq<char> {
    tag.skip(crate::text::count_while(tag, |c: char| c == 'v') as int)
}

pub fn install_dir_name(tag: &str) -> (r: String)
    ensures
        r@ == spec_install_dir_name(tag@),
{
    let v = crate::text::chars_of(tag);
    let mut k: usize = 0;
    while k < v.len() && v[k] == 'v'
        invariant
            k <= v@.len(),
            forall|j: int| 0 <= j < k ==> #[trigger] v@[j] == 'v',
        decreases v@.len() - k,
    {
        k = k + 1;
    }
    proof {
        crate::text::lemma_count_while(v@, |c: char| c == 'v', k as int);
    }
    let t = crate::text::sub_chars(&v, k, v.len());
    assert(t@ =~= v@.skip(k as int));
    crate::text::string_of(t.as_slice())
}


/// What a listed release shows.
pub struct ReleaseView {
    pub tag_name: Seq<char>,
    pub name: Seq<char>,
    pub body: Seq<char>,
    pub assets: Seq<GitHubAsset>,
    pub prerelease: bool,
    pub published_at: Seq<char>,
}

pub open spec fn release_view(r: GitHubRelease) -> ReleaseView {
    ReleaseView {
        tag_name: r.tag_name@,
        name: r.name@,
        body: r.body@,
        assets: r.assets@,
        prerelease: r.prerelease,
        published_at: r.published_at@,
    }
}

pub open spec fn release_views(rs: Seq<GitHubRelease>) -> Seq<ReleaseView> {
    rs.map_values(|r: GitHubRelease| release_view(r))
}

fn clone_asset(a: &GitHubAsset) -> (r: GitHubAsset)
    ensures
        r == *a,
{
    GitHubAsset {
        name: a.name.clone(),
        browser_download_url: a.browser_download_url.clone(),
        size: a.size,
    }
}

fn clone_release(r: &GitHubRelease) -> (c: GitHubRelease)
    ensures
        release_view(c) == release_view(*r),
{
    let mut assets: Vec<GitHubAsset> = Vec::new();
    let mut i: usize = 0;
    while i < r.assets.len()
        invariant
            i <= r.assets@.len(),
            assets@ == r.assets@.take(i as int),
        decreases r.assets@.len() - i,
    {
        assets.push(clone_asset(&r.assets[i]));
        i = i + 1;
        assert(assets@ =~= r.assets@.take(i as int));
    }
    assert(r.assets@.take(i as int) =~= r.assets@);
    GitHubRelease {
        tag_name: r.tag_name.clone(),
        name: r.name.clone(),
        body: r.body.clone(),
        assets,
        prerelease: r.prerelease,
        published_at: r.published_at.clone(),
    }
}

/// Whether a selected channel backed by `repo` shows `r`.
pub open spec fn shown_by(channels: Seq<ReleaseChannel>, repo: Seq<char>, r: GitHubRelease) -> bool {
    exists|k: int|
        0 <= k < channels.len() && repo_of(#[trigger] channels[k]) == repo && spec_includes(
            channels[k],
            r.tag_name@,
        )
}

/// `acc` followed by the releases of `rs` (from the source `repo`) that a
/// selected channel shows and whose tags are not listed yet.
pub open spec fn gather_from(
    acc: Seq<GitHubRelease>,
    repo: Seq<char>,
    rs: Seq<GitHubRelease>,
    channels: Seq<ReleaseChannel>,
) -> Seq<GitHubRelease>
    decreases rs.len(),
{
    if rs.len() == 0 {
        acc
    } else {
        let earlier = gather_from(acc, repo, rs.drop_last(), channels);
        let r = rs.last();
        if shown_by(channels, repo, r) && !release_tags(earlier).contains(r.tag_name@) {
            earlier.push(r)
        } else {
            earlier
        }
    }
}

/// The releases of all sources that the selected channels show, each tag
/// once, in source order.
pub open spec fn gather(sources: Seq<ChannelSource>, channels: Seq<ReleaseChannel>) -> Seq<
    GitHubRelease,
>
    decreases sources.len(),
{
    if sources.len() == 0 {
        Seq::empty()
    } else {
        gather_from(
            gather(sources.drop_last(), channels),
            sources.last().repo@,
            sources.last().fetched@,
            channels,
        )
    }
}

/// The listed releases: those gathered, newest first by publish date, equal
/// dates in gathering order.
pub open spec fn spec_listed(sources: Seq<ChannelSource>, channels: Seq<ReleaseChannel>) -> Seq<
    ReleaseView,
> {
    let g = gather(sources, channels);
    values_of(sort_desc(keyed(release_keys(g), release_views(g))))
}

/// `v` is a release fetched by one of `sources` whose repository backs a
/// selected channel that includes the release's tag.
pub open spec fn backed_by_selected_channel(
    sources: Seq<ChannelSource>,
    channels: Seq<ReleaseChannel>,
    v: ReleaseView,
) -> bool {
    exists|s: int, j: int, k: int|
        #![trigger sources[s].fetched@[j], channels[k]]
        0 <= s < sources.len() && 0 <= j < sources[s].fetched@.len() && 0 <= k < channels.len()
            && release_view(sources[s].fetched@[j]) == v && repo_of(channels[k]) == sources[s].repo@
            && spec_includes(channels[k], v.tag_name)
}

/// What `gather_from` adds comes from `rs` and is shown for `repo`.
proof fn lemma_gather_from_origin(
    acc: Seq<GitHubRelease>,
    repo: Seq<char>,
    rs: Seq<GitHubRelease>,
    channels: Seq<ReleaseChannel>,
)
    ensures
        gather_from(acc, repo, rs, channels).len() >= acc.len(),
        forall|i: int| 0 <= i < acc.len() ==> #[trigger] gather_from(acc, repo, rs, channels)[i] == acc[i],
        forall|i: int|
            acc.len() <= i < gather_from(acc, repo, rs, channels).len() ==> exists|j: int|
                0 <= j < rs.len() && #[trigger] rs[j] == #[trigger] gather_from(acc, repo, rs, channels)[i]
                    && shown_by(channels, repo, rs[j]),
    decreases rs.len(),
{
    if rs.len() > 0 {
        let p = rs.drop_last();
        lemma_gather_from_origin(acc, repo, p, channels);
        let earlier = gather_from(acc, repo, p, channels);
        let all = gather_from(acc, repo, rs, channels);
        assert forall|i: int|
            acc.len() <= i < all.len() implies exists|j: int|
            0 <= j < rs.len() && #[trigger] rs[j] == #[trigger] all[i] && shown_by(channels, repo, rs[j]) by {
            if i < earlier.len() {
                assert(all[i] == earlier[i]);
                let j = choose|j: int| 0 <= j < p.len() && #[trigger] p[j] == #[trigger] earlier[i] && shown_by(channels, repo, p[j]);
                assert(rs[j] == p[j]);
            } else {
                assert(all[i] == rs.last());
                assert(rs[rs.len() - 1] == rs.last());
            }
        }
    }
}

/// Every gathered release was fetched by a source and is shown for its
/// repository.
proof fn lemma_gather_origin(sources: Seq<ChannelSource>, channels: Seq<ReleaseChannel>)
    ensures
        forall|i: int|
            0 <= i < gather(sources, channels).len() ==> exists|s: int, j: int|
                0 <= s < sources.len() && 0 <= j < sources[s].fetched@.len() && #[trigger] sources[s].fetched@[j]
                    == #[trigger] gather(sources, channels)[i] && shown_by(
                    channels,
                    sources[s].repo@,
                    sources[s].fetched@[j],
                ),
    decreases sources.len(),
{
    if sources.len() > 0 {
        let p = sources.drop_last();
        lemma_gather_origin(p, channels);
        let acc = gather(p, channels);
        let last = sources.last();
        lemma_gather_from_origin(acc, last.repo@, last.fetched@, channels);
        let all = gather(sources, channels);
        assert forall|i: int| 0 <= i < all.len() implies exists|s: int, j: int|
            0 <= s < sources.len() && 0 <= j < sources[s].fetched@.len() && #[trigger] sources[s].fetched@[j]
                == #[trigger] all[i] && shown_by(channels, sources[s].repo@, sources[s].fetched@[j]) by {
            if i < acc.len() {
                assert(all[i] == acc[i]);
                let (s, j) = choose|s: int, j: int|
                    0 <= s < p.len() && 0 <= j < p[s].fetched@.len() && #[trigger] p[s].fetched@[j]
                        == #[trigger] acc[i] && shown_by(channels, p[s].repo@, p[s].fetched@[j]);
                assert(sources[s] == p[s]);
            } else {
                let j = choose|j: int|
                    0 <= j < last.fetched@.len() && #[trigger] last.fetched@[j] == #[trigger] all[i]
                        && shown_by(channels, last.repo@, last.fetched@[j]);
                assert(sources[sources.len() - 1] == last);
            }
        }
    }
}

/// Only a selected channel's own repository lists releases: every listed
/// release was fetched by a source whose repository backs a selected channel
/// that includes it (with Nightly alone selected, nothing fetched from the
/// main repository is listed).
pub proof fn law_listed_releases_backed(sources: Seq<ChannelSource>, channels: Seq<ReleaseChannel>)
    ensures
        forall|i: int|
            0 <= i < spec_listed(sources, channels).len() ==> backed_by_selected_channel(
                sources,
                channels,
                #[trigger] spec_listed(sources, channels)[i],
            ),
{
    let g = gather(sources, channels);
    lemma_gather_origin(sources, channels);
    let x = keyed(release_keys(g), release_views(g));
    let sorted = sort_desc(x);
    crate::installer::law_sort_desc_permutation(x);
    sorted.to_multiset_ensures();
    x.to_multiset_ensures();
    assert forall|i: int| 0 <= i < spec_listed(sources, channels).len() implies backed_by_selected_channel(
        sources,
        channels,
        #[trigger] spec_listed(sources, channels)[i],
    ) by {
        assert(spec_listed(sources, channels)[i] == sorted[i].1);
        assert(sorted.contains(sorted[i]));
        assert(sorted.to_multiset().count(sorted[i]) > 0);
        assert(x.contains(sorted[i]));
        let m = choose|m: int| 0 <= m < x.len() && x[m] == sorted[i];
        assert(x[m].1 == release_view(g[m]));
        let (s, j) = choose|s: int, j: int|
            0 <= s < sources.len() && 0 <= j < sources[s].fetched@.len() && #[trigger] sources[s].fetched@[j]
                == #[trigger] g[m] && shown_by(channels, sources[s].repo@, sources[s].fetched@[j]);
        let k = choose|k: int|
            0 <= k < channels.len() && repo_of(#[trigger] channels[k]) == sources[s].repo@ && spec_includes(
                channels[k],
                g[m].tag_name@,
            );
        assert(release_view(sources[s].fetched@[j]) == spec_listed(sources, channels)[i]);
    }
}

fn shown_by_exec(channels: &Vec<ReleaseChannel>, repo: &str, r: &GitHubRelease) -> (b: bool)
    ensures
        b == shown_by(channels@, repo@, *r),
{
    let mut k: usize = 0;
    while k < channels.len()
        invariant
            k <= channels@.len(),
            forall|j: int|
                0 <= j < k ==> !(repo_of(#[trigger] channels@[j]) == repo@ && spec_includes(
                    channels@[j],
                    r.tag_name@,
                )),
        decreases channels@.len() - k,
    {
        let c = channels[k];
        if str_eq(c.repo(), repo) && c.includes(r) {
            return true;
        }
        k = k + 1;
    }
    false
}

proof fn lemma_same_views_same_tags(a: Seq<GitHubRelease>, b: Seq<GitHubRelease>)
    requires
        release_views(a) == release_views(b),
    ensures
        release_tags(a) == release_tags(b),
{
    assert(a.len() == release_views(a).len());
    assert(b.len() == release_views(b).len());
    assert forall|i: int| 0 <= i < a.len() implies #[trigger] release_tags(a)[i] == release_tags(
        b,
    )[i] by {
        assert(release_views(a)[i] == release_view(a[i]));
        assert(release_views(b)[i] == release_view(b[i]));
        assert(release_views(a)[i] == release_views(b)[i]);
    }
    assert(release_tags(a) =~= release_tags(b));
}

/// The release list shown for the selected channels.
pub fn rebuild_available_releases(sources: &Vec<ChannelSource>, channels: &Vec<ReleaseChannel>) -> (r:
    Vec<GitHubRelease>)
    ensures
        release_views(r@) == spec_listed(sources@, channels@),
        forall|i: int|
            0 <= i < r@.len() ==> backed_by_selected_channel(
                sources@,
                channels@,
                release_view(#[trigger] r@[i]),
            ),
{
    let mut out: Vec<GitHubRelease> = Vec::new();
    let mut s: usize = 0;
    assert(sources@.take(0) =~= Seq::<ChannelSource>::empty());
    assert(release_views(out@) =~= release_views(gather(sources@.take(0), channels@)));
    while s < sources.len()
        invariant
            s <= sources@.len(),
            release_views(out@) == release_views(gather(sources@.take(s as int), channels@)),
        decreases sources@.len() - s,
    {
        let src = &sources[s];
        let ghost base = gather(sources@.take(s as int), channels@);
        let mut i: usize = 0;
        assert(src.fetched@.take(0) =~= Seq::<GitHubRelease>::empty());
        while i < src.fetched.len()
            invariant
                i <= src.fetched@.len(),
                src == &sources@[s as int],
                release_views(out@) == release_views(
                    gather_from(base, src.repo@, src.fetched@.take(i as int), channels@),
                ),
            decreases src.fetched@.len() - i,
        {
            let ghost prev = gather_from(base, src.repo@, src.fetched@.take(i as int), channels@);
            assert(src.fetched@.take(i + 1).drop_last() =~= src.fetched@.take(i as int));
            assert(src.fetched@.take(i + 1).last() == src.fetched@[i as int]);
            proof {
                lemma_same_views_same_tags(out@, prev);
            }
            let r = &src.fetched[i];
            if shown_by_exec(channels, src.repo, r) && !contains_tag(&out, r.tag_name.as_str()) {
                let c = clone_release(r);
                let ghost before = out@;
                out.push(c);
                assert(release_views(out@) =~= release_views(before).push(release_view(*r)));
                assert(release_views(prev.push(*r)) =~= release_views(prev).push(release_view(*r)));
            }
            i = i + 1;
        }
        assert(src.fetched@.take(i as int) =~= src.fetched@);
        assert(sources@.take(s + 1).drop_last() =~= sources@.take(s as int));
        assert(sources@.take(s + 1).last() == sources@[s as int]);
        s = s + 1;
    }
    assert(sources@.take(s as int) =~= sources@);
    let ghost gathered = out@;
    let ghost g = gather(sources@, channels@);
    sort_releases_newest_first(&mut out);
    proof {
        assert(release_keys(gathered) =~= release_keys(g)) by {
            assert forall|i: int| 0 <= i < gathered.len() implies #[trigger] release_keys(
                gathered,
            )[i] == release_keys(g)[i] by {
                assert(release_views(gathered)[i] == release_views(g)[i]);
            }
        }
        lemma_sorted_values_map(release_keys(gathered), gathered, |r: GitHubRelease| release_view(r));
        assert(release_views(out@) =~= values_of(sort_desc(keyed(release_keys(gathered), gathered))).map_values(|r: GitHubRelease| release_view(r)));
        assert(release_views(out@) == spec_listed(sources@, channels@));
        law_listed_releases_backed(sources@, channels@);
        assert forall|i: int| 0 <= i < out@.len() implies backed_by_selected_channel(
            sources@,
            channels@,
            release_view(#[trigger] out@[i]),
        ) by {
            assert(release_views(out@)[i] == release_view(out@[i]));
            assert(spec_listed(sources@, channels@)[i] == release_view(out@[i]));
        }
    }
    out
}


/// Every source back to its first page: nothing fetched, more expected, not
/// loading, no error.
pub fn reset_sources(sources: &mut Vec<ChannelSource>)
    ensures
        final(sources)@.len() == old(sources)@.len(),
        forall|i: int|
            0 <= i < final(sources)@.len() ==> {
                let s = #[trigger] final(sources)@[i];
                &&& s.repo == old(sources)@[i].repo
                &&& s.page == 0
                &&& s.has_more
                &&& !s.loading
                &&& s.error is None
                &&& s.fetched@.len() == 0
            },
{
    let ghost orig = sources@;
    let n = sources.len();
    let mut out: Vec<ChannelSource> = Vec::new();
    let mut i: usize = 0;
    while i < n
        invariant
            n == orig.len(),
            i <= n,
            sources@ == orig,
            out@.len() == i,
            forall|k: int|
                0 <= k < i ==> {
                    let s = #[trigger] out@[k];
                    &&& s.repo == orig[k].repo
                    &&& s.page == 0
                    &&& s.has_more
                    &&& !s.loading
                    &&& s.error is None
                    &&& s.fetched@.len() == 0
                },
        decreases n - i,
    {
        let repo = sources[i].repo;
        out.push(ChannelSource::new(repo));
        i = i + 1;
    }
    *sources = out;
}

/// Marks as loading the sources whose repository is in `repos`.
pub fn mark_loading(sources: &mut Vec<ChannelSource>, repos: &Vec<&'static str>)
    ensures
        final(sources)@.len() == old(sources)@.len(),
        forall|i: int|
            0 <= i < final(sources)@.len() ==> {
                let s = #[trigger] final(sources)@[i];
                let o = old(sources)@[i];
                &&& s.repo == o.repo
                &&& s.page == o.page
                &&& s.has_more == o.has_more
                &&& s.error == o.error
                &&& s.fetched == o.fetched
                &&& s.loading == (o.loading || str_views(repos@).contains(o.repo@))
            },
{
    let ghost orig = sources@;
    let n = sources.len();
    let mut rest: Vec<ChannelSource> = Vec::new();
    std::mem::swap(&mut rest, sources);
    let mut out: Vec<ChannelSource> = Vec::new();
    let mut i: usize = 0;
    while i < n
        invariant
            n == orig.len(),
            i <= n,
            rest@ == orig.skip(i as int),
            out@.len() == i,
            forall|k: int|
                0 <= k < i ==> {
                    let s = #[trigger] out@[k];
                    let o = orig[k];
                    &&& s.repo == o.repo
                    &&& s.page == o.page
                    &&& s.has_more == o.has_more
                    &&& s.error == o.error
                    &&& s.fetched == o.fetched
                    &&& s.loading == (o.loading || str_views(repos@).contains(o.repo@))
                },
        decreases n - i,
    {
        let mut src = rest.remove(0);
        assert(src == orig[i as int]);
        assert(orig.skip(i as int).drop_first() =~= orig.skip(i + 1));
        if contains_str(repos, src.repo) {
            src.loading = true;
        }
        out.push(src);
        i = i + 1;
    }
    *sources = out;
}


/// What removing an engine version deletes.
pub enum RemovalTarget {
    /// The local source checkout is forgotten; nothing is deleted.
    Source,
    /// The installed engine in this directory is deleted.
    Directory(String),
    /// No installed engine has that version.
    Nothing,
}

/// Index of the first installed engine whose version is exactly `version`.
pub open spec fn version_index(installed: Seq<InstalledVersion>, version: Seq<char>) -> nat {
    crate::platform::first_where(installed, has_version(version))
}

pub open spec fn has_version(version: Seq<char>) -> spec_fn(InstalledVersion) -> bool {
    |v: InstalledVersion| v.metadata.version@ == version
}

/// `src` (ASCII case ignored) forgets the source checkout; any other version
/// deletes the directory of the first installed engine with that version.
pub fn removal_target(version: &str, installed: &Vec<InstalledVersion>) -> (r: RemovalTarget)
    ensures
        eq_ci(version@, src_name()) ==> r is Source,
        !eq_ci(version@, src_name()) ==> (if version_index(installed@, version@) < installed@.len() {
            r matches RemovalTarget::Directory(d) && d == installed@[version_index(
                installed@,
                version@,
            ) as int].metadata.install_path
        } else {
            r is Nothing
        }),
{
    let v = crate::text::chars_of(version);
    let src = crate::version::src_chars();
    if v.len() == src.len() && crate::text::eq_ci_at(&v, 0, &src) {
        assert(v@.subrange(0, src@.len() as int) =~= v@);
        return RemovalTarget::Source;
    }
    proof {
        if eq_ci(version@, src_name()) {
            assert(v@.subrange(0, src@.len() as int) =~= v@);
        }
    }
    let ghost p = has_version(version@);
    let mut i: usize = 0;
    while i < installed.len() && !str_eq(installed[i].metadata.version.as_str(), version)
        invariant
            i <= installed@.len(),
            p == has_version(version@),
            forall|j: int| 0 <= j < i ==> !p(#[trigger] installed@[j]),
        decreases installed@.len() - i,
    {
        i = i + 1;
    }
    proof {
        crate::platform::lemma_first_where(installed@, p, i as int);
    }
    if i < installed.len() {
        RemovalTarget::Directory(installed[i].metadata.install_path.clone())
    } else {
        RemovalTarget::Nothing
    }
}


/// What a release card offers.
pub enum ReleaseCardState {
    /// An installed engine already carries this release's version.
    Installed,
    /// The release has an asset for this platform.
    Installable,
    /// Nothing to install on this platform.
    NoBinary,
}

/// Whether some installed engine's version is the tag without leading `v`s.
pub open spec fn tag_installed(installed: Seq<InstalledVersion>, tag: Seq<char>) -> bool {
    exists|i: int|
        0 <= i < installed.len() && #[trigger] installed[i].metadata.version@
            == spec_install_dir_name(tag)
}

/// The state of the card of `release`.
pub fn release_card_state(
    release: &GitHubRelease,
    installed: &Vec<InstalledVersion>,
    platform: &PlatformInfo,
) -> (r: ReleaseCardState)
    ensures
        tag_installed(installed@, release.tag_name@) ==> r is Installed,
        !tag_installed(installed@, release.tag_name@) && has_platform_asset(*release, *platform)
            ==> r is Installable,
        !tag_installed(installed@, release.tag_name@) && !has_platform_asset(*release, *platform)
            ==> r is NoBinary,
{
    let bare = install_dir_name(release.tag_name.as_str());
    let mut i: usize = 0;
    while i < installed.len()
        invariant
            i <= installed@.len(),
            bare@ == spec_install_dir_name(release.tag_name@),
            forall|j: int| 0 <= j < i ==> #[trigger] installed@[j].metadata.version@ != bare@,
        decreases installed@.len() - i,
    {
        if str_eq(installed[i].metadata.version.as_str(), bare.as_str()) {
            assert(installed@[i as int].metadata.version@ == spec_install_dir_name(
                release.tag_name@,
            ));
            return ReleaseCardState::Installed;
        }
        i = i + 1;
    }
    if find_platform_asset(release, platform).is_some() {
        ReleaseCardState::Installable
    } else {
        ReleaseCardState::NoBinary
    }
}

/// Indices of the releases the install dialog lists: those not marked as
/// pre-releases, in order.
pub fn installable_release_indices(releases: &Vec<GitHubRelease>) -> (r: Vec<usize>)
    ensures
        r@.len() <= releases@.len(),
        forall|k: int| 0 <= k < r@.len() ==> #[trigger] r@[k] < releases@.len() && !releases@[r@[k] as int].prerelease,
        forall|k: int, l: int| 0 <= k < l < r@.len() ==> #[trigger] r@[k] < #[trigger] r@[l],
        forall|j: int|
            0 <= j < releases@.len() && !(#[trigger] releases@[j]).prerelease ==> r@.contains(
                j as usize,
            ),
{
    let mut r: Vec<usize> = Vec::new();
    let mut i: usize = 0;
    while i < releases.len()
        invariant
            i <= releases@.len(),
            r@.len() <= i,
            forall|k: int| 0 <= k < r@.len() ==> #[trigger] r@[k] < i && !releases@[r@[k] as int].prerelease,
            forall|k: int, l: int| 0 <= k < l < r@.len() ==> #[trigger] r@[k] < #[trigger] r@[l],
            forall|j: int|
                0 <= j < i && !(#[trigger] releases@[j]).prerelease ==> r@.contains(j as usize),
        decreases releases@.len() - i,
    {
        if !releases[i].prerelease {
            let ghost before = r@;
            r.push(i);
            assert forall|j: int|
                0 <= j < i + 1 && !(#[trigger] releases@[j]).prerelease implies r@.contains(
                j as usize,
            ) by {
                if j < i {
                    assert(before.contains(j as usize));
                    let w = choose|w: int| 0 <= w < before.len() && before[w] == j as usize;
                    assert(r@[w] == j as usize);
                } else {
                    assert(r@[r@.len() - 1] == i);
                }
            }
        }
        i = i + 1;
    }
    r
}

} // verus!
