//! Installing a plugin from the registry: what to do once the latest
//! release of its repository is known, and what the finished install
//! records.

use vstd::prelude::*;
use crate::text::{append_chars, chars_of, string_of};
use crate::types::{InstalledPlugin, PluginInstallMethod};

verus! {

/// How a plugin release is installed.
#[derive(Debug)]
pub enum PluginInstallPlan {
    /// Download the release's prebuilt library from `url`, saved as
    /// `library_name`.
    Download { url: String, library_name: String },
    /// Build the plugin from source at the release tag.
    BuildFromSource,
}

/// The file name of a downloaded plugin library: `<repo>_<tag>.<ext>`.
pub open spec fn spec_plugin_library_name(repo: Seq<char>, tag: Seq<char>, ext: Seq<char>) -> Seq<
    char,
> {
    repo + seq!['_'] + tag + seq!['.'] + ext
}

/// The install plan for the latest release of repository `repo`, given as
/// its tag and the download URL of a prebuilt library for this platform,
/// if it has one; `None` when the repository has no release.
pub fn plugin_install_plan(
    repo: &str,
    release: Option<(String, Option<String>)>,
    ext: &str,
) -> (r: Result<(String, PluginInstallPlan), String>)
    ensures
        (match release {
            None => r matches Err(e) && e@ == "No releases found"@,
            Some((tag, None)) => r matches Ok((t, plan)) && t@ == tag@ && plan is BuildFromSource,
            Some((tag, Some(url))) => r matches Ok((t, plan)) && t@ == tag@ && (plan matches PluginInstallPlan::Download { url: u, library_name }
                && u@ == url@ && library_name@ == spec_plugin_library_name(repo@, tag@, ext@)),
        }),
{
    match release {
        None => {
            let e = chars_of("No releases found");
            Err(string_of(e.as_slice()))
        },
        Some((tag, None)) => Ok((tag, PluginInstallPlan::BuildFromSource)),
        Some((tag, Some(url))) => {
            let mut v = chars_of(repo);
            v.push('_');
            let t = chars_of(tag.as_str());
            append_chars(&mut v, &t);
            v.push('.');
            let e = chars_of(ext);
            append_chars(&mut v, &e);
            let library_name = string_of(v.as_slice());
            Ok((tag, PluginInstallPlan::Download { url, library_name }))
        },
    }
}

/// What a finished install records: the installed plugin when the library
/// was downloaded or built (`library_path`), else the failure shown for the
/// install method.
pub fn finish_plugin_install(
    name: String,
    repo_url: String,
    tag: String,
    installed_at: String,
    method: PluginInstallMethod,
    library_path: Option<String>,
) -> (r: Result<InstalledPlugin, String>)
    ensures
        (match library_path {
            Some(p) => r matches Ok(plugin) && plugin.name == name && plugin.repo_url == repo_url
                && plugin.version == tag && plugin.installed_at == installed_at
                && plugin.install_method == method && plugin.library_path == p,
            None => r matches Err(e) && e@ == (match method {
                PluginInstallMethod::BinaryDownload => "Download failed"@,
                PluginInstallMethod::BuiltFromSource => "Build failed"@,
            }),
        }),
{
    match library_path {
        Some(library_path) => Ok(
            InstalledPlugin {
                name,
                repo_url,
                version: tag,
                installed_at,
                install_method: method,
                library_path,
            },
        ),
        None => {
            let e = match method {
                PluginInstallMethod::BinaryDownload => chars_of("Download failed"),
                PluginInstallMethod::BuiltFromSource => chars_of("Build failed"),
            };
            Err(string_of(e.as_slice()))
        },
    }
}

} // verus!
