//! Verified core logic of the Pulsar Hub launcher: engine version parsing and
//! selection, the release catalogue and its channels, which engine a project
//! launches with, download and source-build bookkeeping, launch flags,
//! release-note summaries, template cache naming, disk-usage health and git
//! status bookkeeping.

pub mod text;
pub mod version;
pub mod installer;
pub mod types;
pub mod download_manager;
pub mod download;
pub mod github_archive;
pub mod paths;
pub mod template_cache;
pub mod launch;
pub mod platform;
pub mod keyed;
pub mod git_status;
pub mod cloud;
pub mod storage;
pub mod launch_flags;
pub mod release_notes;
pub mod source_build;
pub mod catalog;
pub mod installs;
pub mod templates;
pub mod plugins;
