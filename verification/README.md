# pulsar_hub

The logic of the Pulsar Hub launcher as a Verus-verified library.

- `src/` is the library. Every function states its behaviour in
  `requires`/`ensures`, and Verus proves it; the `law_*` proof functions
  state properties that span several functions (for instance that a newer
  engine satisfies whatever an older one satisfied, that a stale git fetch
  never overwrites a newer one, or that the release list is sorted newest
  first). Calls into `chrono`, `toml`, `serde_json`, `git2`, `directories`
  and a few `std` functions sit behind small trusted wrappers whose doc
  comments say what is claimed of them.
- `app/` is the unverified shell: file system, HTTP, archives, spawning the
  engine and cargo, and the state that carries floating-point progress.
- `tests/` runs the library on concrete values, including comparisons of
  the integer models of `f32`/`f64` arithmetic against real floats.

Module map: `version` (engine version strings), `installer` (releases,
channels, install plans, build logs), `catalog` (release sources,
pagination, listing, launch and install decisions), `installs` (installed
engines, newest first), `platform` (asset selection), `download` and
`download_manager`, `github_archive`, `launch` (project URIs),
`launch_flags`, `release_notes`, `source_build` (cargo output), `storage`,
`template_cache`, `templates` (built-in project templates), `paths`, `cloud`,
`git_status`, `keyed` (string-keyed map),
`types`, `text` (string specifications shared by all).
