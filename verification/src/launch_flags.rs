//! Per-version launch flags: the engine feature toggles that the hub sets in
//! the environment of the engine it spawns, and the `launch-flags.toml` file
//! beside an installed engine that records them.

use vstd::prelude::*;
use crate::keyed::{distinct_keys, entries_map, lemma_entries_map_distinct, KeyedMap};
use crate::text::{chars_of, str_eq, string_of};

verus! {

/// Variable of the occlusion flag, the one whose "on" is left unset.
pub const OCCLUSION_ENV: &'static str = "WGPUI_OCCLUSION";

/// Name of the flag file stored beside the installed engine.
pub const FILE_NAME: &'static str = "launch-flags.toml";

/// Name of the table of the flag file that holds the flags.
pub const FLAGS_SECTION: &'static str = "flags";

/// Comment written at the top of every flag file.
pub const HEADER_COMMENT: &'static str = "# Pulsar Hub launch flags.
#
# This file is rewritten by Pulsar Hub whenever launch flags are edited for
# this engine version in the Versions screen, and it is applied as process
# environment variables every time the Hub launches that version.
# Entries under [flags] that Pulsar Hub does not recognize are preserved.

";

/// A launch flag the hub knows how to edit for an installed engine version.
///
/// The engine reads each variable once at startup, so values are applied to
/// the spawned process' environment rather than changed at runtime.
#[derive(Clone, Copy, Debug)]
pub struct KnownFlag {
    /// The environment variable the engine reads.
    pub env: &'static str,
    pub label: &'static str,
    pub description: &'static str,
    /// Mirrors the engine's own default so the panel matches engine behavior
    /// until this install has a flag file.
    pub default_on: bool,
}

/// Variable, label, description and default of each known flag, in panel
/// order.
pub open spec fn spec_known_flags() -> Seq<(Seq<char>, Seq<char>, Seq<char>, bool)> {
    seq![
        ("WGPUI_LAYERS"@, "Layer compositing"@, "Cache element subtrees as retained layers and composite them."@, true),
        ("WGPUI_INSTANCES"@, "Element instances"@, "Retain elements across frames so unchanged subtrees skip work."@, true),
        ("WGPUI_PERSISTENT_LAYOUT"@, "Persistent layout"@, "Keep layout trees between frames instead of relaying out every frame."@, true),
        ("WGPUI_SLABS"@, "Slab rendering"@, "Batch draw calls through packed GPU slab scenes."@, true),
        ("WGPUI_SLAB_COMPACTION"@, "Slab compaction"@, "Compact GPU slabs as scenes change to reduce memory waste."@, true),
        ("WGPUI_OCCLUSION"@, "Occlusion culling"@, "Skip drawing elements fully covered by opaque regions."@, true),
        ("WGPUI_RENDER_STATS"@, "Render stats"@, "Dump accumulated renderer timings once per second."@, false),
        ("WGPUI_LAYER_DEBUG"@, "Layer debug tint"@, "Tint every composited layer to visualize layer caching."@, false),
    ]
}

pub open spec fn flag_row(f: KnownFlag) -> (Seq<char>, Seq<char>, Seq<char>, bool) {
    (f.env@, f.label@, f.description@, f.default_on)
}

pub open spec fn flag_rows(s: Seq<KnownFlag>) -> Seq<(Seq<char>, Seq<char>, Seq<char>, bool)> {
    s.map_values(|f: KnownFlag| flag_row(f))
}

/// Whether `k` is the variable of a known flag.
pub open spec fn is_known_env(k: Seq<char>) -> bool {
    exists|i: int| 0 <= i < spec_known_flags().len() && #[trigger] spec_known_flags()[i].0 == k
}

/// The flags the hub knows, in panel order.
pub fn known_flags() -> (r: Vec<KnownFlag>)
    ensures
        flag_rows(r@) == spec_known_flags(),
{
    let r = vec![
        KnownFlag {
            env: "WGPUI_LAYERS",
            label: "Layer compositing",
            description: "Cache element subtrees as retained layers and composite them.",
            default_on: true,
        },
        KnownFlag {
            env: "WGPUI_INSTANCES",
            label: "Element instances",
            description: "Retain elements across frames so unchanged subtrees skip work.",
            default_on: true,
        },
        KnownFlag {
            env: "WGPUI_PERSISTENT_LAYOUT",
            label: "Persistent layout",
            description: "Keep layout trees between frames instead of relaying out every frame.",
            default_on: true,
        },
        KnownFlag {
            env: "WGPUI_SLABS",
            label: "Slab rendering",
            description: "Batch draw calls through packed GPU slab scenes.",
            default_on: true,
        },
        KnownFlag {
            env: "WGPUI_SLAB_COMPACTION",
            label: "Slab compaction",
            description: "Compact GPU slabs as scenes change to reduce memory waste.",
            default_on: true,
        },
        KnownFlag {
            env: OCCLUSION_ENV,
            label: "Occlusion culling",
            description: "Skip drawing elements fully covered by opaque regions.",
            default_on: true,
        },
        KnownFlag {
            env: "WGPUI_RENDER_STATS",
            label: "Render stats",
            description: "Dump accumulated renderer timings once per second.",
            default_on: false,
        },
        KnownFlag {
            env: "WGPUI_LAYER_DEBUG",
            label: "Layer debug tint",
            description: "Tint every composited layer to visualize layer caching.",
            default_on: false,
        },
    ];
    assert(flag_rows(r@) =~= spec_known_flags());
    r
}

/// Whether `env` is the variable of a known flag.
pub fn is_known_flag(env: &str) -> (r: bool)
    ensures
        r == is_known_env(env@),
{
    let flags = known_flags();
    let mut i: usize = 0;
    while i < flags.len()
        invariant
            i <= flags@.len(),
            flag_rows(flags@) == spec_known_flags(),
            forall|j: int| 0 <= j < i ==> #[trigger] spec_known_flags()[j].0 != env@,
        decreases flags@.len() - i,
    {
        assert(flag_rows(flags@)[i as int] == flag_row(flags@[i as int]));
        if str_eq(flags[i].env, env) {
            assert(spec_known_flags()[i as int].0 == env@);
            return true;
        }
        i = i + 1;
    }
    false
}

#[verifier::external_type_specification]
#[verifier::external_body]
pub struct ExTomlValue(toml::Value);

/// One entry of the flag table: its key, its value, and the value as a
/// boolean when it is one.
pub struct FlagEntry {
    pub key: String,
    pub value: toml::Value,
    pub as_bool: Option<bool>,
}

/// The flag table of a flag file, as read.
pub enum FlagsSection {
    /// The file is not a TOML document.
    Corrupt,
    /// The document has no flag table.
    Absent,
    /// The document's flag entry is not a table.
    NotATable,
    Entries(Vec<FlagEntry>),
}

/// What the library reads of the flag table: keys and boolean values.
pub enum SectionShape {
    Corrupt,
    Absent,
    NotATable,
    Entries(Seq<(Seq<char>, Option<bool>)>),
}

pub open spec fn entry_shape(e: FlagEntry) -> (Seq<char>, Option<bool>) {
    (e.key@, e.as_bool)
}

pub open spec fn shape_of(entries: Seq<FlagEntry>) -> Seq<(Seq<char>, Option<bool>)> {
    entries.map_values(|e: FlagEntry| entry_shape(e))
}

impl FlagsSection {
    pub open spec fn shape(&self) -> SectionShape {
        match self {
            FlagsSection::Corrupt => SectionShape::Corrupt,
            FlagsSection::Absent => SectionShape::Absent,
            FlagsSection::NotATable => SectionShape::NotATable,
            FlagsSection::Entries(entries) => SectionShape::Entries(shape_of(entries@)),
        }
    }
}

/// The keys and boolean values of table `section` of the TOML document
/// `contents`, as `toml` parses it.
pub uninterp spec fn toml_section_shape(contents: Seq<char>, section: Seq<char>) -> SectionShape;

/// Parses `contents` as a TOML document (`str::parse::<toml::Table>`) and
/// returns its table `section` entry by entry. The shape of the result (which
/// case, each key, each boolean) is `toml_section_shape` of the arguments,
/// and the keys are distinct, being those of a map; what each other value
/// holds is left unsaid, as the library only carries such values through.
#[verifier::external_body]
fn read_section(contents: &str, section: &str) -> (r: FlagsSection)
    ensures
        r.shape() == toml_section_shape(contents@, section@),
{
    let document = match contents.parse::<toml::Table>() {
        Ok(document) => document,
        Err(_) => return FlagsSection::Corrupt,
    };
    match document.get(section) {
        None => FlagsSection::Absent,
        Some(toml::Value::Table(entries)) => FlagsSection::Entries(
            entries.iter().map(|(key, value)| FlagEntry {
                key: key.clone(),
                as_bool: value.as_bool(),
                value: value.clone(),
            }).collect(),
        ),
        Some(_) => FlagsSection::NotATable,
    }
}

/// The text `toml::to_string` writes for a document whose only table,
/// `section`, holds the booleans `overrides`.
pub uninterp spec fn toml_flags_document(section: Seq<char>, overrides: Map<Seq<char>, bool>) -> Seq<
    char,
>;

/// `shape` has an entry with key `k`.
pub open spec fn shape_has_key(shape: Seq<(Seq<char>, Option<bool>)>, k: Seq<char>) -> bool {
    exists|i: int| 0 <= i < shape.len() && #[trigger] shape[i].0 == k
}

/// No key occurs in two entries of `shape`.
pub open spec fn distinct_shape_keys(shape: Seq<(Seq<char>, Option<bool>)>) -> bool {
    forall|i: int, j: int| 0 <= i < j < shape.len() ==> #[trigger] shape[i].0 != #[trigger] shape[j].0
}

/// `s` has an entry with key `k`.
pub open spec fn has_entry_key<V>(s: Seq<(String, V)>, k: Seq<char>) -> bool {
    exists|i: int| 0 <= i < s.len() && #[trigger] s[i].0@ == k
}

/// What reading back a written flag table gives: each key once, exactly the
/// keys of `overrides` and `extras`, and each override whose key no extra
/// takes with its boolean.
pub open spec fn reads_back_as(
    shape: Seq<(Seq<char>, Option<bool>)>,
    overrides: Seq<(String, bool)>,
    extras: Seq<(String, toml::Value)>,
) -> bool {
    &&& distinct_shape_keys(shape)
    &&& forall|k: Seq<char>|
        #![trigger shape_has_key(shape, k)]
        #![trigger has_entry_key(overrides, k)]
        #![trigger has_entry_key(extras, k)]
        shape_has_key(shape, k) <==> (has_entry_key(overrides, k) || has_entry_key(extras, k))
    &&& forall|i: int, j: int|
        #![trigger shape[i], overrides[j]]
        0 <= i < shape.len() && 0 <= j < overrides.len() && shape[i].0 == overrides[j].0@
            && !has_entry_key(extras, shape[i].0) ==> shape[i].1 == Some(overrides[j].1)
}

/// `r` is a written text equal to `text`.
pub open spec fn written_as(r: Result<String, String>, text: Seq<char>) -> bool {
    r matches Ok(t) && t@ == text
}

/// A text written for table `section`, read back behind the hub's header
/// comment, gives the table that `reads_back_as` describes.
pub open spec fn written_reads_back(
    r: Result<String, String>,
    section: Seq<char>,
    overrides: Seq<(String, bool)>,
    extras: Seq<(String, toml::Value)>,
) -> bool {
    r matches Ok(t) ==> (toml_section_shape(HEADER_COMMENT@ + t@, section) matches SectionShape::Entries(
        shape,
    ) && reads_back_as(shape, overrides, extras))
}

/// Writes a TOML document (`toml::to_string` of a `toml::Table`) whose table
/// `section` holds `overrides` as booleans and then `extras`; a failure comes
/// back as the error's text. Claimed:
/// - with no extras the document is written (the serializer's only steps
///   for a table of booleans under string keys are writes into a `String`),
///   and its text depends on the section and the map of overrides alone,
///   named `toml_flags_document` (`toml::Table` is a `BTreeMap`, so entries
///   are written in key order whatever order they were inserted in);
/// - a written document, behind the hub's header comment (comment lines that
///   TOML ignores), reads back (`toml_section_shape`) as a table with exactly
///   the keys written, each once, an override whose key no extra takes
///   reading back as its boolean (every key is quoted as needed and a
///   boolean is written as `true` or `false`).
/// Whether a document with extras is written is left unsaid: the values of
/// `extras` are `toml` values that the library does not look into, and a
/// hand-built datetime among them can fail to serialize.
#[verifier::external_body]
fn write_section(
    section: &str,
    overrides: &Vec<(String, bool)>,
    extras: &Vec<(String, toml::Value)>,
) -> (r: Result<String, String>)
    requires
        distinct_keys(overrides@),
    ensures
        extras@.len() == 0 ==> written_as(r, toml_flags_document(section@, entries_map(overrides@))),
        written_reads_back(r, section@, overrides@, extras@),
{
    let mut table = toml::Table::new();
    for (key, on) in overrides {
        table.insert(key.clone(), toml::Value::Boolean(*on));
    }
    for (key, value) in extras {
        table.insert(key.clone(), value.clone());
    }
    let mut document = toml::Table::new();
    document.insert(section.to_string(), toml::Value::Table(table));
    toml::to_string(&document).map_err(|error| error.to_string())
}

/// The overrides that a flag table sets: the boolean entries of known flags.
pub open spec fn overrides_of(shape: Seq<(Seq<char>, Option<bool>)>) -> Map<Seq<char>, bool>
    decreases shape.len(),
{
    if shape.len() == 0 {
        Map::empty()
    } else {
        let m = overrides_of(shape.drop_last());
        let (k, b) = shape.last();
        if is_known_env(k) && b is Some {
            m.insert(k, b->0)
        } else {
            m
        }
    }
}

/// The keys of the entries of a flag table that name no known flag.
pub open spec fn extra_keys_of(shape: Seq<(Seq<char>, Option<bool>)>) -> Set<Seq<char>>
    decreases shape.len(),
{
    if shape.len() == 0 {
        Set::empty()
    } else {
        let s = extra_keys_of(shape.drop_last());
        if is_known_env(shape.last().0) {
            s
        } else {
            s.insert(shape.last().0)
        }
    }
}

/// The entries of a flag table that name no known flag, kept as they are.
pub open spec fn extras_of(entries: Seq<FlagEntry>) -> Map<Seq<char>, toml::Value>
    decreases entries.len(),
{
    if entries.len() == 0 {
        Map::empty()
    } else {
        let m = extras_of(entries.drop_last());
        let e = entries.last();
        if is_known_env(e.key@) {
            m
        } else {
            m.insert(e.key@, e.value)
        }
    }
}

/// What a flag set holds: the flags set away from the engine default, and
/// the entries of the flag table that the hub does not know.
pub struct LaunchFlagsView {
    pub overrides: Map<Seq<char>, bool>,
    pub extras: Map<Seq<char>, toml::Value>,
}

/// What the flag file `text` holds for `flags` when read back: a flag table
/// with each key once, exactly the keys of the overrides and the extras, and
/// each override whose key no extra takes with its boolean.
pub open spec fn saved_as(flags: LaunchFlagsView, text: Seq<char>) -> bool {
    toml_section_shape(text, FLAGS_SECTION@) matches SectionShape::Entries(shape) && {
        &&& distinct_shape_keys(shape)
        &&& forall|k: Seq<char>|
            #![trigger shape_has_key(shape, k)]
            shape_has_key(shape, k) <==> (flags.overrides.dom().contains(k)
                || flags.extras.dom().contains(k))
        &&& forall|i: int|
            0 <= i < shape.len() && flags.overrides.dom().contains(#[trigger] shape[i].0)
                && !flags.extras.dom().contains(shape[i].0) ==> shape[i].1 == Some(
                flags.overrides[shape[i].0],
            )
    }
}

/// The flags read from the flag file `text`: the overrides and extra keys of
/// its flag table, none when the file is corrupt or has no flag table.
pub open spec fn parsed_as(text: Seq<char>, flags: LaunchFlagsView) -> bool {
    match toml_section_shape(text, FLAGS_SECTION@) {
        SectionShape::Entries(shape) => {
            &&& flags.overrides == overrides_of(shape)
            &&& flags.extras.dom() == extra_keys_of(shape)
        },
        _ => flags.overrides == Map::<Seq<char>, bool>::empty() && flags.extras == Map::<
            Seq<char>,
            toml::Value,
        >::empty(),
    }
}

/// With distinct keys, the overrides of a flag table are its boolean
/// entries of known flags.
pub proof fn lemma_overrides_of(shape: Seq<(Seq<char>, Option<bool>)>)
    requires
        distinct_shape_keys(shape),
    ensures
        forall|k: Seq<char>|
            #[trigger] overrides_of(shape).dom().contains(k) ==> is_known_env(k) && exists|i: int|
                0 <= i < shape.len() && #[trigger] shape[i].0 == k && shape[i].1 is Some,
        forall|i: int|
            0 <= i < shape.len() && is_known_env(#[trigger] shape[i].0) && shape[i].1 is Some
                ==> overrides_of(shape).dom().contains(shape[i].0) && overrides_of(shape)[shape[i].0]
                == shape[i].1->0,
    decreases shape.len(),
{
    if shape.len() > 0 {
        let p = shape.drop_last();
        assert forall|i: int, j: int| 0 <= i < j < p.len() implies #[trigger] p[i].0 != #[trigger] p[j].0 by {
            assert(p[i] == shape[i] && p[j] == shape[j]);
        }
        lemma_overrides_of(p);
        let n = shape.len() - 1;
        assert forall|k: Seq<char>| #[trigger] overrides_of(shape).dom().contains(k) implies is_known_env(k)
            && exists|i: int| 0 <= i < shape.len() && #[trigger] shape[i].0 == k && shape[i].1 is Some by {
            if k == shape[n].0 && is_known_env(k) && shape[n].1 is Some {
                assert(shape[n].0 == k);
            } else {
                assert(overrides_of(p).dom().contains(k));
                let i = choose|i: int| 0 <= i < p.len() && #[trigger] p[i].0 == k && p[i].1 is Some;
                assert(shape[i] == p[i]);
            }
        }
        assert forall|i: int|
            0 <= i < shape.len() && is_known_env(#[trigger] shape[i].0) && shape[i].1 is Some implies overrides_of(
                shape,
            ).dom().contains(shape[i].0) && overrides_of(shape)[shape[i].0] == shape[i].1->0 by {
            if i < n {
                assert(shape[i] == p[i]);
                assert(shape[i].0 != shape[n].0);
            }
        }
    }
}

/// The extra keys of a flag table are its keys that name no known flag.
pub proof fn lemma_extra_keys_of(shape: Seq<(Seq<char>, Option<bool>)>)
    ensures
        forall|k: Seq<char>|
            #[trigger] extra_keys_of(shape).contains(k) <==> !is_known_env(k) && shape_has_key(shape, k),
    decreases shape.len(),
{
    if shape.len() > 0 {
        let p = shape.drop_last();
        lemma_extra_keys_of(p);
        let n = shape.len() - 1;
        assert(extra_keys_of(shape) == if is_known_env(shape.last().0) {
            extra_keys_of(p)
        } else {
            extra_keys_of(p).insert(shape.last().0)
        });
        assert forall|k: Seq<char>| #[trigger] extra_keys_of(shape).contains(k) <==> !is_known_env(k)
            && shape_has_key(shape, k) by {
            if shape_has_key(shape, k) {
                let i = choose|i: int| 0 <= i < shape.len() && #[trigger] shape[i].0 == k;
                if i < n {
                    assert(p[i] == shape[i]);
                    assert(shape_has_key(p, k));
                }
            }
            if shape_has_key(p, k) {
                let i = choose|i: int| 0 <= i < p.len() && #[trigger] p[i].0 == k;
                assert(shape[i] == p[i]);
                assert(shape_has_key(shape, k));
            }
            assert(shape[n].0 == shape.last().0);
            if k == shape.last().0 {
                assert(shape_has_key(shape, k));
            }
        }
    }
}

/// A flag set written to its file reads back with the same overrides and the
/// same unknown entries, provided its overrides are of known flags and its
/// extras of unknown ones (as the hub's own edits and reads keep them).
pub proof fn law_saved_flags_read_back(saved: LaunchFlagsView, text: Seq<char>, read: LaunchFlagsView)
    requires
        saved_as(saved, text),
        parsed_as(text, read),
        forall|k: Seq<char>| #[trigger] saved.overrides.dom().contains(k) ==> is_known_env(k),
        forall|k: Seq<char>| #[trigger] saved.extras.dom().contains(k) ==> !is_known_env(k),
    ensures
        read.overrides == saved.overrides,
        read.extras.dom() == saved.extras.dom(),
{
    let shape = match toml_section_shape(text, FLAGS_SECTION@) {
        SectionShape::Entries(shape) => shape,
        _ => Seq::empty(),
    };
    lemma_overrides_of(shape);
    lemma_extra_keys_of(shape);
    assert forall|k: Seq<char>| #[trigger] read.overrides.dom().contains(k) <==> saved.overrides.dom().contains(k) by {
        if saved.overrides.dom().contains(k) {
            assert(shape_has_key(shape, k));
            let i = choose|i: int| 0 <= i < shape.len() && #[trigger] shape[i].0 == k;
            assert(!saved.extras.dom().contains(k));
            assert(shape[i].1 == Some(saved.overrides[k]));
        }
        if read.overrides.dom().contains(k) {
            let i = choose|i: int| 0 <= i < shape.len() && #[trigger] shape[i].0 == k && shape[i].1 is Some;
            assert(shape_has_key(shape, k));
        }
    }
    assert forall|k: Seq<char>| #[trigger] read.overrides.dom().contains(k) implies read.overrides[k]
        == saved.overrides[k] by {
        let i = choose|i: int| 0 <= i < shape.len() && #[trigger] shape[i].0 == k && shape[i].1 is Some;
        assert(saved.overrides.dom().contains(k));
        assert(!saved.extras.dom().contains(k));
    }
    assert(read.overrides =~= saved.overrides);
    assert forall|k: Seq<char>| #[trigger] read.extras.dom().contains(k) <==> saved.extras.dom().contains(k) by {
        assert(extra_keys_of(shape).contains(k) <==> !is_known_env(k) && shape_has_key(shape, k));
        if saved.extras.dom().contains(k) {
            assert(shape_has_key(shape, k));
        }
    }
    assert(read.extras.dom() =~= saved.extras.dom());
}

/// Per-version launch flags. Flags without an override take the engine
/// default; unknown entries of the flag file are kept so that a rewrite
/// preserves them.
pub struct LaunchFlags {
    overrides: KeyedMap<bool>,
    extras: KeyedMap<toml::Value>,
}

impl View for LaunchFlags {
    type V = LaunchFlagsView;

    closed spec fn view(&self) -> LaunchFlagsView {
        LaunchFlagsView { overrides: self.overrides@, extras: self.extras@ }
    }
}

impl Default for LaunchFlags {
    fn default() -> (r: Self)
        ensures
            r@.overrides == Map::<Seq<char>, bool>::empty(),
            r@.extras == Map::<Seq<char>, toml::Value>::empty(),
    {
        LaunchFlags { overrides: KeyedMap::new(), extras: KeyedMap::new() }
    }
}

/// The value shown for a flag: its override, else the engine default.
pub open spec fn spec_checked(overrides: Map<Seq<char>, bool>, env: Seq<char>, default_on: bool) -> bool {
    if overrides.dom().contains(env) {
        overrides[env]
    } else {
        default_on
    }
}

/// Environment assignments for the flags of `rows` that have an override:
/// `"1"` for on and `"0"` for off, except occlusion on, which is left unset.
pub open spec fn spec_env_assignments(
    rows: Seq<(Seq<char>, Seq<char>, Seq<char>, bool)>,
    overrides: Map<Seq<char>, bool>,
) -> Seq<(Seq<char>, Seq<char>)>
    decreases rows.len(),
{
    if rows.len() == 0 {
        Seq::empty()
    } else {
        let earlier = spec_env_assignments(rows.drop_last(), overrides);
        let env = rows.last().0;
        if !overrides.dom().contains(env) || (env == "WGPUI_OCCLUSION"@ && overrides[env]) {
            earlier
        } else if overrides[env] {
            earlier.push((env, "1"@))
        } else {
            earlier.push((env, "0"@))
        }
    }
}

impl LaunchFlags {
    /// The flags that a flag table gives: overrides from the boolean entries
    /// of known flags, other entries of known flags ignored, entries of
    /// unknown keys kept as extras. Without a readable table, the defaults.
    pub fn from_section(section: FlagsSection) -> (r: Self)
        ensures
            (match section {
                FlagsSection::Entries(entries) => {
                    &&& r@.overrides == overrides_of(shape_of(entries@))
                    &&& r@.extras == extras_of(entries@)
                    &&& r@.extras.dom() == extra_keys_of(shape_of(entries@))
                },
                _ => r@.overrides == Map::<Seq<char>, bool>::empty() && r@.extras == Map::<
                    Seq<char>,
                    toml::Value,
                >::empty(),
            }),
    {
        let mut flags = LaunchFlags::default();
        let mut rest = match section {
            FlagsSection::Entries(entries) => entries,
            _ => return flags,
        };
        let ghost all = rest@;
        let ghost mut done: Seq<FlagEntry> = Seq::empty();
        assert(all =~= done + rest@);
        assert(flags.extras@.dom() =~= extra_keys_of(shape_of(done)));
        while rest.len() > 0
            invariant
                all == done + rest@,
                flags@.overrides == overrides_of(shape_of(done)),
                flags@.extras == extras_of(done),
                flags@.extras.dom() == extra_keys_of(shape_of(done)),
            decreases rest@.len(),
        {
            let entry = rest.remove(0);
            let ghost next = done.push(entry);
            proof {
                assert(next.drop_last() =~= done);
                assert(shape_of(next).drop_last() =~= shape_of(done));
                assert(shape_of(next).last() == entry_shape(entry));
            }
            if is_known_flag(entry.key.as_str()) {
                match entry.as_bool {
                    Some(on) => flags.overrides.insert(entry.key, on),
                    None => {},
                }
            } else {
                flags.extras.insert(entry.key, entry.value);
            }
            proof {
                done = next;
                assert(all =~= done + rest@);
            }
            assert(flags@.extras.dom() =~= extra_keys_of(shape_of(done)));
        }
        assert(done =~= all);
        flags
    }

    /// The flags written in the flag file `contents`. A corrupt file, or one
    /// without a flag table, gives the engine defaults.
    pub fn parse(contents: &str) -> (r: Self)
        ensures
            parsed_as(contents@, r@),
    {
        let section = read_section(contents, FLAGS_SECTION);
        LaunchFlags::from_section(section)
    }

    /// The text of the flag file: the header comment, then the flag table
    /// with the overrides and the preserved extras. Flags without extras are
    /// always written.
    pub fn document_text(&self) -> (r: Result<String, String>)
        ensures
            self@.extras == Map::<Seq<char>, toml::Value>::empty() ==> (r matches Ok(text)
                && text@ == HEADER_COMMENT@ + toml_flags_document(FLAGS_SECTION@, self@.overrides)),
            r matches Ok(text) ==> HEADER_COMMENT@.len() <= text@.len() && text@.take(
                HEADER_COMMENT@.len() as int,
            ) == HEADER_COMMENT@,
            r matches Ok(text) ==> saved_as(self@, text@),
    {
        let extras = self.extras.entries();
        let overrides = self.overrides.entries();
        proof {
            if self@.extras == Map::<Seq<char>, toml::Value>::empty() && extras@.len() > 0 {
                let k = extras@[0].0@;
                assert(crate::keyed::key_index(extras@, k) == 0);
                assert(crate::keyed::entries_map(extras@).dom().contains(k));
            }
        }
        let written = write_section(FLAGS_SECTION, overrides, extras);
        match written {
            Ok(body) => {
                let mut v = chars_of(HEADER_COMMENT);
                let w = chars_of(body.as_str());
                let ghost head = v@;
                crate::text::append_chars(&mut v, &w);
                assert(v@.take(head.len() as int) =~= head);
                assert(v@ =~= HEADER_COMMENT@ + body@);
                proof {
                    self.lemma_written_reads_back(overrides@, extras@, body@);
                }
                Ok(string_of(v.as_slice()))
            },
            Err(error) => Err(error),
        }
    }

    /// A table written from these flags' entries reads back as `saved_as`
    /// describes.
    proof fn lemma_written_reads_back(
        &self,
        overrides: Seq<(String, bool)>,
        extras: Seq<(String, toml::Value)>,
        body: Seq<char>,
    )
        requires
            entries_map(overrides) == self@.overrides,
            entries_map(extras) == self@.extras,
            distinct_keys(overrides),
            distinct_keys(extras),
            toml_section_shape(HEADER_COMMENT@ + body, FLAGS_SECTION@) matches SectionShape::Entries(
                shape,
            ) && reads_back_as(shape, overrides, extras),
        ensures
            saved_as(self@, HEADER_COMMENT@ + body),
    {
        lemma_entries_map_distinct(overrides);
        lemma_entries_map_distinct(extras);
        let shape = match toml_section_shape(HEADER_COMMENT@ + body, FLAGS_SECTION@) {
            SectionShape::Entries(shape) => shape,
            _ => Seq::empty(),
        };
        assert forall|k: Seq<char>| has_entry_key(overrides, k) <==> #[trigger] self@.overrides.dom().contains(k) by {
            if has_entry_key(overrides, k) {
                let i = choose|i: int| 0 <= i < overrides.len() && #[trigger] overrides[i].0@ == k;
                assert(entries_map(overrides).dom().contains(overrides[i].0@));
            }
        }
        assert forall|k: Seq<char>| has_entry_key(extras, k) <==> #[trigger] self@.extras.dom().contains(k) by {
            if has_entry_key(extras, k) {
                let i = choose|i: int| 0 <= i < extras.len() && #[trigger] extras[i].0@ == k;
                assert(entries_map(extras).dom().contains(extras[i].0@));
            }
        }
        assert forall|k: Seq<char>| #[trigger] shape_has_key(shape, k) <==> (self@.overrides.dom().contains(k)
            || self@.extras.dom().contains(k)) by {
            assert(has_entry_key(overrides, k) <==> self@.overrides.dom().contains(k));
            assert(has_entry_key(extras, k) <==> self@.extras.dom().contains(k));
        }
        assert forall|i: int|
            0 <= i < shape.len() && self@.overrides.dom().contains(#[trigger] shape[i].0)
                && !self@.extras.dom().contains(shape[i].0) implies shape[i].1 == Some(
            self@.overrides[shape[i].0],
        ) by {
            let k = shape[i].0;
            let j = choose|j: int| 0 <= j < overrides.len() && #[trigger] overrides[j].0@ == k;
            assert(entries_map(overrides)[overrides[j].0@] == overrides[j].1);
            assert(has_entry_key(extras, k) <==> self@.extras.dom().contains(k));
            assert(shape[i].0 == overrides[j].0@);
        }
    }

    /// The effective value shown for `flag`.
    pub fn checked(&self, flag: &KnownFlag) -> (r: bool)
        ensures
            r == spec_checked(self@.overrides, flag.env@, flag.default_on),
    {
        match self.overrides.get(flag.env) {
            Some(on) => *on,
            None => flag.default_on,
        }
    }

    pub fn set(&mut self, env: &str, on: bool)
        ensures
            final(self)@.overrides == old(self)@.overrides.insert(env@, on),
            final(self)@.extras == old(self)@.extras,
    {
        self.overrides.insert(env.to_string(), on);
    }

    /// Drops every override so that `checked` reports engine defaults again;
    /// unknown entries are kept.
    pub fn reset_to_defaults(&mut self)
        ensures
            final(self)@.overrides == Map::<Seq<char>, bool>::empty(),
            final(self)@.extras == old(self)@.extras,
    {
        self.overrides = KeyedMap::new();
    }

    /// The unknown entry `key` kept from the flag file.
    pub fn extra(&self, key: &str) -> (r: Option<&toml::Value>)
        ensures
            (match r {
                Some(v) => self@.extras.dom().contains(key@) && *v == self@.extras[key@],
                None => !self@.extras.dom().contains(key@),
            }),
    {
        self.extras.get(key)
    }

    /// The environment variables to set on the spawned engine, in panel
    /// order: every overridden flag as `"1"` or `"0"`, except occlusion on,
    /// which is left unset so that the engine keeps its normal mode.
    pub fn env_assignments(&self) -> (r: Vec<(&'static str, &'static str)>)
        ensures
            r@.map_values(|a: (&'static str, &'static str)| (a.0@, a.1@)) == spec_env_assignments(
                spec_known_flags(),
                self@.overrides,
            ),
            forall|j: int|
                0 <= j < spec_known_flags().len() && self@.overrides.dom().contains(
                    #[trigger] spec_known_flags()[j].0,
                ) && !(spec_known_flags()[j].0 == "WGPUI_OCCLUSION"@
                    && self@.overrides[spec_known_flags()[j].0]) ==> exists|i: int|
                    0 <= i < r@.len() && (#[trigger] r@[i]).0@ == spec_known_flags()[j].0 && r@[i].1@
                        == env_value(self@.overrides, spec_known_flags()[j].0),
    {
        let flags = known_flags();
        let mut r: Vec<(&'static str, &'static str)> = Vec::new();
        let mut i: usize = 0;
        while i < flags.len()
            invariant
                i <= flags@.len(),
                flag_rows(flags@) == spec_known_flags(),
                r@.map_values(|a: (&'static str, &'static str)| (a.0@, a.1@))
                    == spec_env_assignments(spec_known_flags().take(i as int), self@.overrides),
            decreases flags@.len() - i,
        {
            let ghost rows = spec_known_flags().take(i + 1);
            proof {
                assert(rows.drop_last() =~= spec_known_flags().take(i as int));
                assert(flag_rows(flags@)[i as int] == flag_row(flags@[i as int]));
                assert(rows.last() == flag_row(flags@[i as int]));
            }
            let flag = flags[i];
            let ghost before = r@.map_values(|a: (&'static str, &'static str)| (a.0@, a.1@));
            match self.overrides.get(flag.env) {
                Some(on) => {
                    let on = *on;
                    if !(on && str_eq(flag.env, OCCLUSION_ENV)) {
                        if on {
                            r.push((flag.env, "1"));
                        } else {
                            r.push((flag.env, "0"));
                        }
                        assert(r@.map_values(|a: (&'static str, &'static str)| (a.0@, a.1@))
                            =~= before.push((flag.env@, if on { "1"@ } else { "0"@ })));
                    }
                },
                None => {},
            }
            i = i + 1;
        }
        assert(spec_known_flags().take(flags@.len() as int) =~= spec_known_flags());
        proof {
            law_env_assignments_complete(spec_known_flags(), self@.overrides);
            let m = r@.map_values(|a: (&'static str, &'static str)| (a.0@, a.1@));
            assert forall|j: int|
                0 <= j < spec_known_flags().len() && self@.overrides.dom().contains(
                    #[trigger] spec_known_flags()[j].0,
                ) && !(spec_known_flags()[j].0 == "WGPUI_OCCLUSION"@
                    && self@.overrides[spec_known_flags()[j].0]) implies exists|i: int|
                0 <= i < r@.len() && (#[trigger] r@[i]).0@ == spec_known_flags()[j].0 && r@[i].1@
                    == env_value(self@.overrides, spec_known_flags()[j].0) by {
                let i = choose|i: int|
                    0 <= i < m.len() && #[trigger] m[i] == (
                        spec_known_flags()[j].0,
                        env_value(self@.overrides, spec_known_flags()[j].0),
                    );
                assert(m[i] == (r@[i].0@, r@[i].1@));
            }
        }
        r
    }
}


/// After a reset every flag shows its engine default, and a flag just set
/// shows the value it was set to.
pub proof fn law_checked_after_reset_and_set(
    overrides: Map<Seq<char>, bool>,
    env: Seq<char>,
    on: bool,
    default_on: bool,
)
    ensures
        spec_checked(Map::<Seq<char>, bool>::empty(), env, default_on) == default_on,
        spec_checked(overrides.insert(env, on), env, default_on) == on,
{
}

/// Occlusion on is never written into the environment, and every assignment
/// is `"1"` or `"0"` for a flag that has an override.
pub proof fn law_env_assignments(
    rows: Seq<(Seq<char>, Seq<char>, Seq<char>, bool)>,
    overrides: Map<Seq<char>, bool>,
)
    ensures
        forall|i: int|
            0 <= i < spec_env_assignments(rows, overrides).len() ==> {
                let a = #[trigger] spec_env_assignments(rows, overrides)[i];
                &&& overrides.dom().contains(a.0)
                &&& a.1 == (if overrides[a.0] { "1"@ } else { "0"@ })
                &&& !(a.0 == "WGPUI_OCCLUSION"@ && overrides[a.0])
            },
    decreases rows.len(),
{
    if rows.len() > 0 {
        let earlier = spec_env_assignments(rows.drop_last(), overrides);
        law_env_assignments(rows.drop_last(), overrides);
        let all = spec_env_assignments(rows, overrides);
        assert forall|i: int| 0 <= i < earlier.len() implies #[trigger] all[i] == earlier[i] by {}
    }
}

/// The assignment an overridden flag `env` gets: `"1"` for on, `"0"` for
/// off.
pub open spec fn env_value(overrides: Map<Seq<char>, bool>, env: Seq<char>) -> Seq<char> {
    if overrides[env] {
        "1"@
    } else {
        "0"@
    }
}

/// No overridden flag is dropped: every flag of `rows` with an override gets
/// its assignment, unless it is occlusion set on.
pub proof fn law_env_assignments_complete(
    rows: Seq<(Seq<char>, Seq<char>, Seq<char>, bool)>,
    overrides: Map<Seq<char>, bool>,
)
    ensures
        forall|j: int|
            0 <= j < rows.len() && overrides.dom().contains(#[trigger] rows[j].0) && !(rows[j].0
                == "WGPUI_OCCLUSION"@ && overrides[rows[j].0]) ==> exists|i: int|
                0 <= i < spec_env_assignments(rows, overrides).len() && #[trigger] spec_env_assignments(
                    rows,
                    overrides,
                )[i] == (rows[j].0, env_value(overrides, rows[j].0)),
    decreases rows.len(),
{
    if rows.len() > 0 {
        let p = rows.drop_last();
        law_env_assignments_complete(p, overrides);
        let earlier = spec_env_assignments(p, overrides);
        let all = spec_env_assignments(rows, overrides);
        assert forall|i: int| 0 <= i < earlier.len() implies #[trigger] all[i] == earlier[i] by {}
        assert forall|j: int|
            0 <= j < rows.len() && overrides.dom().contains(#[trigger] rows[j].0) && !(rows[j].0
                == "WGPUI_OCCLUSION"@ && overrides[rows[j].0]) implies exists|i: int|
            0 <= i < all.len() && #[trigger] all[i] == (rows[j].0, env_value(overrides, rows[j].0)) by {
            if j < rows.len() - 1 {
                assert(p[j] == rows[j]);
                let i = choose|i: int|
                    0 <= i < earlier.len() && #[trigger] earlier[i] == (p[j].0, env_value(overrides, p[j].0));
                assert(all[i] == earlier[i]);
            } else {
                assert(rows[j] == rows.last());
                assert(all[earlier.len() as int] == (rows[j].0, env_value(overrides, rows[j].0)));
            }
        }
    }
}

} // verus!
