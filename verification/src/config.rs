//! Optional configuration for device rename and hide cosmetics.
//!
//! Missing configuration is not an error: defaults apply (identity map, no hides).
//! The caller reads the file and its TOML; the rules here decide what to read, what
//! the outcome means, and what the entries do to a device.

use vstd::prelude::*;
use crate::error::{ConfigError, Error};
use crate::text;
use crate::text::{chars_of, clone_opt, contains, fold_case, string_of, trim};

verus! {

/// Environment variable that overrides the default config path.
pub const CONFIG_ENV: &'static str = "PLAY_ON_AIR_CONFIG";

/// Default relative path when neither the command line nor the environment sets one.
pub const DEFAULT_CONFIG_PATH: &'static str = "play-on-air.toml";

/// Runtime configuration (always present; may be empty defaults).
#[derive(Debug)]
pub struct Config {
    /// Per-device cosmetic overrides.
    pub devices: Vec<DeviceConfig>,
}

/// One optional `[[device]]` table entry.
#[derive(Debug)]
pub struct DeviceConfig {
    /// Match Chromecast advertised name or UUID substring (case-insensitive).
    pub id: String,
    /// Optional AirPlay display rename. Empty means keep Cast name.
    pub name: Option<String>,
    /// When true, do not advertise this device as AirPlay.
    pub hide: bool,
}

/// Resolved cosmetic override for a discovered Cast device.
#[derive(Debug)]
pub struct DeviceOverride {
    /// Name shown on the AirPlay picker.
    pub display_name: String,
    /// When true, skip AirPlay advertisement.
    pub hidden: bool,
}

impl Clone for DeviceConfig {
    fn clone(&self) -> (r: DeviceConfig)
        ensures
            r == *self,
    {
        DeviceConfig { id: self.id.clone(), name: clone_opt(&self.name), hide: self.hide }
    }
}

impl Default for Config {
    fn default() -> (r: Config)
        ensures
            r.devices@ == Seq::<DeviceConfig>::empty(),
    {
        Config { devices: Vec::new() }
    }
}

/// What came of reading the configuration file.
#[derive(Debug)]
pub enum FileRead {
    /// The file holds these entries.
    Entries(Vec<DeviceConfig>),
    /// The file is not valid TOML, for this reason.
    Invalid(String),
    /// There is no such file.
    NotFound,
    /// The file could not be read, for this reason.
    Unreadable(String),
}

/// A configuration path: the one that the command line gave, or a name.
#[derive(Debug)]
pub enum ConfigPath<P> {
    /// As given on the command line.
    Given(P),
    /// From the environment, or the default.
    Named(String),
}

/// Resolve which path to attempt loading: the command line's, else a non-blank
/// environment value without surrounding whitespace, else the default.
pub fn resolve_config_path<P>(cli_path: Option<P>, env_value: Option<&str>) -> (r: ConfigPath<P>)
    ensures
        match cli_path {
            Some(p) => r == ConfigPath::Given(p),
            None => r matches ConfigPath::Named(name) && name@ == match env_value {
                Some(v) if text::trimmed(v@).len() > 0 => text::trimmed(v@),
                _ => DEFAULT_CONFIG_PATH@,
            },
        },
        is_path_of(cli_path, opt_str_view(env_value), r),
{
    match cli_path {
        Some(p) => {
            return ConfigPath::Given(p);
        },
        None => {},
    }
    match env_value {
        Some(v) => {
            let c = chars_of(v);
            let t = trim(c.as_slice());
            if t.len() > 0 {
                return ConfigPath::Named(string_of(t));
            }
        },
        None => {},
    }
    ConfigPath::Named(string_of(chars_of(DEFAULT_CONFIG_PATH).as_slice()))
}

/// A pattern occurs in a device's name or id, whatever the case of letters.
pub open spec fn is_match(pattern: Seq<char>, cast_name: Seq<char>, cast_id: Seq<char>) -> bool {
    text::has_sub(text::folded(cast_name), text::folded(pattern)) || text::has_sub(
        text::folded(cast_id),
        text::folded(pattern),
    )
}

/// Whether a pattern occurs in a device's name or id, whatever the case of letters.
pub fn matches_device(pattern: &str, cast_name: &str, cast_id: &str) -> (r: bool)
    ensures
        r == is_match(pattern@, cast_name@, cast_id@),
{
    let p = chars_of(pattern);
    let n = chars_of(cast_name);
    let i = chars_of(cast_id);
    let pat = fold_case(p.as_slice());
    let name = fold_case(n.as_slice());
    let id = fold_case(i.as_slice());
    contains(name.as_slice(), pat.as_slice()) || contains(id.as_slice(), pat.as_slice())
}

/// An entry applies to a device. One without pattern never does.
pub open spec fn applies(entry: DeviceConfig, cast_name: Seq<char>, cast_id: Seq<char>) -> bool {
    entry.id@.len() > 0 && is_match(entry.id@, cast_name, cast_id)
}

/// The name that an entry gives to a device.
pub open spec fn renamed(entry: DeviceConfig, cast_name: Seq<char>) -> Seq<char> {
    match entry.name {
        Some(n) if n@.len() > 0 => n@,
        _ => cast_name,
    }
}

/// Name and visibility of a device under the entries: the first one that applies
/// decides; without one, the device keeps its name and is shown.
pub open spec fn override_of(
    entries: Seq<DeviceConfig>,
    cast_name: Seq<char>,
    cast_id: Seq<char>,
) -> (Seq<char>, bool)
    decreases entries.len(),
{
    if entries.len() == 0 {
        (cast_name, false)
    } else if applies(entries[0], cast_name, cast_id) {
        (renamed(entries[0], cast_name), entries[0].hide)
    } else {
        override_of(entries.drop_first(), cast_name, cast_id)
    }
}

impl Config {
    /// The configuration that the outcome of reading `path` means. A missing file
    /// means defaults; an unreadable or invalid one is an error.
    pub fn load_path(path: &str, file: FileRead) -> (r: Result<Config, Error>)
        ensures
            match file {
                FileRead::Entries(entries) => r matches Ok(c) && c.devices == entries,
                FileRead::NotFound => r matches Ok(c) && c.devices@ == Seq::<DeviceConfig>::empty(),
                FileRead::Invalid(m) => r matches Err(Error::Config { path: p, source }) && p@
                    == path@ && source == ConfigError::Parse(m),
                FileRead::Unreadable(m) => r matches Err(Error::Config { path: p, source }) && p@
                    == path@ && source == ConfigError::Io(m),
            },
            is_loaded(path@, file, r),
    {
        match file {
            FileRead::Entries(entries) => Ok(Config { devices: entries }),
            FileRead::NotFound => Ok(Config { devices: Vec::new() }),
            FileRead::Invalid(m) => Err(
                Error::Config {
                    path: string_of(chars_of(path).as_slice()),
                    source: ConfigError::Parse(m),
                },
            ),
            FileRead::Unreadable(m) => Err(
                Error::Config {
                    path: string_of(chars_of(path).as_slice()),
                    source: ConfigError::Io(m),
                },
            ),
        }
    }

    /// Resolve rename/hide for a Cast device by advertised name and id.
    ///
    /// Matching: case-insensitive substring of `id` against Cast name or Cast id.
    /// First matching entry wins. No match means identity map, not hidden.
    pub fn device_override(&self, cast_name: &str, cast_id: &str) -> (r: DeviceOverride)
        ensures
            (r.display_name@, r.hidden) == override_of(self.devices@, cast_name@, cast_id@),
    {
        let mut i: usize = 0;
        proof {
            assert(self.devices@.skip(0) =~= self.devices@);
        }
        while i < self.devices.len()
            invariant
                i <= self.devices.len(),
                override_of(self.devices@, cast_name@, cast_id@) == override_of(
                    self.devices@.skip(i as int),
                    cast_name@,
                    cast_id@,
                ),
            decreases self.devices.len() - i,
        {
            proof {
                let rest = self.devices@.skip(i as int);
                assert(rest[0] == self.devices@[i as int]);
                assert(rest.drop_first() =~= self.devices@.skip(i as int + 1));
            }
            let entry = &self.devices[i];
            if !entry.id.as_str().is_empty() && matches_device(
                entry.id.as_str(),
                cast_name,
                cast_id,
            ) {
                let display_name = match &entry.name {
                    Some(n) => if n.as_str().is_empty() {
                        string_of(chars_of(cast_name).as_slice())
                    } else {
                        n.clone()
                    },
                    None => string_of(chars_of(cast_name).as_slice()),
                };
                return DeviceOverride { display_name, hidden: entry.hide };
            }
            i += 1;
        }
        DeviceOverride { display_name: string_of(chars_of(cast_name).as_slice()), hidden: false }
    }
}

/// Any part of a device's name or id matches it.
pub proof fn law_any_part_matches(pattern: Seq<char>, cast_name: Seq<char>, cast_id: Seq<char>)
    requires
        text::has_sub(cast_name, pattern) || text::has_sub(cast_id, pattern),
    ensures
        is_match(pattern, cast_name, cast_id),
{
    if text::has_sub(cast_name, pattern) {
        text::lemma_folded_sub(cast_name, pattern);
    } else {
        text::lemma_folded_sub(cast_id, pattern);
    }
}

/// Case does not matter: texts with the same lower case match the same, and so do
/// texts that differ in the case of ASCII letters only.
pub proof fn law_case_does_not_matter(
    pattern: Seq<char>,
    cast_name: Seq<char>,
    cast_id: Seq<char>,
    other_pattern: Seq<char>,
    other_name: Seq<char>,
    other_id: Seq<char>,
)
    requires
        text::folded(pattern) == text::folded(other_pattern) || text::lower(pattern) == text::lower(
            other_pattern,
        ),
        text::folded(cast_name) == text::folded(other_name) || text::lower(cast_name)
            == text::lower(other_name),
        text::folded(cast_id) == text::folded(other_id) || text::lower(cast_id) == text::lower(
            other_id,
        ),
    ensures
        is_match(pattern, cast_name, cast_id) == is_match(other_pattern, other_name, other_id),
{
    if text::lower(pattern) == text::lower(other_pattern) {
        text::lemma_folded_ignores_case(pattern, other_pattern);
    }
    if text::lower(cast_name) == text::lower(other_name) {
        text::lemma_folded_ignores_case(cast_name, other_name);
    }
    if text::lower(cast_id) == text::lower(other_id) {
        text::lemma_folded_ignores_case(cast_id, other_id);
    }
}

/// Without a matching entry a device keeps its name and is shown.
pub proof fn law_unmatched_device_is_untouched(
    entries: Seq<DeviceConfig>,
    cast_name: Seq<char>,
    cast_id: Seq<char>,
)
    requires
        forall|i: int| 0 <= i < entries.len() ==> !applies(#[trigger] entries[i], cast_name, cast_id),
    ensures
        override_of(entries, cast_name, cast_id) == (cast_name, false),
    decreases entries.len(),
{
    if entries.len() > 0 {
        let rest = entries.drop_first();
        assert forall|i: int| 0 <= i < rest.len() implies !applies(
            #[trigger] rest[i],
            cast_name,
            cast_id,
        ) by {
            assert(rest[i] == entries[i + 1]);
        }
        law_unmatched_device_is_untouched(rest, cast_name, cast_id);
    }
}

/// The first entry that applies decides, whatever follows it.
pub proof fn law_first_match_wins(
    entries: Seq<DeviceConfig>,
    cast_name: Seq<char>,
    cast_id: Seq<char>,
    first: int,
)
    requires
        0 <= first < entries.len(),
        applies(entries[first], cast_name, cast_id),
        forall|i: int| 0 <= i < first ==> !applies(#[trigger] entries[i], cast_name, cast_id),
    ensures
        override_of(entries, cast_name, cast_id) == (
            renamed(entries[first], cast_name),
            entries[first].hide,
        ),
    decreases first,
{
    if first > 0 {
        let rest = entries.drop_first();
        assert forall|i: int| 0 <= i < first - 1 implies !applies(
            #[trigger] rest[i],
            cast_name,
            cast_id,
        ) by {
            assert(rest[i] == entries[i + 1]);
        }
        assert(rest[first - 1] == entries[first]);
        assert(!applies(entries[0], cast_name, cast_id));
        law_first_match_wins(rest, cast_name, cast_id, first - 1);
    }
}

/// An entry applies exactly when it has a pattern and the pattern matches. It gives the
/// device its own name, unless it has none or an empty one.
pub proof fn law_entry_gives_its_name(
    entry: DeviceConfig,
    cast_name: Seq<char>,
    cast_id: Seq<char>,
)
    ensures
        entry.id@.len() == 0 ==> !applies(entry, cast_name, cast_id),
        entry.id@.len() > 0 ==> (applies(entry, cast_name, cast_id) <==> is_match(
            entry.id@,
            cast_name,
            cast_id,
        )),
        entry.name is Some && entry.name->0@.len() > 0 ==> renamed(entry, cast_name)
            == entry.name->0@,
        entry.name is None || entry.name->0@.len() == 0 ==> renamed(entry, cast_name) == cast_name,
{
}

/// A pattern that matches an ASCII name and id stands in one of them once all capital
/// letters are made small.
pub proof fn law_match_is_a_part(pattern: Seq<char>, cast_name: Seq<char>, cast_id: Seq<char>)
    requires
        forall|i: int| 0 <= i < pattern.len() ==> text::is_ascii(#[trigger] pattern[i]),
        forall|i: int| 0 <= i < cast_name.len() ==> text::is_ascii(#[trigger] cast_name[i]),
        forall|i: int| 0 <= i < cast_id.len() ==> text::is_ascii(#[trigger] cast_id[i]),
    ensures
        is_match(pattern, cast_name, cast_id) <==> text::has_sub(
            text::lower(cast_name),
            text::lower(pattern),
        ) || text::has_sub(text::lower(cast_id), text::lower(pattern)),
{
    lemma_ascii_folds_to_lower(pattern);
    lemma_ascii_folds_to_lower(cast_name);
    lemma_ascii_folds_to_lower(cast_id);
}

/// ASCII text folds to itself with the capital letters made small.
proof fn lemma_ascii_folds_to_lower(s: Seq<char>)
    requires
        forall|i: int| 0 <= i < s.len() ==> text::is_ascii(#[trigger] s[i]),
    ensures
        text::folded(s) == text::lower(s),
    decreases s.len(),
{
    if s.len() > 0 {
        let head = s.drop_last();
        assert forall|i: int| 0 <= i < head.len() implies text::is_ascii(#[trigger] head[i]) by {
            assert(head[i] == s[i]);
        }
        lemma_ascii_folds_to_lower(head);
        assert(text::is_ascii(s[s.len() - 1]));
        assert(text::folded(s) =~= text::lower(s));
    } else {
        assert(text::folded(s) =~= text::lower(s));
    }
}

/// The characters of an optional text.
pub open spec fn opt_str_view(s: Option<&str>) -> Option<Seq<char>> {
    match s {
        Some(v) => Some(v@),
        None => None,
    }
}

/// `r` is the path to load for what the command line and the environment give.
pub open spec fn is_path_of<P>(
    cli_path: Option<P>,
    env_value: Option<Seq<char>>,
    r: ConfigPath<P>,
) -> bool {
    match cli_path {
        Some(p) => r == ConfigPath::Given(p),
        None => r matches ConfigPath::Named(name) && name@ == match env_value {
            Some(v) if text::trimmed(v).len() > 0 => text::trimmed(v),
            _ => DEFAULT_CONFIG_PATH@,
        },
    }
}

/// The command line decides before the environment, and a blank environment value is
/// none; without either the file is `play-on-air.toml`.
pub proof fn law_command_line_decides_first<P>(p: P, env: Option<Seq<char>>, r: ConfigPath<P>)
    ensures
        is_path_of(Some(p), env, r) ==> r == ConfigPath::Given(p),
        is_path_of(None::<P>, env, r) && env is Some && text::trimmed(env->0).len() > 0 ==> (r
            matches ConfigPath::Named(name) && name@ == text::trimmed(env->0)),
        is_path_of(None::<P>, env, r) && (env is None || text::trimmed(env->0).len() == 0) ==> (r
            matches ConfigPath::Named(name) && name@ == "play-on-air.toml"@),
{
}

/// `r` is the configuration that the outcome of reading a path means.
pub open spec fn is_loaded(path: Seq<char>, file: FileRead, r: Result<Config, Error>) -> bool {
    match file {
        FileRead::Entries(entries) => r matches Ok(c) && c.devices == entries,
        FileRead::NotFound => r matches Ok(c) && c.devices@ == Seq::<DeviceConfig>::empty(),
        FileRead::Invalid(m) => r matches Err(Error::Config { path: p, source }) && p@ == path
            && source == ConfigError::Parse(m),
        FileRead::Unreadable(m) => r matches Err(Error::Config { path: p, source }) && p@ == path
            && source == ConfigError::Io(m),
    }
}

/// A configuration that is there and valid is taken whole, and one that is not there is
/// empty; any other outcome is an error, which names the file and the reason.
pub proof fn law_missing_file_is_no_error(path: Seq<char>, file: FileRead, r: Result<Config, Error>)
    requires
        is_loaded(path, file, r),
    ensures
        r is Ok <==> file is Entries || file is NotFound,
        file matches FileRead::Entries(entries) ==> r->Ok_0.devices == entries,
        file is NotFound ==> r->Ok_0.devices@.len() == 0,
        file matches FileRead::Invalid(m) ==> r->Err_0.text() == "config error at "@ + path + ": "@
            + ("TOML parse error: "@ + m@),
        file matches FileRead::Unreadable(m) ==> r->Err_0.text() == "config error at "@ + path
            + ": "@ + m@,
{
}

} // verus!
