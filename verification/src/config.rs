//! Configuration: built-in defaults, and the settings of a user-level and
//! a project-level file laid over them setting by setting (project over
//! user over defaults).
use vstd::prelude::*;
pub use vstd::hash_map::StringHashMap;

verus! {

/// Core settings.
pub struct CoreConfig {
    pub default_encoding: String,
    pub confirm_overwrite: bool,
    pub clipboard_timeout_ms: u64,
    pub max_file_size_mb: u64,
}

/// Encodings by file extension.
pub struct EncodingConfig {
    pub bat: String,
    pub ps1: String,
    pub custom: StringHashMap<String>,
}

/// How content is checked against the file extension.
pub struct MatchingConfig {
    pub warn_on_mismatch: bool,
    pub auto_correct_ext: bool,
    pub show_content_preview: bool,
}

/// What to do by default on conflicts and mismatches.
pub struct BehaviourConfig {
    pub default_on_conflict: String,
    pub default_on_mismatch: String,
}

/// The whole configuration.
pub struct Config {
    pub core: CoreConfig,
    pub encodings: EncodingConfig,
    pub matching: MatchingConfig,
    pub behaviour: BehaviourConfig,
}

/// The default encoding name.
pub fn default_encoding() -> (r: String)
    ensures
        r@ == "utf8"@,
{
    "utf8".to_owned()
}

/// The default of the boolean settings that default to on.
pub fn default_true() -> (r: bool)
    ensures
        r,
{
    true
}

/// The default clipboard timeout, in milliseconds.
pub fn default_clipboard_timeout() -> (r: u64)
    ensures
        r == 2000,
{
    2000
}

/// The default size limit, in MB.
pub fn default_max_size() -> (r: u64)
    ensures
        r == 100,
{
    100
}

/// The default encoding of `.bat` files.
pub fn default_bat_enc() -> (r: String)
    ensures
        r@ == "gbk"@,
{
    "gbk".to_owned()
}

/// The default encoding of `.ps1` files.
pub fn default_ps1_enc() -> (r: String)
    ensures
        r@ == "utf8bom"@,
{
    "utf8bom".to_owned()
}

/// The default answer to conflicts and mismatches.
pub fn default_ask() -> (r: String)
    ensures
        r@ == "ask"@,
{
    "ask".to_owned()
}

/// `c` holds the default core settings.
pub open spec fn is_default_core(c: CoreConfig) -> bool {
    &&& c.default_encoding@ == "utf8"@
    &&& c.confirm_overwrite
    &&& c.clipboard_timeout_ms == 2000
    &&& c.max_file_size_mb == 100
}

/// `e` holds the default encoding settings.
pub open spec fn is_default_encodings(e: EncodingConfig) -> bool {
    &&& e.bat@ == "gbk"@
    &&& e.ps1@ == "utf8bom"@
    &&& e.custom@ == Map::<Seq<char>, String>::empty()
}

/// `m` holds the default matching settings.
pub open spec fn is_default_matching(m: MatchingConfig) -> bool {
    m.warn_on_mismatch && !m.auto_correct_ext && m.show_content_preview
}

/// `b` holds the default behaviour settings.
pub open spec fn is_default_behaviour(b: BehaviourConfig) -> bool {
    b.default_on_conflict@ == "ask"@ && b.default_on_mismatch@ == "ask"@
}

/// `c` is the built-in configuration.
pub open spec fn is_default_config(c: Config) -> bool {
    &&& is_default_core(c.core)
    &&& is_default_encodings(c.encodings)
    &&& is_default_matching(c.matching)
    &&& is_default_behaviour(c.behaviour)
}

impl Default for CoreConfig {
    fn default() -> (r: Self)
        ensures
            is_default_core(r),
    {
        CoreConfig {
            default_encoding: "utf8".to_owned(),
            confirm_overwrite: true,
            clipboard_timeout_ms: 2000,
            max_file_size_mb: 100,
        }
    }
}

impl Default for EncodingConfig {
    fn default() -> (r: Self)
        ensures
            is_default_encodings(r),
    {
        EncodingConfig {
            bat: "gbk".to_owned(),
            ps1: "utf8bom".to_owned(),
            custom: StringHashMap::new(),
        }
    }
}

impl Default for MatchingConfig {
    fn default() -> (r: Self)
        ensures
            is_default_matching(r),
    {
        MatchingConfig { warn_on_mismatch: true, auto_correct_ext: false, show_content_preview: true }
    }
}

impl Default for BehaviourConfig {
    fn default() -> (r: Self)
        ensures
            is_default_behaviour(r),
    {
        BehaviourConfig { default_on_conflict: "ask".to_owned(), default_on_mismatch: "ask".to_owned() }
    }
}

impl Default for Config {
    fn default() -> (r: Self)
        ensures
            is_default_config(r),
    {
        Config {
            core: CoreConfig::default(),
            encodings: EncodingConfig::default(),
            matching: MatchingConfig::default(),
            behaviour: BehaviourConfig::default(),
        }
    }
}

/// `merged` is `overlay` laid over `base`: every setting from `overlay`,
/// custom encodings from both with `overlay` winning on shared extensions.
pub open spec fn merged_from(merged: Config, base: Config, overlay: Config) -> bool {
    &&& merged.core == overlay.core
    &&& merged.matching == overlay.matching
    &&& merged.behaviour == overlay.behaviour
    &&& merged.encodings.bat == overlay.encodings.bat
    &&& merged.encodings.ps1 == overlay.encodings.ps1
    &&& merged.encodings.custom@ == base.encodings.custom@.union_prefer_right(
        overlay.encodings.custom@,
    )
}

/// Lays `overlay` over `base`.
pub fn merge_configs(base: Config, overlay: Config) -> (r: Config)
    ensures
        merged_from(r, base, overlay),
{
    let Config { core: _, encodings: base_enc, matching: _, behaviour: _ } = base;
    let Config { core, encodings: over_enc, matching, behaviour } = overlay;
    let EncodingConfig { bat, ps1, custom: over_custom } = over_enc;
    let mut custom = base_enc.custom;
    custom.union_prefer_right(over_custom);
    Config { core, encodings: EncodingConfig { bat, ps1, custom }, matching, behaviour }
}

// ------------------------------------------------------------------
// Configuration files: the settings each one sets
// ------------------------------------------------------------------

/// The core settings a configuration file sets (`None`: not set).
pub struct PartialCore {
    pub default_encoding: Option<String>,
    pub confirm_overwrite: Option<bool>,
    pub clipboard_timeout_ms: Option<u64>,
    pub max_file_size_mb: Option<u64>,
}

/// The encoding settings a configuration file sets, and its custom
/// encodings by extension.
pub struct PartialEncodings {
    pub bat: Option<String>,
    pub ps1: Option<String>,
    pub custom: StringHashMap<String>,
}

/// The matching settings a configuration file sets.
pub struct PartialMatching {
    pub warn_on_mismatch: Option<bool>,
    pub auto_correct_ext: Option<bool>,
    pub show_content_preview: Option<bool>,
}

/// The behaviour settings a configuration file sets.
pub struct PartialBehaviour {
    pub default_on_conflict: Option<String>,
    pub default_on_mismatch: Option<String>,
}

/// What one configuration file sets.
pub struct PartialConfig {
    pub core: PartialCore,
    pub encodings: PartialEncodings,
    pub matching: PartialMatching,
    pub behaviour: PartialBehaviour,
}

/// `c` sets nothing.
pub open spec fn sets_nothing(c: PartialConfig) -> bool {
    &&& c.core.default_encoding is None
    &&& c.core.confirm_overwrite is None
    &&& c.core.clipboard_timeout_ms is None
    &&& c.core.max_file_size_mb is None
    &&& c.encodings.bat is None
    &&& c.encodings.ps1 is None
    &&& c.encodings.custom@ == Map::<Seq<char>, String>::empty()
    &&& c.matching.warn_on_mismatch is None
    &&& c.matching.auto_correct_ext is None
    &&& c.matching.show_content_preview is None
    &&& c.behaviour.default_on_conflict is None
    &&& c.behaviour.default_on_mismatch is None
}

impl Default for PartialConfig {
    /// A configuration that sets nothing (that of a missing file).
    fn default() -> (r: Self)
        ensures
            sets_nothing(r),
    {
        PartialConfig {
            core: PartialCore {
                default_encoding: None,
                confirm_overwrite: None,
                clipboard_timeout_ms: None,
                max_file_size_mb: None,
            },
            encodings: PartialEncodings { bat: None, ps1: None, custom: StringHashMap::new() },
            matching: PartialMatching {
                warn_on_mismatch: None,
                auto_correct_ext: None,
                show_content_preview: None,
            },
            behaviour: PartialBehaviour { default_on_conflict: None, default_on_mismatch: None },
        }
    }
}

/// A setting `o` sets, else `base`.
pub open spec fn or_else<T>(o: Option<T>, base: T) -> T {
    match o {
        Some(v) => v,
        None => base,
    }
}

/// `r` is `base` with every setting that `overlay` sets taken from it,
/// and the custom encodings of both, `overlay` winning on shared extensions.
pub open spec fn overlaid(r: Config, base: Config, overlay: PartialConfig) -> bool {
    &&& r.core.default_encoding == or_else(overlay.core.default_encoding, base.core.default_encoding)
    &&& r.core.confirm_overwrite == or_else(overlay.core.confirm_overwrite, base.core.confirm_overwrite)
    &&& r.core.clipboard_timeout_ms == or_else(
        overlay.core.clipboard_timeout_ms,
        base.core.clipboard_timeout_ms,
    )
    &&& r.core.max_file_size_mb == or_else(overlay.core.max_file_size_mb, base.core.max_file_size_mb)
    &&& r.encodings.bat == or_else(overlay.encodings.bat, base.encodings.bat)
    &&& r.encodings.ps1 == or_else(overlay.encodings.ps1, base.encodings.ps1)
    &&& r.encodings.custom@ == base.encodings.custom@.union_prefer_right(overlay.encodings.custom@)
    &&& r.matching.warn_on_mismatch == or_else(
        overlay.matching.warn_on_mismatch,
        base.matching.warn_on_mismatch,
    )
    &&& r.matching.auto_correct_ext == or_else(
        overlay.matching.auto_correct_ext,
        base.matching.auto_correct_ext,
    )
    &&& r.matching.show_content_preview == or_else(
        overlay.matching.show_content_preview,
        base.matching.show_content_preview,
    )
    &&& r.behaviour.default_on_conflict == or_else(
        overlay.behaviour.default_on_conflict,
        base.behaviour.default_on_conflict,
    )
    &&& r.behaviour.default_on_mismatch == or_else(
        overlay.behaviour.default_on_mismatch,
        base.behaviour.default_on_mismatch,
    )
}

fn take_or<T>(o: Option<T>, base: T) -> (r: T)
    ensures
        r == or_else(o, base),
{
    match o {
        Some(v) => v,
        None => base,
    }
}

/// Lays the settings of one configuration file over `base`.
pub fn apply_partial(base: Config, overlay: PartialConfig) -> (r: Config)
    ensures
        overlaid(r, base, overlay),
{
    let Config { core, encodings, matching, behaviour } = base;
    let PartialConfig { core: oc, encodings: oe, matching: om, behaviour: ob } = overlay;
    let mut custom = encodings.custom;
    custom.union_prefer_right(oe.custom);
    Config {
        core: CoreConfig {
            default_encoding: take_or(oc.default_encoding, core.default_encoding),
            confirm_overwrite: take_or(oc.confirm_overwrite, core.confirm_overwrite),
            clipboard_timeout_ms: take_or(oc.clipboard_timeout_ms, core.clipboard_timeout_ms),
            max_file_size_mb: take_or(oc.max_file_size_mb, core.max_file_size_mb),
        },
        encodings: EncodingConfig {
            bat: take_or(oe.bat, encodings.bat),
            ps1: take_or(oe.ps1, encodings.ps1),
            custom,
        },
        matching: MatchingConfig {
            warn_on_mismatch: take_or(om.warn_on_mismatch, matching.warn_on_mismatch),
            auto_correct_ext: take_or(om.auto_correct_ext, matching.auto_correct_ext),
            show_content_preview: take_or(om.show_content_preview, matching.show_content_preview),
        },
        behaviour: BehaviourConfig {
            default_on_conflict: take_or(ob.default_on_conflict, behaviour.default_on_conflict),
            default_on_mismatch: take_or(ob.default_on_mismatch, behaviour.default_on_mismatch),
        },
    }
}

/// The value of a text setting: the project's if it sets it, else the
/// user's if it sets it, else the default.
pub open spec fn text_setting(project: Option<String>, user: Option<String>, default: Seq<char>) -> Seq<
    char,
> {
    match project {
        Some(v) => v@,
        None => match user {
            Some(v) => v@,
            None => default,
        },
    }
}

/// The value of a setting: the project's if it sets it, else the user's
/// if it sets it, else the default.
pub open spec fn setting<T>(project: Option<T>, user: Option<T>, default: T) -> T {
    or_else(project, or_else(user, default))
}

/// `r` is the configuration in force for the user-level file `user` and
/// the project-level file `project`: every setting from the project file
/// if it sets it, else from the user file if it sets it, else the default;
/// the custom encodings of both, the project's winning on shared extensions.
pub open spec fn layered(r: Config, user: PartialConfig, project: PartialConfig) -> bool {
    &&& r.core.default_encoding@ == text_setting(
        project.core.default_encoding,
        user.core.default_encoding,
        "utf8"@,
    )
    &&& r.core.confirm_overwrite == setting(
        project.core.confirm_overwrite,
        user.core.confirm_overwrite,
        true,
    )
    &&& r.core.clipboard_timeout_ms == setting(
        project.core.clipboard_timeout_ms,
        user.core.clipboard_timeout_ms,
        2000,
    )
    &&& r.core.max_file_size_mb == setting(
        project.core.max_file_size_mb,
        user.core.max_file_size_mb,
        100,
    )
    &&& r.encodings.bat@ == text_setting(project.encodings.bat, user.encodings.bat, "gbk"@)
    &&& r.encodings.ps1@ == text_setting(project.encodings.ps1, user.encodings.ps1, "utf8bom"@)
    &&& r.encodings.custom@ == user.encodings.custom@.union_prefer_right(project.encodings.custom@)
    &&& r.matching.warn_on_mismatch == setting(
        project.matching.warn_on_mismatch,
        user.matching.warn_on_mismatch,
        true,
    )
    &&& r.matching.auto_correct_ext == setting(
        project.matching.auto_correct_ext,
        user.matching.auto_correct_ext,
        false,
    )
    &&& r.matching.show_content_preview == setting(
        project.matching.show_content_preview,
        user.matching.show_content_preview,
        true,
    )
    &&& r.behaviour.default_on_conflict@ == text_setting(
        project.behaviour.default_on_conflict,
        user.behaviour.default_on_conflict,
        "ask"@,
    )
    &&& r.behaviour.default_on_mismatch@ == text_setting(
        project.behaviour.default_on_mismatch,
        user.behaviour.default_on_mismatch,
        "ask"@,
    )
}

impl Config {
    /// The configuration in force: the defaults, overridden setting by
    /// setting by the user-level file, overridden in turn by the
    /// project-level file (a missing or unreadable file sets nothing).
    pub fn load(user: PartialConfig, project: PartialConfig) -> (r: Config)
        ensures
            layered(r, user, project),
            sets_nothing(user) && sets_nothing(project) ==> is_default_config(r),
    {
        let base = Config::default();
        let after_user = apply_partial(base, user);
        assert(after_user.encodings.custom@ =~= user.encodings.custom@);
        let r = apply_partial(after_user, project);
        proof {
            if sets_nothing(user) && sets_nothing(project) {
                assert(r.encodings.custom@ =~= Map::<Seq<char>, String>::empty());
            }
        }
        r
    }
}

} // verus!
