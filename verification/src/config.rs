//! The textual configuration protocol.
//!
//! A configuration is plain text, tolerant of a leading byte-order mark.
//! Its first line is a magic token choosing one of two layouts: `kaku_s`,
//! whose second line is `ASSEMBLY::TYPE!METHOD`, or `kaku_l`, whose next
//! four non-empty lines are the hosting-config filename, the assembly
//! filename, the type name and the method name.  The remaining lines are
//! additional parameters of the form `<key> <value>`; unrecognised keys
//! and unparsable values are skipped silently, as a forward-compatibility
//! policy.  Relative names are resolved against the directory the
//! configuration file was found in.

use vstd::prelude::*;

use crate::paths::{
    join_path, lemma_concat_ends_with, lemma_join_keeps_suffix, parent_dir, spec_join, spec_parent,
};
use crate::text::{
    parse_u32, spec_ends_with, spec_lines, spec_parse_u32, spec_split_once, spec_split_once2,
    spec_strip_bom, split_lines, split_once, split_once2, str_eq, str_views, strip_bom,
};

verus! {

// ---------------------------------------------------------------------------
// Data model
// ---------------------------------------------------------------------------
/// The lifecycle event on which the graphics-layer strategy triggers the
/// bootstrap.
#[derive(Debug, Clone, Copy, PartialEq, Eq, Structural)]
pub enum VulkanEntryPoint {
    CreateDevice,
    CreateInstance,
}

/// Graphics-layer parameters from a `vulkan <version> <entry>` line.
#[derive(Debug, Clone, Copy, PartialEq, Eq, Structural)]
pub struct VulkanInitParams {
    pub loader_version: u32,
    pub entry: VulkanEntryPoint,
}

/// One additional-parameter line, kept in file order.
#[derive(Debug, Clone, PartialEq)]
pub enum AdditionalParameter {
    EnvironmentVariable(String, String),
    Hostfxr(String),
    DotNetRoot(String),
    Vulkan(VulkanInitParams),
}

/// Why a configuration text was rejected.
#[derive(Debug, Clone, PartialEq)]
pub enum ConfigError {
    /// The first line is absent or is not a known magic token; carries the
    /// offending line for diagnostics.
    MissingOrInvalidConfigMagic(Option<String>),
    /// The text is structurally short or lacks a required separator.
    InvalidConfig,
    /// No configuration file could be resolved.
    MissingConfig,
}

/// The parsed descriptor: what to load and how.
#[derive(Debug, Clone)]
pub struct LoadConfig {
    pub runtime_config: String,
    pub entry_type: String,
    pub entry_method: String,
    pub entry_assembly: String,
    pub additional_params: Vec<AdditionalParameter>,
}

// ---------------------------------------------------------------------------
// Mathematical model
// ---------------------------------------------------------------------------
/// Model of one additional parameter.
pub ghost enum ParamModel {
    EnvVar(Seq<char>, Seq<char>),
    HostingOverride(Seq<char>),
    RuntimeRoot(Seq<char>),
    Graphics(VulkanInitParams),
}

/// Model of a parse failure.
pub ghost enum ConfigErrorModel {
    MagicMissing(Option<Seq<char>>),
    Malformed,
    Missing,
}

/// Model of a parsed descriptor.
pub ghost struct ConfigModel {
    pub runtime_config: Seq<char>,
    pub entry_type: Seq<char>,
    pub entry_method: Seq<char>,
    pub entry_assembly: Seq<char>,
    pub params: Seq<ParamModel>,
}

impl View for AdditionalParameter {
    type V = ParamModel;

    open spec fn view(&self) -> ParamModel {
        match self {
            AdditionalParameter::EnvironmentVariable(k, v) => ParamModel::EnvVar(k@, v@),
            AdditionalParameter::Hostfxr(p) => ParamModel::HostingOverride(p@),
            AdditionalParameter::DotNetRoot(p) => ParamModel::RuntimeRoot(p@),
            AdditionalParameter::Vulkan(v) => ParamModel::Graphics(*v),
        }
    }
}

impl View for ConfigError {
    type V = ConfigErrorModel;

    open spec fn view(&self) -> ConfigErrorModel {
        match self {
            ConfigError::MissingOrInvalidConfigMagic(o) => ConfigErrorModel::MagicMissing(
                match o {
                    Some(s) => Some(s@),
                    None => None,
                },
            ),
            ConfigError::InvalidConfig => ConfigErrorModel::Malformed,
            ConfigError::MissingConfig => ConfigErrorModel::Missing,
        }
    }
}

/// The models of a sequence of parameters.
pub open spec fn param_views(v: Seq<AdditionalParameter>) -> Seq<ParamModel> {
    v.map_values(|p: AdditionalParameter| p@)
}

impl View for LoadConfig {
    type V = ConfigModel;

    open spec fn view(&self) -> ConfigModel {
        ConfigModel {
            runtime_config: self.runtime_config@,
            entry_type: self.entry_type@,
            entry_method: self.entry_method@,
            entry_assembly: self.entry_assembly@,
            params: param_views(self.additional_params@),
        }
    }
}

// ---------------------------------------------------------------------------
// The parse, as a specification
// ---------------------------------------------------------------------------
/// The entry-point tokens a `vulkan` line accepts.
pub open spec fn spec_entry_token(s: Seq<char>) -> Option<VulkanEntryPoint> {
    if s == "CreateInstance"@ || s == "vkCreateInstance"@ {
        Some(VulkanEntryPoint::CreateInstance)
    } else if s == "CreateDevice"@ || s == "vkCreateDevice"@ {
        Some(VulkanEntryPoint::CreateDevice)
    } else {
        None
    }
}

/// What one additional-parameter line produces: the key is the text before
/// the first space, and a line that matches no key, or whose value does not
/// parse, produces nothing.
pub open spec fn spec_line_param(dir: Seq<char>, line: Seq<char>) -> Option<ParamModel> {
    match spec_split_once(line, ' ') {
        None => None,
        Some((key, val)) => {
            if key == "env"@ {
                match spec_split_once(val, '=') {
                    Some((k, v)) => Some(ParamModel::EnvVar(k, v)),
                    None => None,
                }
            } else if key == "hostfxr"@ {
                Some(ParamModel::HostingOverride(spec_join(dir, val)))
            } else if key == "dotnetroot"@ {
                Some(ParamModel::RuntimeRoot(spec_join(dir, val)))
            } else if key == "vulkan"@ {
                match spec_split_once(val, ' ') {
                    None => None,
                    Some((ld, ep)) => match spec_parse_u32(ld) {
                        None => None,
                        Some(v) => match spec_entry_token(ep) {
                            None => None,
                            Some(e) => Some(
                                ParamModel::Graphics(
                                    VulkanInitParams { loader_version: v, entry: e },
                                ),
                            ),
                        },
                    },
                }
            } else {
                None
            }
        }
    }
}

/// The parameters produced by a sequence of lines, in line order.
pub open spec fn spec_params(dir: Seq<char>, lines: Seq<Seq<char>>) -> Seq<ParamModel>
    decreases lines.len(),
{
    if lines.len() == 0 {
        Seq::<ParamModel>::empty()
    } else {
        match spec_line_param(dir, lines[0]) {
            Some(p) => seq![p] + spec_params(dir, lines.drop_first()),
            None => spec_params(dir, lines.drop_first()),
        }
    }
}

/// Index of the first non-empty line at or after `from`.
pub open spec fn spec_first_nonempty(lines: Seq<Seq<char>>, from: int) -> Option<int>
    decreases lines.len() - from when 0 <= from <= lines.len()
{
    if from >= lines.len() {
        None
    } else if lines[from].len() > 0 {
        Some(from)
    } else {
        spec_first_nonempty(lines, from + 1)
    }
}

/// The short form: `ASSEMBLY::TYPE!METHOD` on the first body line.  The
/// assembly name yields both resolved paths, and the type name is
/// qualified with the assembly name.
pub open spec fn spec_parse_short(root: Seq<char>, body: Seq<Seq<char>>) -> Result<
    ConfigModel,
    ConfigErrorModel,
> {
    if body.len() == 0 {
        Err(ConfigErrorModel::Malformed)
    } else {
        match spec_split_once2(body[0], ':', ':') {
            None => Err(ConfigErrorModel::Malformed),
            Some((assembly, rest)) => match spec_split_once(rest, '!') {
                None => Err(ConfigErrorModel::Malformed),
                Some((cls, mth)) => match spec_parent(root) {
                    None => Err(ConfigErrorModel::Missing),
                    Some(dir) => Ok(
                        ConfigModel {
                            runtime_config: spec_join(dir, assembly + ".runtimeconfig.json"@),
                            entry_assembly: spec_join(dir, assembly + ".dll"@),
                            entry_type: cls + ", "@ + assembly,
                            entry_method: mth,
                            params: spec_params(dir, body.drop_first()),
                        },
                    ),
                },
            },
        }
    }
}

/// The long form: the first four non-empty body lines are the
/// hosting-config filename, the assembly filename, the type name and the
/// method name; everything after the fourth is additional parameters.
pub open spec fn spec_parse_long(root: Seq<char>, body: Seq<Seq<char>>) -> Result<
    ConfigModel,
    ConfigErrorModel,
> {
    match spec_first_nonempty(body, 0) {
        None => Err(ConfigErrorModel::Malformed),
        Some(i1) => match spec_first_nonempty(body, i1 + 1) {
            None => Err(ConfigErrorModel::Malformed),
            Some(i2) => match spec_first_nonempty(body, i2 + 1) {
                None => Err(ConfigErrorModel::Malformed),
                Some(i3) => match spec_first_nonempty(body, i3 + 1) {
                    None => Err(ConfigErrorModel::Malformed),
                    Some(i4) => match spec_parent(root) {
                        None => Err(ConfigErrorModel::Missing),
                        Some(dir) => Ok(
                            ConfigModel {
                                runtime_config: spec_join(dir, body[i1]),
                                entry_assembly: spec_join(dir, body[i2]),
                                entry_type: body[i3],
                                entry_method: body[i4],
                                params: spec_params(dir, body.skip(i4 + 1)),
                            },
                        ),
                    },
                },
            },
        },
    }
}

/// The whole parse: strip the byte-order mark, split into lines, dispatch
/// on the magic token, and reject anything else carrying the offending
/// first line.
pub open spec fn spec_try_parse(root: Seq<char>, input: Seq<char>) -> Result<
    ConfigModel,
    ConfigErrorModel,
> {
    let lines = spec_lines(spec_strip_bom(input));
    if lines.len() == 0 {
        Err(ConfigErrorModel::MagicMissing(None))
    } else if lines[0] == "kaku_s"@ {
        spec_parse_short(root, lines.drop_first())
    } else if lines[0] == "kaku_l"@ {
        spec_parse_long(root, lines.drop_first())
    } else {
        Err(ConfigErrorModel::MagicMissing(Some(lines[0])))
    }
}

// ---------------------------------------------------------------------------
// Parameter extraction, as specifications
// ---------------------------------------------------------------------------
/// The environment variables among the parameters, in file order.
pub open spec fn spec_env_vars(params: Seq<ParamModel>) -> Seq<(Seq<char>, Seq<char>)>
    decreases params.len(),
{
    if params.len() == 0 {
        Seq::<(Seq<char>, Seq<char>)>::empty()
    } else {
        match params[0] {
            ParamModel::EnvVar(k, v) => seq![(k, v)] + spec_env_vars(params.drop_first()),
            _ => spec_env_vars(params.drop_first()),
        }
    }
}

/// The first hosting-component override, if any: duplicates may occur and
/// the first one wins.
pub open spec fn spec_first_hostfxr(params: Seq<ParamModel>) -> Option<Seq<char>>
    decreases params.len(),
{
    if params.len() == 0 {
        None
    } else {
        match params[0] {
            ParamModel::HostingOverride(p) => Some(p),
            _ => spec_first_hostfxr(params.drop_first()),
        }
    }
}

/// The first runtime-root override, if any; the first one wins.
pub open spec fn spec_first_dotnetroot(params: Seq<ParamModel>) -> Option<Seq<char>>
    decreases params.len(),
{
    if params.len() == 0 {
        None
    } else {
        match params[0] {
            ParamModel::RuntimeRoot(p) => Some(p),
            _ => spec_first_dotnetroot(params.drop_first()),
        }
    }
}

/// The first graphics-layer parameters, if any; the first one wins.
pub open spec fn spec_first_vulkan(params: Seq<ParamModel>) -> Option<VulkanInitParams>
    decreases params.len(),
{
    if params.len() == 0 {
        None
    } else {
        match params[0] {
            ParamModel::Graphics(v) => Some(v),
            _ => spec_first_vulkan(params.drop_first()),
        }
    }
}

/// The models of a vector of environment-variable pairs.
pub open spec fn pair_views(v: Seq<(String, String)>) -> Seq<(Seq<char>, Seq<char>)> {
    v.map_values(|p: (String, String)| (p.0@, p.1@))
}

// ---------------------------------------------------------------------------
// Laws of the parse
// ---------------------------------------------------------------------------
/// Every descriptor parsed from a well-formed short-form text names an
/// assembly path ending in `.dll`, a hosting-config path ending in
/// `.runtimeconfig.json`, and a type qualified by the assembly name.
pub proof fn lemma_short_form_paths(root: Seq<char>, input: Seq<char>)
    requires
        spec_lines(spec_strip_bom(input)).len() > 0,
        spec_lines(spec_strip_bom(input))[0] == "kaku_s"@,
        spec_try_parse(root, input) is Ok,
    ensures
        spec_ends_with(spec_try_parse(root, input)->Ok_0.entry_assembly, ".dll"@),
        spec_ends_with(spec_try_parse(root, input)->Ok_0.runtime_config, ".runtimeconfig.json"@),
        exists|assembly: Seq<char>, cls: Seq<char>|
            spec_try_parse(root, input)->Ok_0.entry_type == cls + ", "@ + assembly,
{
    let body = spec_lines(spec_strip_bom(input)).drop_first();
    let (assembly, rest) = spec_split_once2(body[0], ':', ':')->Some_0;
    let (cls, mth) = spec_split_once(rest, '!')->Some_0;
    let dir = spec_parent(root)->Some_0;
    lemma_concat_ends_with(assembly, ".dll"@);
    lemma_join_keeps_suffix(dir, assembly + ".dll"@, ".dll"@);
    lemma_concat_ends_with(assembly, ".runtimeconfig.json"@);
    lemma_join_keeps_suffix(dir, assembly + ".runtimeconfig.json"@, ".runtimeconfig.json"@);
    assert(spec_try_parse(root, input)->Ok_0.entry_type == cls + ", "@ + assembly);
}

/// Any text whose first line is not a known magic token is rejected with
/// the magic-missing error, carrying that exact line, or its absence.
pub proof fn lemma_unrecognized_magic(root: Seq<char>, input: Seq<char>)
    requires
        spec_lines(spec_strip_bom(input)).len() == 0 || (spec_lines(spec_strip_bom(input))[0]
            != "kaku_s"@ && spec_lines(spec_strip_bom(input))[0] != "kaku_l"@),
    ensures
        spec_try_parse(root, input) == Err::<ConfigModel, ConfigErrorModel>(
            ConfigErrorModel::MagicMissing(
                if spec_lines(spec_strip_bom(input)).len() == 0 {
                    None
                } else {
                    Some(spec_lines(spec_strip_bom(input))[0])
                },
            ),
        ),
{
}

proof fn lemma_first_nonempty_in_range(lines: Seq<Seq<char>>, from: int)
    requires
        0 <= from <= lines.len(),
    ensures
        spec_first_nonempty(lines, from) matches Some(i) ==> from <= i < lines.len(),
    decreases lines.len() - from,
{
    if from < lines.len() && lines[from].len() == 0 {
        lemma_first_nonempty_in_range(lines, from + 1);
    }
}

/// A long-form text with fewer than four body lines is rejected as
/// malformed.
pub proof fn lemma_long_form_needs_four_lines(root: Seq<char>, input: Seq<char>)
    requires
        spec_lines(spec_strip_bom(input)).len() > 0,
        spec_lines(spec_strip_bom(input))[0] == "kaku_l"@,
        spec_lines(spec_strip_bom(input)).len() < 5,
    ensures
        spec_try_parse(root, input) == Err::<ConfigModel, ConfigErrorModel>(
            ConfigErrorModel::Malformed,
        ),
{
    reveal_strlit("kaku_s");
    reveal_strlit("kaku_l");
    assert("kaku_l"@[5] == 'l' && "kaku_s"@[5] == 's');
    let body = spec_lines(spec_strip_bom(input)).drop_first();
    assert(body.len() < 4);
    lemma_first_nonempty_in_range(body, 0);
    if let Some(i1) = spec_first_nonempty(body, 0) {
        lemma_first_nonempty_in_range(body, i1 + 1);
        if let Some(i2) = spec_first_nonempty(body, i1 + 1) {
            lemma_first_nonempty_in_range(body, i2 + 1);
            if let Some(i3) = spec_first_nonempty(body, i2 + 1) {
                lemma_first_nonempty_in_range(body, i3 + 1);
                if let Some(i4) = spec_first_nonempty(body, i3 + 1) {
                    assert(i4 >= 3 && i4 < body.len());
                    assert(false);
                }
            }
        }
    }
}

/// A line that matches no recognised key, or whose value does not parse,
/// has no effect on the parameters around it.
pub proof fn lemma_unknown_lines_ignored(
    dir: Seq<char>,
    pre: Seq<Seq<char>>,
    line: Seq<char>,
    post: Seq<Seq<char>>,
)
    requires
        spec_line_param(dir, line) is None,
    ensures
        spec_params(dir, pre + seq![line] + post) == spec_params(dir, pre + post),
    decreases pre.len(),
{
    if pre.len() == 0 {
        assert(pre + seq![line] + post =~= seq![line] + post);
        assert((seq![line] + post)[0] == line);
        assert((seq![line] + post).drop_first() =~= post);
        assert(pre + post =~= post);
    } else {
        lemma_unknown_lines_ignored(dir, pre.drop_first(), line, post);
        let s = pre + seq![line] + post;
        let t = pre + post;
        assert(s[0] == pre[0]);
        assert(t[0] == pre[0]);
        assert(s.drop_first() =~= pre.drop_first() + seq![line] + post);
        assert(t.drop_first() =~= pre.drop_first() + post);
    }
}

/// Environment variables are extracted in file order: a further `env`
/// parameter at the end of the list appears at the end of the extraction.
pub proof fn lemma_env_extraction_keeps_order(params: Seq<ParamModel>, k: Seq<char>, v: Seq<char>)
    ensures
        spec_env_vars(params.push(ParamModel::EnvVar(k, v))) == spec_env_vars(params).push((k, v)),
    decreases params.len(),
{
    let s = params.push(ParamModel::EnvVar(k, v));
    if params.len() == 0 {
        reveal_with_fuel(spec_env_vars, 2);
        assert(s[0] == ParamModel::EnvVar(k, v));
        assert(s.drop_first() =~= Seq::<ParamModel>::empty());
        assert(spec_env_vars(s) =~= spec_env_vars(params).push((k, v)));
    } else {
        lemma_env_extraction_keeps_order(params.drop_first(), k, v);
        assert(s[0] == params[0]);
        assert(s.drop_first() =~= params.drop_first().push(ParamModel::EnvVar(k, v)));
        assert(spec_env_vars(s.drop_first()) == spec_env_vars(params.drop_first()).push((k, v)));
        match params[0] {
            ParamModel::EnvVar(k0, v0) => {
                assert(spec_env_vars(s) == seq![(k0, v0)] + spec_env_vars(s.drop_first()));
                assert(spec_env_vars(params) == seq![(k0, v0)] + spec_env_vars(
                    params.drop_first(),
                ));
                assert(spec_env_vars(s) =~= spec_env_vars(params).push((k, v)));
            }
            _ => {
                assert(spec_env_vars(s) == spec_env_vars(s.drop_first()));
                assert(spec_env_vars(params) == spec_env_vars(params.drop_first()));
                assert(spec_env_vars(s) =~= spec_env_vars(params).push((k, v)));
            }
        }
    }
}

// ---------------------------------------------------------------------------
// The parser
// ---------------------------------------------------------------------------
impl LoadConfig {
    /// Assemble a descriptor from already-resolved parts.
    pub fn new(
        runtime_config: String,
        entry_assembly: String,
        entry_type: String,
        entry_method: String,
        additional_params: Vec<AdditionalParameter>,
    ) -> (c: LoadConfig)
        ensures
            c@ == (ConfigModel {
                runtime_config: runtime_config@,
                entry_type: entry_type@,
                entry_method: entry_method@,
                entry_assembly: entry_assembly@,
                params: param_views(additional_params@),
            }),
    {
        LoadConfig { runtime_config, entry_type, entry_method, entry_assembly, additional_params }
    }

    /// Parse a configuration text loaded from the path `root`, against
    /// whose directory relative names are resolved.
    pub fn try_parse(root: &str, input: &str) -> (r: Result<LoadConfig, ConfigError>)
        ensures
            r matches Ok(c) ==> spec_try_parse(root@, input@) == Ok::<
                ConfigModel,
                ConfigErrorModel,
            >(c@),
            r matches Err(e) ==> spec_try_parse(root@, input@) == Err::<
                ConfigModel,
                ConfigErrorModel,
            >(e@),
    {
        let text = strip_bom(input);
        let lines = split_lines(text.as_str());
        if lines.len() == 0 {
            return Err(ConfigError::MissingOrInvalidConfigMagic(None));
        }
        proof {
            assert(str_views(lines@)[0] == lines@[0]@);
        }
        if str_eq(lines[0].as_str(), "kaku_s") {
            Self::parse_short(root, &lines)
        } else if str_eq(lines[0].as_str(), "kaku_l") {
            Self::parse_long(root, &lines)
        } else {
            Err(ConfigError::MissingOrInvalidConfigMagic(Some(lines[0].clone())))
        }
    }

    /// The short form: `ASSEMBLY::TYPE!METHOD` on the line after the magic.
    fn parse_short(root: &str, lines: &Vec<String>) -> (r: Result<LoadConfig, ConfigError>)
        requires
            lines@.len() >= 1,
        ensures
            r matches Ok(c) ==> spec_parse_short(root@, str_views(lines@).drop_first()) == Ok::<
                ConfigModel,
                ConfigErrorModel,
            >(c@),
            r matches Err(e) ==> spec_parse_short(root@, str_views(lines@).drop_first()) == Err::<
                ConfigModel,
                ConfigErrorModel,
            >(e@),
    {
        let ghost body = str_views(lines@).drop_first();
        if lines.len() < 2 {
            return Err(ConfigError::InvalidConfig);
        }
        proof {
            assert(body[0] == lines@[1]@);
        }
        match split_once2(lines[1].as_str(), ':', ':') {
            None => Err(ConfigError::InvalidConfig),
            Some((assembly, rest)) => match split_once(rest.as_str(), '!') {
                None => Err(ConfigError::InvalidConfig),
                Some((cls, mth)) => match parent_dir(root) {
                    None => Err(ConfigError::MissingConfig),
                    Some(dir) => {
                        let rc_name = assembly.clone().concat(".runtimeconfig.json");
                        let dll_name = assembly.clone().concat(".dll");
                        let runtime_config = join_path(dir.as_str(), rc_name.as_str());
                        let entry_assembly = join_path(dir.as_str(), dll_name.as_str());
                        let entry_type = cls.concat(", ").concat(assembly.as_str());
                        let additional_params = Self::parse_additional(dir.as_str(), lines, 2);
                        proof {
                            assert(body.drop_first() =~= str_views(lines@).skip(2));
                        }
                        Ok(
                            LoadConfig {
                                runtime_config,
                                entry_type,
                                entry_method: mth,
                                entry_assembly,
                                additional_params,
                            },
                        )
                    }
                },
            },
        }
    }

    /// Index of the first non-empty line at or after `from` (line 0 is the
    /// magic token, so `from` starts at 1).
    fn first_nonempty(lines: &Vec<String>, from: usize) -> (r: Option<usize>)
        requires
            1 <= from <= lines@.len(),
        ensures
            r matches Some(i) ==> from <= i < lines@.len() && spec_first_nonempty(
                str_views(lines@).drop_first(),
                from - 1,
            ) == Some(i - 1) && lines@[i as int]@.len() > 0,
            r is None ==> spec_first_nonempty(str_views(lines@).drop_first(), from - 1) is None,
    {
        let ghost body = str_views(lines@).drop_first();
        let mut i: usize = from;
        while i < lines.len()
            invariant
                from <= i <= lines@.len(),
                1 <= from,
                body == str_views(lines@).drop_first(),
                spec_first_nonempty(body, from - 1) == spec_first_nonempty(body, i - 1),
            decreases lines@.len() - i,
        {
            proof {
                assert(body[i - 1] == lines@[i as int]@);
            }
            if !lines[i].as_str().is_empty() {
                return Some(i);
            }
            i = i + 1;
        }
        None
    }

    /// The long form: the four header fields on the first four non-empty
    /// lines after the magic.
    fn parse_long(root: &str, lines: &Vec<String>) -> (r: Result<LoadConfig, ConfigError>)
        requires
            lines@.len() >= 1,
        ensures
            r matches Ok(c) ==> spec_parse_long(root@, str_views(lines@).drop_first()) == Ok::<
                ConfigModel,
                ConfigErrorModel,
            >(c@),
            r matches Err(e) ==> spec_parse_long(root@, str_views(lines@).drop_first()) == Err::<
                ConfigModel,
                ConfigErrorModel,
            >(e@),
    {
        let ghost body = str_views(lines@).drop_first();
        let n = lines.len();
        proof {
            assert(lines@.len() == n);
        }
        let i1 = match Self::first_nonempty(lines, 1) {
            None => {
                return Err(ConfigError::InvalidConfig);
            }
            Some(i) => i,
        };
        let i2 = match Self::first_nonempty(lines, i1 + 1) {
            None => {
                return Err(ConfigError::InvalidConfig);
            }
            Some(i) => i,
        };
        let i3 = match Self::first_nonempty(lines, i2 + 1) {
            None => {
                return Err(ConfigError::InvalidConfig);
            }
            Some(i) => i,
        };
        let i4 = match Self::first_nonempty(lines, i3 + 1) {
            None => {
                return Err(ConfigError::InvalidConfig);
            }
            Some(i) => i,
        };
        match parent_dir(root) {
            None => Err(ConfigError::MissingConfig),
            Some(dir) => {
                proof {
                    assert(body[i1 - 1] == lines@[i1 as int]@);
                    assert(body[i2 - 1] == lines@[i2 as int]@);
                    assert(body[i3 - 1] == lines@[i3 as int]@);
                    assert(body[i4 - 1] == lines@[i4 as int]@);
                }
                let runtime_config = join_path(dir.as_str(), lines[i1].as_str());
                let entry_assembly = join_path(dir.as_str(), lines[i2].as_str());
                let entry_type = lines[i3].clone();
                let entry_method = lines[i4].clone();
                let additional_params = Self::parse_additional(dir.as_str(), lines, i4 + 1);
                proof {
                    assert(body.skip(i4 as int) =~= str_views(lines@).skip(i4 as int + 1));
                }
                Ok(
                    LoadConfig {
                        runtime_config,
                        entry_type,
                        entry_method,
                        entry_assembly,
                        additional_params,
                    },
                )
            }
        }
    }

    /// One additional-parameter line; lines that match nothing produce
    /// nothing, by design.
    fn parse_param(dir: &str, line: &str) -> (r: Option<AdditionalParameter>)
        ensures
            r matches Some(p) ==> spec_line_param(dir@, line@) == Some(p@),
            r is None ==> spec_line_param(dir@, line@) is None,
    {
        match split_once(line, ' ') {
            None => None,
            Some((key, val)) => {
                if str_eq(key.as_str(), "env") {
                    match split_once(val.as_str(), '=') {
                        Some((k, v)) => Some(AdditionalParameter::EnvironmentVariable(k, v)),
                        None => None,
                    }
                } else if str_eq(key.as_str(), "hostfxr") {
                    Some(AdditionalParameter::Hostfxr(join_path(dir, val.as_str())))
                } else if str_eq(key.as_str(), "dotnetroot") {
                    Some(AdditionalParameter::DotNetRoot(join_path(dir, val.as_str())))
                } else if str_eq(key.as_str(), "vulkan") {
                    match split_once(val.as_str(), ' ') {
                        None => None,
                        Some((ld, ep)) => match parse_u32(ld.as_str()) {
                            None => None,
                            Some(v) => {
                                let entry = if str_eq(ep.as_str(), "CreateInstance") || str_eq(
                                    ep.as_str(),
                                    "vkCreateInstance",
                                ) {
                                    Some(VulkanEntryPoint::CreateInstance)
                                } else if str_eq(ep.as_str(), "CreateDevice") || str_eq(
                                    ep.as_str(),
                                    "vkCreateDevice",
                                ) {
                                    Some(VulkanEntryPoint::CreateDevice)
                                } else {
                                    None
                                };
                                match entry {
                                    Some(e) => Some(
                                        AdditionalParameter::Vulkan(
                                            VulkanInitParams { loader_version: v, entry: e },
                                        ),
                                    ),
                                    None => None,
                                }
                            }
                        },
                    }
                } else {
                    None
                }
            }
        }
    }

    /// The additional parameters on the lines from `start` on.
    fn parse_additional(dir: &str, lines: &Vec<String>, start: usize) -> (r: Vec<
        AdditionalParameter,
    >)
        requires
            start <= lines@.len(),
        ensures
            param_views(r@) == spec_params(dir@, str_views(lines@).skip(start as int)),
    {
        let ghost all = str_views(lines@);
        let mut out: Vec<AdditionalParameter> = Vec::new();
        let mut i: usize = start;
        proof {
            assert(param_views(out@) =~= Seq::<ParamModel>::empty());
            assert(Seq::<ParamModel>::empty() + spec_params(dir@, all.skip(start as int))
                =~= spec_params(dir@, all.skip(start as int)));
        }
        while i < lines.len()
            invariant
                start <= i <= lines@.len(),
                all == str_views(lines@),
                spec_params(dir@, all.skip(start as int)) == param_views(out@) + spec_params(
                    dir@,
                    all.skip(i as int),
                ),
            decreases lines@.len() - i,
        {
            let ghost rest = all.skip(i as int);
            proof {
                assert(rest[0] == lines@[i as int]@);
                assert(rest.drop_first() =~= all.skip(i as int + 1));
            }
            match Self::parse_param(dir, lines[i].as_str()) {
                Some(param) => {
                    proof {
                        assert(param_views(out@.push(param)) =~= param_views(out@).push(param@));
                        assert(param_views(out@) + (seq![param@] + spec_params(
                            dir@,
                            all.skip(i as int + 1),
                        )) =~= param_views(out@).push(param@) + spec_params(
                            dir@,
                            all.skip(i as int + 1),
                        ));
                    }
                    out.push(param);
                }
                None => {}
            }
            i = i + 1;
        }
        proof {
            assert(all.skip(lines@.len() as int).len() == 0);
            assert(param_views(out@) + spec_params(dir@, all.skip(lines@.len() as int))
                =~= param_views(out@));
        }
        out
    }

    /// The environment variables among the parameters, in file order.
    pub fn environment_variables(&self) -> (r: Vec<(String, String)>)
        ensures
            pair_views(r@) == spec_env_vars(self@.params),
    {
        let ghost params = param_views(self.additional_params@);
        let mut out: Vec<(String, String)> = Vec::new();
        let mut i: usize = 0;
        proof {
            assert(params.skip(0) =~= params);
            assert(pair_views(out@) =~= Seq::<(Seq<char>, Seq<char>)>::empty());
            assert(Seq::<(Seq<char>, Seq<char>)>::empty() + spec_env_vars(params) =~= spec_env_vars(
                params,
            ));
        }
        while i < self.additional_params.len()
            invariant
                0 <= i <= self.additional_params@.len(),
                params == param_views(self.additional_params@),
                spec_env_vars(params) == pair_views(out@) + spec_env_vars(
                    params.skip(i as int),
                ),
            decreases self.additional_params@.len() - i,
        {
            let ghost rest = params.skip(i as int);
            proof {
                assert(rest[0] == self.additional_params@[i as int]@);
                assert(rest.drop_first() =~= params.skip(i as int + 1));
            }
            match &self.additional_params[i] {
                AdditionalParameter::EnvironmentVariable(k, v) => {
                    let pair = (k.clone(), v.clone());
                    proof {
                        assert(pair_views(out@.push(pair)) =~= pair_views(out@).push(
                            (pair.0@, pair.1@),
                        ));
                        assert(pair_views(out@) + (seq![(pair.0@, pair.1@)] + spec_env_vars(
                            params.skip(i as int + 1),
                        )) =~= pair_views(out@).push((pair.0@, pair.1@)) + spec_env_vars(
                            params.skip(i as int + 1),
                        ));
                    }
                    out.push(pair);
                }
                _ => {}
            }
            i = i + 1;
        }
        proof {
            assert(params.skip(self.additional_params@.len() as int).len() == 0);
            assert(pair_views(out@) + spec_env_vars(
                params.skip(self.additional_params@.len() as int),
            ) =~= pair_views(out@));
        }
        out
    }

    /// The first hosting-component override, if any.
    pub fn hostfxr_path(&self) -> (r: Option<String>)
        ensures
            r matches Some(p) ==> spec_first_hostfxr(self@.params) == Some(p@),
            r is None ==> spec_first_hostfxr(self@.params) is None,
    {
        let ghost params = param_views(self.additional_params@);
        let mut i: usize = 0;
        proof {
            assert(params.skip(0) =~= params);
        }
        while i < self.additional_params.len()
            invariant
                0 <= i <= self.additional_params@.len(),
                params == param_views(self.additional_params@),
                spec_first_hostfxr(params) == spec_first_hostfxr(params.skip(i as int)),
            decreases self.additional_params@.len() - i,
        {
            let ghost rest = params.skip(i as int);
            proof {
                assert(rest[0] == self.additional_params@[i as int]@);
                assert(rest.drop_first() =~= params.skip(i as int + 1));
            }
            match &self.additional_params[i] {
                AdditionalParameter::Hostfxr(p) => {
                    return Some(p.clone());
                }
                _ => {}
            }
            i = i + 1;
        }
        None
    }

    /// The first runtime-root override, if any.
    pub fn dotnetroot_path(&self) -> (r: Option<String>)
        ensures
            r matches Some(p) ==> spec_first_dotnetroot(self@.params) == Some(p@),
            r is None ==> spec_first_dotnetroot(self@.params) is None,
    {
        let ghost params = param_views(self.additional_params@);
        let mut i: usize = 0;
        proof {
            assert(params.skip(0) =~= params);
        }
        while i < self.additional_params.len()
            invariant
                0 <= i <= self.additional_params@.len(),
                params == param_views(self.additional_params@),
                spec_first_dotnetroot(params) == spec_first_dotnetroot(params.skip(i as int)),
            decreases self.additional_params@.len() - i,
        {
            let ghost rest = params.skip(i as int);
            proof {
                assert(rest[0] == self.additional_params@[i as int]@);
                assert(rest.drop_first() =~= params.skip(i as int + 1));
            }
            match &self.additional_params[i] {
                AdditionalParameter::DotNetRoot(p) => {
                    return Some(p.clone());
                }
                _ => {}
            }
            i = i + 1;
        }
        None
    }

    /// The first graphics-layer parameters, if any.
    pub fn vulkan(&self) -> (r: Option<VulkanInitParams>)
        ensures
            r == spec_first_vulkan(self@.params),
    {
        let ghost params = param_views(self.additional_params@);
        let mut i: usize = 0;
        proof {
            assert(params.skip(0) =~= params);
        }
        while i < self.additional_params.len()
            invariant
                0 <= i <= self.additional_params@.len(),
                params == param_views(self.additional_params@),
                spec_first_vulkan(params) == spec_first_vulkan(params.skip(i as int)),
            decreases self.additional_params@.len() - i,
        {
            let ghost rest = params.skip(i as int);
            proof {
                assert(rest[0] == self.additional_params@[i as int]@);
                assert(rest.drop_first() =~= params.skip(i as int + 1));
            }
            match &self.additional_params[i] {
                AdditionalParameter::Vulkan(v) => {
                    return Some(*v);
                }
                _ => {}
            }
            i = i + 1;
        }
        proof {
            assert(params.skip(self.additional_params@.len() as int).len() == 0);
        }
        None
    }
}

} // verus!
