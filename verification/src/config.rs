//! Configuration of the application: models, tools, sandbox, skills and
//! memory, and the expansion of environment variables in a
//! configuration's text.
//!
//! Reading the file and parsing YAML are the caller's part; the library
//! holds the parsed configuration, caches it, expands `${NAME}` and
//! `$NAME` against a snapshot of the environment, and says which error a
//! failed load reports.
use crate::error::{ConfigError, HarnessError};
use crate::strmap::StrMap;
use crate::text::{
    char_is_alphanumeric, chars_of, concat2, concat3, is_alphanumeric_char, owned, push_char,
    push_str, str_eq, string_of_range, utf8_width, char_width,
};
use vstd::prelude::*;

verus! {

// ---------------------------------------------------------------------
// Settings: the provider-specific part of a model's or tool's entry
// ---------------------------------------------------------------------

/// A setting's value, as far as the library reads it: a string, a
/// boolean, or anything else.
#[derive(Debug)]
pub enum SettingValue {
    /// A YAML string.
    Str(String),
    /// A YAML boolean.
    Bool(bool),
    /// Any other YAML value.
    Other,
}

/// The abstract value of a setting.
pub enum SettingValueModel {
    /// A string.
    Str(Seq<char>),
    /// A boolean.
    Bool(bool),
    /// Anything else.
    Other,
}

impl View for SettingValue {
    type V = SettingValueModel;

    open spec fn view(&self) -> SettingValueModel {
        match self {
            SettingValue::Str(s) => SettingValueModel::Str(s@),
            SettingValue::Bool(b) => SettingValueModel::Bool(*b),
            SettingValue::Other => SettingValueModel::Other,
        }
    }
}

/// A YAML mapping of settings, by its string keys in order.
#[derive(Debug)]
pub struct Settings {
    /// The entries.
    pub entries: Vec<(String, SettingValue)>,
}

/// The views of a list of settings.
pub open spec fn setting_views(e: Seq<(String, SettingValue)>) -> Seq<(Seq<char>, SettingValueModel)> {
    e.map_values(|p: (String, SettingValue)| (p.0@, p.1@))
}

impl View for Settings {
    type V = Seq<(Seq<char>, SettingValueModel)>;

    open spec fn view(&self) -> Seq<(Seq<char>, SettingValueModel)> {
        setting_views(self.entries@)
    }
}

/// The value of the first entry with key `key`.
pub open spec fn setting(e: Seq<(Seq<char>, SettingValueModel)>, key: Seq<char>) -> Option<
    SettingValueModel,
>
    decreases e.len(),
{
    if e.len() == 0 {
        None
    } else if e[0].0 == key {
        Some(e[0].1)
    } else {
        setting(e.drop_first(), key)
    }
}

/// The string under `key`, if there is one.
pub open spec fn setting_str(e: Seq<(Seq<char>, SettingValueModel)>, key: Seq<char>) -> Option<
    Seq<char>,
> {
    match setting(e, key) {
        Some(SettingValueModel::Str(s)) => Some(s),
        _ => None,
    }
}

/// The boolean under `key`, if there is one.
pub open spec fn setting_bool(e: Seq<(Seq<char>, SettingValueModel)>, key: Seq<char>) -> Option<
    bool,
> {
    match setting(e, key) {
        Some(SettingValueModel::Bool(b)) => Some(b),
        _ => None,
    }
}

impl Settings {
    /// Position of the first entry with key `key`.
    fn position(&self, key: &str) -> (r: Option<usize>)
        ensures
            r matches Some(i) ==> i < self.entries@.len() && setting(self@, key@) == Some(
                self.entries@[i as int].1@,
            ),
            r is None ==> setting(self@, key@) is None,
    {
        let mut i: usize = 0;
        assert(self@.skip(0) == self@);
        while i < self.entries.len()
            invariant
                i <= self.entries@.len(),
                setting(self@, key@) == setting(self@.skip(i as int), key@),
            decreases self.entries.len() - i,
        {
            assert(self@.skip(i as int).drop_first() == self@.skip(i + 1));
            if str_eq(self.entries[i].0.as_str(), key) {
                return Some(i);
            }
            i += 1;
        }
        None
    }

    /// The string under `key`, if the first entry with that key holds a
    /// string.
    pub fn get_str(&self, key: &str) -> (r: Option<&str>)
        ensures
            r matches Some(s) ==> setting_str(self@, key@) == Some(s@),
            r is None ==> setting_str(self@, key@) is None,
    {
        match self.position(key) {
            Some(i) => match &self.entries[i].1 {
                SettingValue::Str(s) => Some(s.as_str()),
                _ => None,
            },
            None => None,
        }
    }

    /// The boolean under `key`, if the first entry with that key holds a
    /// boolean.
    pub fn get_bool(&self, key: &str) -> (r: Option<bool>)
        ensures
            r == setting_bool(self@, key@),
    {
        match self.position(key) {
            Some(i) => match &self.entries[i].1 {
                SettingValue::Bool(b) => Some(*b),
                _ => None,
            },
            None => None,
        }
    }
}

// ---------------------------------------------------------------------
// The configuration
// ---------------------------------------------------------------------

/// Configuration of one model.
#[derive(Debug)]
pub struct ModelConfig {
    /// The model's name.
    pub name: String,
    /// The provider, as `module:Class`.
    pub provider: String,
    /// Whether the model supports thinking.
    pub supports_thinking: bool,
    /// Whether the model supports vision.
    pub supports_vision: bool,
    /// Provider-specific settings.
    pub config: Option<Settings>,
}

/// Configuration of one tool.
#[derive(Debug)]
pub struct ToolConfig {
    /// The tool's name.
    pub name: String,
    /// The provider.
    pub provider: String,
    /// The tool's group.
    pub group: Option<String>,
    /// Provider-specific settings.
    pub config: Option<Settings>,
}

/// Sandbox configuration.
#[derive(Debug)]
pub struct SandboxConfig {
    /// The provider (`local` or `docker`).
    pub provider: String,
    /// The workspace path.
    pub workspace_path: Option<String>,
}

impl Default for SandboxConfig {
    fn default() -> (c: Self)
        ensures
            c.provider@ == "local"@,
            c.workspace_path is None,
    {
        SandboxConfig { provider: owned("local"), workspace_path: None }
    }
}

/// Skills configuration.
#[derive(Debug)]
pub struct SkillsConfig {
    /// Where skills are on the host.
    pub path: Option<String>,
    /// Where skills are in the container.
    pub container_path: Option<String>,
}

impl Default for SkillsConfig {
    fn default() -> (c: Self)
        ensures
            c.path matches Some(p) && p@ == "skills"@,
            c.container_path matches Some(p) && p@ == "/mnt/skills"@,
    {
        SkillsConfig { path: Some(owned("skills")), container_path: Some(owned("/mnt/skills")) }
    }
}

/// Memory configuration.
#[derive(Debug)]
pub struct MemoryConfig {
    /// Whether memory is on.
    pub enabled: bool,
    /// Whether memory is injected into prompts.
    pub injection_enabled: bool,
    /// Where memory is stored.
    pub storage_path: Option<String>,
    /// Seconds to wait before an update.
    pub debounce_seconds: u64,
}

impl Default for MemoryConfig {
    fn default() -> (c: Self)
        ensures
            !c.enabled,
            !c.injection_enabled,
            c.storage_path is None,
            c.debounce_seconds == 30,
    {
        MemoryConfig {
            enabled: false,
            injection_enabled: false,
            storage_path: None,
            debounce_seconds: 30,
        }
    }
}

/// The application's configuration.
#[derive(Debug)]
pub struct AppConfig {
    /// Models.
    pub models: Vec<ModelConfig>,
    /// Tools.
    pub tools: Vec<ToolConfig>,
    /// Sandbox.
    pub sandbox: SandboxConfig,
    /// Skills.
    pub skills: SkillsConfig,
    /// Memory.
    pub memory: MemoryConfig,
    /// Version of the configuration's format.
    pub config_version: Option<u32>,
}

impl Default for AppConfig {
    fn default() -> (c: Self)
        ensures
            c.models@.len() == 0,
            c.tools@.len() == 0,
            c.sandbox.provider@ == "local"@,
            c.sandbox.workspace_path is None,
            c.skills.path matches Some(p) && p@ == "skills"@,
            c.skills.container_path matches Some(p) && p@ == "/mnt/skills"@,
            !c.memory.enabled,
            !c.memory.injection_enabled,
            c.memory.storage_path is None,
            c.memory.debounce_seconds == 30,
            c.config_version == Some(1u32),
    {
        AppConfig {
            models: Vec::new(),
            tools: Vec::new(),
            sandbox: SandboxConfig::default(),
            skills: SkillsConfig::default(),
            memory: MemoryConfig::default(),
            config_version: Some(1),
        }
    }
}

impl AppConfig {
    /// The first model named `name`.
    pub fn get_model_config(&self, name: &str) -> (r: Option<&ModelConfig>)
        ensures
            r matches Some(m) ==> exists|i: int|
                0 <= i < self.models@.len() && self.models@[i] == *m && m.name@ == name@
                    && forall|j: int| 0 <= j < i ==> self.models@[j].name@ != name@,
            r is None ==> forall|i: int|
                0 <= i < self.models@.len() ==> self.models@[i].name@ != name@,
    {
        let mut i: usize = 0;
        while i < self.models.len()
            invariant
                i <= self.models@.len(),
                forall|j: int| 0 <= j < i ==> self.models@[j].name@ != name@,
            decreases self.models.len() - i,
        {
            if str_eq(self.models[i].name.as_str(), name) {
                return Some(&self.models[i]);
            }
            i += 1;
        }
        None
    }
}

/// Model capabilities, as a configuration states them.
#[derive(Debug, Clone, Copy, PartialEq, Eq, Hash, Structural)]
pub struct ModelCapabilities {
    /// Supports extended thinking.
    pub thinking: bool,
    /// Supports vision input.
    pub vision: bool,
    /// Supports function calling.
    pub function_calling: bool,
    /// Supports streaming.
    pub streaming: bool,
}

impl ModelCapabilities {
    /// Function calling and streaming, without thinking or vision.
    pub fn new() -> (c: Self)
        ensures
            c == (ModelCapabilities {
                thinking: false,
                vision: false,
                function_calling: true,
                streaming: true,
            }),
    {
        ModelCapabilities { thinking: false, vision: false, function_calling: true, streaming: true }
    }

    /// With thinking.
    pub fn with_thinking(self) -> (c: Self)
        ensures
            c == (ModelCapabilities { thinking: true, ..self }),
    {
        ModelCapabilities { thinking: true, ..self }
    }

    /// With vision.
    pub fn with_vision(self) -> (c: Self)
        ensures
            c == (ModelCapabilities { vision: true, ..self }),
    {
        ModelCapabilities { vision: true, ..self }
    }

    /// Whether thinking is supported.
    pub fn supports_thinking(&self) -> (r: bool)
        ensures
            r == self.thinking,
    {
        self.thinking
    }

    /// Whether vision is supported.
    pub fn supports_vision(&self) -> (r: bool)
        ensures
            r == self.vision,
    {
        self.vision
    }
}

impl Default for ModelCapabilities {
    fn default() -> (c: Self)
        ensures
            c == (ModelCapabilities {
                thinking: false,
                vision: false,
                function_calling: true,
                streaming: true,
            }),
    {
        Self::new()
    }
}

// ---------------------------------------------------------------------
// The cache of the loaded configuration
// ---------------------------------------------------------------------

/// The configuration loaded last, kept until cleared.
#[derive(Debug)]
pub struct ConfigCache {
    cached: Option<std::sync::Arc<AppConfig>>,
}

impl ConfigCache {
    /// The cached configuration, if any.
    pub closed spec fn contents(&self) -> Option<AppConfig> {
        match self.cached {
            Some(a) => Some(*a),
            None => None,
        }
    }

    /// Whether a configuration is cached.
    pub open spec fn is_filled(&self) -> bool {
        self.contents() is Some
    }

    /// An empty cache.
    pub fn new() -> (c: Self)
        ensures
            c.contents() is None,
    {
        ConfigCache { cached: None }
    }

    /// The cached configuration, if any.
    pub fn get(&self) -> (r: Option<&std::sync::Arc<AppConfig>>)
        ensures
            match r {
                Some(c) => self.contents() == Some(**c),
                None => self.contents() is None,
            },
    {
        match &self.cached {
            Some(c) => Some(c),
            None => None,
        }
    }

    /// Caches a configuration, replacing any other.
    pub fn store(&mut self, config: std::sync::Arc<AppConfig>)
        ensures
            final(self).contents() == Some(*config),
    {
        self.cached = Some(config);
    }
}

/// Empties the cache, so that the next load reads the file again.
pub fn clear_config_cache(cache: &mut ConfigCache)
    ensures
        final(cache).contents() is None,
{
    cache.cached = None;
}

/// The error when the configuration file cannot be read: `FileNotFound`
/// when it does not exist, else a load error with the reader's message.
pub fn read_error(path: &str, not_found: bool, detail: &str) -> (e: HarnessError)
    ensures
        not_found ==> (e matches HarnessError::Config(ConfigError::FileNotFound(p)) && p@ == path@),
        !not_found ==> (e matches HarnessError::Config(ConfigError::LoadError(p, m)) && p@ == path@
            && m@ == "Read error: "@ + detail@),
{
    if not_found {
        HarnessError::Config(ConfigError::FileNotFound(owned(path)))
    } else {
        HarnessError::Config(ConfigError::LoadError(owned(path), concat2("Read error: ", detail)))
    }
}

/// The error when the configuration's YAML cannot be parsed.
pub fn parse_error(path: &str, detail: &str) -> (e: HarnessError)
    ensures
        e matches HarnessError::Config(ConfigError::LoadError(p, m)) && p@ == path@ && m@
            == "Parse error: "@ + detail@,
{
    HarnessError::Config(ConfigError::LoadError(owned(path), concat2("Parse error: ", detail)))
}

// ---------------------------------------------------------------------
// Environment variables
// ---------------------------------------------------------------------

/// The regular expression of a braced reference, `${NAME}`.
pub open spec fn braced_pattern() -> Seq<char> {
    "\\$\\{([A-Za-z_][A-Za-z0-9_]*)\\}"@
}

/// The regular expression of a braced reference.
fn braced_var_pattern() -> (r: &'static str)
    ensures
        r@ == braced_pattern(),
{
    "\\$\\{([A-Za-z_][A-Za-z0-9_]*)\\}"
}

/// A character that may start a variable's name in a braced reference:
/// an ASCII letter or `_`.
pub open spec fn name_start(c: char) -> bool {
    ('a' <= c <= 'z') || ('A' <= c <= 'Z') || c == '_'
}

/// A character of a variable's name in a braced reference: an ASCII
/// letter, digit or `_`.
pub open spec fn name_char(c: char) -> bool {
    name_start(c) || ('0' <= c <= '9')
}

/// The number of name characters at the start of `s`.
pub open spec fn name_run(s: Seq<char>) -> nat
    decreases s.len(),
{
    if s.len() > 0 && name_char(s[0]) {
        1 + name_run(s.skip(1))
    } else {
        0
    }
}

/// The name of the braced reference at the start of `s`, if one is
/// there: `${`, a name (a letter or `_`, then letters, digits and `_`),
/// and `}`; the text the pattern `braced_pattern()` matches there.
pub open spec fn braced_ref(s: Seq<char>) -> Option<Seq<char>> {
    if s.len() >= 2 && s[0] == '$' && s[1] == '{' {
        let rest = s.skip(2);
        let n = name_run(rest);
        if n > 0 && name_start(rest[0]) && n < rest.len() && rest[n as int] == '}' {
            Some(rest.take(n as int))
        } else {
            None
        }
    } else {
        None
    }
}

/// The braced pass over `s`: from the left, each braced reference
/// `${NAME}` becomes the variable's value, or stays as written when the
/// variable is not set; all other text stays.
pub open spec fn braced_pass(s: Seq<char>, env: Map<Seq<char>, Seq<char>>) -> Seq<char>
    decreases s.len(),
{
    if s.len() == 0 {
        s
    } else {
        match braced_ref(s) {
            Some(name) => braced_spec(env, name) + braced_pass(s.skip(name.len() + 3int), env),
            None => seq![s[0]] + braced_pass(s.skip(1), env),
        }
    }
}

/// `regex::Regex::new(pattern)` for the braced reference's pattern, then
/// `Regex::replace_all` over `input`, each match replaced by the
/// library's `braced_value` of its first capture group.  The pattern is
/// a valid regular expression well under the size limits, so it
/// compiles.  Its matches, taken leftmost first and without overlap,
/// are the braced references of `braced_ref` (the name is the whole run
/// of name characters, since `}` is not one), so the replaced text is
/// `braced_pass` of the input.
#[verifier::external_body]
fn regex_replace_vars(pattern: &str, input: &str, env: &StrMap<String>) -> (r: Result<
    String,
    String,
>)
    requires
        pattern@ == braced_pattern(),
    ensures
        r is Ok,
        r matches Ok(t) ==> t@ == braced_pass(input@, env@),
{
    match regex::Regex::new(pattern) {
        Ok(re) => Ok(
            re.replace_all(input, |caps: &regex::Captures| braced_value(env, &caps[1])).into_owned(),
        ),
        Err(e) => Err(e.to_string()),
    }
}

/// What a braced reference to `name` becomes: the variable's value, or
/// the reference itself when the variable is not set.
pub open spec fn braced_spec(env: Map<Seq<char>, Seq<char>>, name: Seq<char>) -> Seq<char> {
    if env.contains_key(name) {
        env[name]
    } else {
        "${"@ + name + "}"@
    }
}

/// The value of variable `name`, or `${name}` when it is not set.
pub fn braced_value(env: &StrMap<String>, name: &str) -> (r: String)
    ensures
        r@ == braced_spec(env@, name@),
{
    match env.get(name) {
        Some(v) => v.clone(),
        None => concat3("${", name, "}"),
    }
}

/// A character of an unbraced variable name: alphanumeric or `_`.
pub open spec fn var_char(c: char) -> bool {
    is_alphanumeric_char(c) || c == '_'
}

/// The longest prefix of `s` made of name characters.
pub open spec fn var_name_prefix(s: Seq<char>) -> Seq<char>
    decreases s.len(),
{
    if s.len() > 0 && var_char(s[0]) {
        seq![s[0]] + var_name_prefix(s.drop_first())
    } else {
        Seq::empty()
    }
}

/// Looks for the longest set variable among the first `k` characters of
/// `name`, shortening it byte by byte: `Some(Some(j))` when the first
/// `j` characters name a set variable, `Some(None)` when none does, and
/// `None` when shortening would cut inside a character (which is where
/// the byte-wise search fails).
pub open spec fn set_prefix(name: Seq<char>, env: Map<Seq<char>, Seq<char>>, k: int) -> Option<
    Option<int>,
>
    decreases k,
{
    if k <= 0 {
        Some(None)
    } else if env.contains_key(name.take(k)) {
        Some(Some(k))
    } else if utf8_width(name[k - 1]) > 1 {
        None
    } else {
        set_prefix(name, env, k - 1)
    }
}

/// `c` in front of a result, if there is one.
pub open spec fn prepend(p: Seq<char>, r: Option<Seq<char>>) -> Option<Seq<char>> {
    match r {
        Some(t) => Some(p + t),
        None => None,
    }
}

/// `s` with each `$NAME` replaced by the value of the longest prefix of
/// `NAME` that is a set variable, and kept where none is; `None` where
/// the search would cut inside a character.
pub open spec fn unbraced_expansion(s: Seq<char>, env: Map<Seq<char>, Seq<char>>) -> Option<
    Seq<char>,
>
    decreases s.len(),
{
    if s.len() == 0 {
        Some(Seq::empty())
    } else if s[0] != '$' {
        prepend(seq![s[0]], unbraced_expansion(s.drop_first(), env))
    } else {
        let name = var_name_prefix(s.drop_first());
        match set_prefix(name, env, name.len() as int) {
            None => None,
            Some(None) => prepend(seq!['$'], unbraced_expansion(s.drop_first(), env)),
            Some(Some(k)) => if 0 < k <= name.len() && k + 1 <= s.len() {
                prepend(env[name.take(k)], unbraced_expansion(s.skip(k + 1), env))
            } else {
                None
            },
        }
    }
}

proof fn lemma_var_name_prefix(s: Seq<char>)
    ensures
        var_name_prefix(s).len() <= s.len(),
        forall|i: int| 0 <= i < var_name_prefix(s).len() ==> var_name_prefix(s)[i] == s[i],
        var_name_prefix(s).len() < s.len() ==> !var_char(s[var_name_prefix(s).len() as int]),
        forall|i: int| 0 <= i < var_name_prefix(s).len() ==> var_char(s[i]),
    decreases s.len(),
{
    if s.len() > 0 && var_char(s[0]) {
        lemma_var_name_prefix(s.drop_first());
        let t = var_name_prefix(s.drop_first());
        assert forall|i: int| 0 <= i < var_name_prefix(s).len() implies var_name_prefix(s)[i]
            == s[i] by {
            if i > 0 {
                assert(var_name_prefix(s)[i] == t[i - 1]);
                assert(t[i - 1] == s.drop_first()[i - 1]);
            }
        }
        assert forall|i: int| 0 <= i < var_name_prefix(s).len() implies var_char(s[i]) by {
            if i > 0 {
                assert(s[i] == s.drop_first()[i - 1]);
            }
        }
    }
}

proof fn lemma_set_prefix(name: Seq<char>, env: Map<Seq<char>, Seq<char>>, k: int)
    requires
        0 <= k <= name.len(),
    ensures
        set_prefix(name, env, k) matches Some(Some(j)) ==> 0 < j <= k && env.contains_key(
            name.take(j),
        ),
    decreases k,
{
    if k > 0 {
        lemma_set_prefix(name, env, k - 1);
    }
}

/// The characters of `s` from `i` that make a variable name.
fn name_at(s: &Vec<char>, i: usize) -> (r: Vec<char>)
    requires
        i <= s@.len(),
    ensures
        r@ == var_name_prefix(s@.skip(i as int)),
{
    proof {
        lemma_var_name_prefix(s@.skip(i as int));
    }
    let mut j: usize = i;
    while j < s.len() && (char_is_alphanumeric(s[j]) || s[j] == '_')
        invariant
            i <= j <= s@.len(),
            j - i <= var_name_prefix(s@.skip(i as int)).len(),
            forall|q: int| i <= q < j ==> var_char(s@[q]),
        decreases s.len() - j,
    {
        proof {
            let t = s@.skip(i as int);
            let p = var_name_prefix(t);
            lemma_var_name_prefix(t);
            if j - i == p.len() {
                assert(t[j - i] == s@[j as int]);
            }
        }
        j += 1;
    }
    proof {
        let t = s@.skip(i as int);
        let p = var_name_prefix(t);
        lemma_var_name_prefix(t);
        if j - i < p.len() {
            assert(var_char(t[j - i]));
            assert(t[j - i] == s@[j as int]);
        }
        assert(j - i == p.len());
    }
    let r = slice_chars(s, i, j);
    proof {
        let t = s@.skip(i as int);
        lemma_var_name_prefix(t);
        assert(r@ =~= var_name_prefix(t));
    }
    r
}

/// The characters of `s` from `a` to `b`.
fn slice_chars(s: &Vec<char>, a: usize, b: usize) -> (r: Vec<char>)
    requires
        a <= b <= s@.len(),
    ensures
        r@ == s@.subrange(a as int, b as int),
{
    let mut r: Vec<char> = Vec::new();
    let mut i: usize = a;
    while i < b
        invariant
            a <= i <= b <= s@.len(),
            r@ == s@.subrange(a as int, i as int),
        decreases b - i,
    {
        r.push(s[i]);
        assert(r@ =~= s@.subrange(a as int, i + 1));
        i += 1;
    }
    r
}

/// The longest set prefix of `name`, as `set_prefix` describes it.
fn find_set_prefix(name: &Vec<char>, env: &StrMap<String>) -> (r: Option<Option<usize>>)
    ensures
        match r {
            Some(Some(j)) => set_prefix(name@, env@, name@.len() as int) == Some(Some(j as int)),
            Some(None) => set_prefix(name@, env@, name@.len() as int) == Some(None::<int>),
            None => set_prefix(name@, env@, name@.len() as int) is None,
        },
{
    let mut k: usize = name.len();
    while k > 0
        invariant
            k <= name@.len(),
            set_prefix(name@, env@, name@.len() as int) == set_prefix(name@, env@, k as int),
        decreases k,
    {
        let prefix = string_of_range(name, 0, k);
        assert(prefix@ == name@.take(k as int));
        if env.contains_key(prefix.as_str()) {
            return Some(Some(k));
        }
        if char_width(name[k - 1]) > 1 {
            return None;
        }
        k -= 1;
    }
    Some(None)
}

/// `s` with each unbraced reference `$NAME` replaced by the value of the
/// longest prefix of `NAME` that is a set variable; a `$` that starts no
/// set variable stays.  `None` where the search for a prefix would cut
/// inside a character.
pub fn expand_unbraced_checked(s: &str, env: &StrMap<String>) -> (r: Option<String>)
    ensures
        match r {
            Some(t) => unbraced_expansion(s@, env@) == Some(t@),
            None => unbraced_expansion(s@, env@) is None,
        },
{
    let cs = chars_of(s);
    let mut out = String::new();
    let mut i: usize = 0;
    assert(cs@.skip(0) == s@);
    assert(Seq::<char>::empty() + s@ == s@);
    while i < cs.len()
        invariant
            i <= cs@.len(),
            cs@ == s@,
            unbraced_expansion(s@, env@) == prepend(out@, unbraced_expansion(cs@.skip(i as int), env@)),
        decreases cs.len() - i,
    {
        let ghost rest = cs@.skip(i as int);
        let ghost before = out@;
        assert(rest[0] == cs@[i as int]);
        assert(rest.drop_first() == cs@.skip(i + 1));
        let c = cs[i];
        if c != '$' {
            push_char(&mut out, c);
            proof {
                lemma_prepend2(before, seq![c], unbraced_expansion(rest.drop_first(), env@));
                assert(before + seq![c] == out@);
            }
            i += 1;
        } else {
            let name = name_at(&cs, i + 1);
            assert(cs@.skip(i + 1) == rest.drop_first());
            assert(name@ == var_name_prefix(rest.drop_first()));
            match find_set_prefix(&name, env) {
                None => {
                    return None;
                },
                Some(None) => {
                    push_char(&mut out, '$');
                    proof {
                        lemma_prepend2(before, seq!['$'], unbraced_expansion(rest.drop_first(), env@));
                        assert(before + seq!['$'] == out@);
                    }
                    i += 1;
                },
                Some(Some(k)) => {
                    proof {
                        lemma_set_prefix(name@, env@, name@.len() as int);
                        lemma_var_name_prefix(rest.drop_first());
                    }
                    let prefix = string_of_range(&name, 0, k);
                    assert(prefix@ == name@.take(k as int));
                    let v = env.get(prefix.as_str());
                    match v {
                        Some(v) => {
                            push_str(&mut out, v.as_str());
                            proof {
                                lemma_prepend2(
                                    before,
                                    env@[name@.take(k as int)],
                                    unbraced_expansion(rest.skip(k + 1), env@),
                                );
                            }
                        },
                        None => {},
                    }
                    assert(rest.skip(k + 1) == cs@.skip(i + 1 + k));
                    i = i + 1 + k;
                },
            }
        }
    }
    assert(cs@.skip(i as int) =~= Seq::<char>::empty());
    assert(out@ + Seq::<char>::empty() == out@);
    Some(out)
}

proof fn lemma_prepend2(a: Seq<char>, b: Seq<char>, x: Option<Seq<char>>)
    ensures
        prepend(a, prepend(b, x)) == prepend(a + b, x),
{
    match x {
        Some(t) => {
            assert(a + (b + t) =~= (a + b) + t);
        },
        None => {},
    }
}

/// The unbraced pass, on the inputs where it does not fail.
pub fn expand_unbraced(s: &str, env: &StrMap<String>) -> (r: String)
    requires
        unbraced_expansion(s@, env@) is Some,
    ensures
        unbraced_expansion(s@, env@) == Some(r@),
{
    match expand_unbraced_checked(s, env) {
        Some(t) => t,
        None => String::new(),
    }
}

/// Expands the environment variables of a configuration's text against
/// `env`: first each `${NAME}` (the value, or the reference kept when
/// the variable is not set), then each `$NAME`, by the longest prefix of
/// `NAME` that is a set variable.
pub fn expand_env_vars(input: &str, env: &StrMap<String>) -> (r: Result<String, HarnessError>)
    requires
        unbraced_expansion(braced_pass(input@, env@), env@) is Some,
    ensures
        r matches Ok(t) && unbraced_expansion(
            braced_pass(input@, env@),
            env@,
        ) == Some(t@),
{
    match regex_replace_vars(braced_var_pattern(), input, env) {
        Ok(braced) => Ok(expand_unbraced(braced.as_str(), env)),
        Err(msg) => {
            Err(HarnessError::Other(concat2("Regex compilation error: ", msg.as_str())))
        },
    }
}

/// `expand_env_vars` where the unbraced pass does not fail; `None`
/// otherwise.
pub fn try_expand_env_vars(input: &str, env: &StrMap<String>) -> (r: Option<
    Result<String, HarnessError>,
>)
    ensures
        match unbraced_expansion(braced_pass(input@, env@), env@) {
            Some(t) => r matches Some(Ok(u)) && u@ == t,
            None => r is None,
        },
{
    match regex_replace_vars(braced_var_pattern(), input, env) {
        Ok(braced) => {
            match expand_unbraced_checked(braced.as_str(), env) {
                Some(_) => Some(expand_env_vars(input, env)),
                None => None,
            }
        },
        Err(msg) => Some(
            Err(HarnessError::Other(concat2("Regex compilation error: ", msg.as_str()))),
        ),
    }
}

/// Text in which no `${` occurs comes through the braced pass unchanged.
pub proof fn law_braced_keeps_text_without_references(s: Seq<char>, env: Map<Seq<char>, Seq<char>>)
    requires
        forall|i: int| 0 <= i < s.len() - 1 ==> !(#[trigger] s[i] == '$' && s[i + 1] == '{'),
    ensures
        braced_pass(s, env) == s,
    decreases s.len(),
{
    if s.len() > 0 {
        if s.len() >= 2 {
            assert(!(s[0] == '$' && s[1] == '{'));
        }
        assert(braced_ref(s) is None);
        let t = s.skip(1);
        assert forall|i: int| 0 <= i < t.len() - 1 implies !(#[trigger] t[i] == '$' && t[i + 1] == '{') by {
            assert(t[i] == s[i + 1] && t[i + 1] == s[i + 2]);
            assert(!(s[i + 1] == '$' && s[i + 2] == '{'));
        }
        law_braced_keeps_text_without_references(t, env);
        assert(seq![s[0]] + t =~= s);
    }
}

/// Text without a `$` comes through the whole expansion unchanged.
pub proof fn law_expansion_keeps_plain_text(s: Seq<char>, env: Map<Seq<char>, Seq<char>>)
    requires
        !s.contains('$'),
    ensures
        unbraced_expansion(braced_pass(s, env), env) == Some(s),
{
    assert forall|i: int| 0 <= i < s.len() - 1 implies !(#[trigger] s[i] == '$' && s[i + 1] == '{') by {
        assert(s.contains(s[i]));
    }
    law_braced_keeps_text_without_references(s, env);
    law_unbraced_keeps_plain_text(s, env);
}

/// A set variable's braced reference becomes its value; an unset one's
/// stays as written.
pub proof fn law_braced_reference(name: Seq<char>, env: Map<Seq<char>, Seq<char>>)
    requires
        name.len() > 0,
        name_start(name[0]),
        forall|i: int| 0 <= i < name.len() ==> name_char(#[trigger] name[i]),
    ensures
        braced_pass("${"@ + name + "}"@, env) == if env.contains_key(name) {
            env[name]
        } else {
            "${"@ + name + "}"@
        },
{
    reveal_strlit("${");
    reveal_strlit("}");
    let s = "${"@ + name + "}"@;
    let rest = s.skip(2);
    assert(rest =~= name + "}"@);
    lemma_name_run_of(name, "}"@);
    assert(braced_ref(s) == Some(name)) by {
        assert(rest.take(name.len() as int) =~= name);
    }
    assert(s.skip(name.len() + 3int) =~= Seq::<char>::empty());
    assert(braced_pass(Seq::<char>::empty(), env) == Seq::<char>::empty());
    assert(braced_spec(env, name) + Seq::<char>::empty() =~= braced_spec(env, name));
}

/// The run of name characters of a name followed by `}` is the name.
proof fn lemma_name_run_of(name: Seq<char>, tail: Seq<char>)
    requires
        forall|i: int| 0 <= i < name.len() ==> name_char(#[trigger] name[i]),
        tail.len() > 0,
        !name_char(tail[0]),
    ensures
        name_run(name + tail) == name.len(),
    decreases name.len(),
{
    if name.len() == 0 {
        assert(name + tail =~= tail);
    } else {
        let t = name.skip(1);
        assert forall|i: int| 0 <= i < t.len() implies name_char(#[trigger] t[i]) by {
            assert(t[i] == name[i + 1]);
        }
        lemma_name_run_of(t, tail);
        assert((name + tail).skip(1) =~= t + tail);
        assert((name + tail)[0] == name[0]);
    }
}

/// Text without a `$` comes through the unbraced pass unchanged.
pub proof fn law_unbraced_keeps_plain_text(s: Seq<char>, env: Map<Seq<char>, Seq<char>>)
    requires
        !s.contains('$'),
    ensures
        unbraced_expansion(s, env) == Some(s),
    decreases s.len(),
{
    if s.len() > 0 {
        assert(s[0] != '$') by {
            assert(s.contains(s[0]));
        }
        assert(!s.drop_first().contains('$')) by {
            if s.drop_first().contains('$') {
                let j = choose|j: int| 0 <= j < s.drop_first().len() && s.drop_first()[j] == '$';
                assert(s[j + 1] == '$');
            }
        }
        law_unbraced_keeps_plain_text(s.drop_first(), env);
        assert(seq![s[0]] + s.drop_first() =~= s);
    }
}

proof fn lemma_set_prefix_empty(name: Seq<char>, k: int)
    requires
        0 <= k <= name.len(),
    ensures
        !(set_prefix(name, Map::<Seq<char>, Seq<char>>::empty(), k) matches Some(Some(_))),
    decreases k,
{
    if k > 0 {
        lemma_set_prefix_empty(name, k - 1);
    }
}

/// References to variables that are not set stay as they are: with no
/// variable set, the unbraced pass, where it does not fail, gives back
/// its input.
pub proof fn law_unset_references_stay(s: Seq<char>)
    ensures
        unbraced_expansion(s, Map::<Seq<char>, Seq<char>>::empty()) matches Some(t) ==> t == s,
    decreases s.len(),
{
    let env = Map::<Seq<char>, Seq<char>>::empty();
    if s.len() > 0 {
        law_unset_references_stay(s.drop_first());
        let name = var_name_prefix(s.drop_first());
        lemma_var_name_prefix(s.drop_first());
        lemma_set_prefix_empty(name, name.len() as int);
        assert(seq![s[0]] + s.drop_first() =~= s);
    }
}

} // verus!
