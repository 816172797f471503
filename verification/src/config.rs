//! The layered configuration: compiled defaults, then TOML layers, then
//! `GLIDE_*` environment variables.

use vstd::prelude::*;

use crate::errors::GlideError;
use crate::paths::path_join;
use crate::text::{
    ascii_lower, ascii_lower_chars, chars_of, owned, parse_i64, parse_i64_spec, push_str, same,
    string_of, extend_chars,
};

verus! {

/// Output stream mode: `--stream human|ndjson|off`.
#[derive(Debug, Clone, Copy, PartialEq, Eq)]
pub enum Stream {
    Human,
    Ndjson,
    Off,
}

/// The lower-case name of a stream mode.
pub open spec fn stream_name(s: Stream) -> Seq<char> {
    match s {
        Stream::Human => "human"@,
        Stream::Ndjson => "ndjson"@,
        Stream::Off => "off"@,
    }
}

/// The stream mode a name denotes, case-insensitively (ASCII).
pub open spec fn stream_named(s: Seq<char>) -> Option<Stream> {
    let l = ascii_lower(s);
    if l == "human"@ {
        Some(Stream::Human)
    } else if l == "ndjson"@ {
        Some(Stream::Ndjson)
    } else if l == "off"@ {
        Some(Stream::Off)
    } else {
        None
    }
}

/// The name a stream mode is written under reads back as that mode.
pub proof fn law_stream_name_round_trip(m: Stream)
    ensures
        stream_named(stream_name(m)) == Some(m),
{
    reveal_strlit("human");
    reveal_strlit("ndjson");
    reveal_strlit("off");
    let n = stream_name(m);
    assert(ascii_lower(n) =~= n);
    if m != Stream::Human {
        assert(n[0] != "human"@[0]);
    }
    if m == Stream::Off {
        assert(n.len() != "ndjson"@.len());
    }
}

impl Stream {
    /// The name `Display` writes for this mode.
    pub fn name(self) -> (s: &'static str)
        ensures
            s@ == stream_name(self),
    {
        match self {
            Stream::Human => "human",
            Stream::Ndjson => "ndjson",
            Stream::Off => "off",
        }
    }

    /// Parse a stream mode; anything but the three names (in any ASCII case)
    /// is a configuration error naming the lower-cased input.
    pub fn from_str(s: &str) -> (r: Result<Stream, GlideError>)
        ensures
            match r {
                Ok(m) => stream_named(s@) == Some(m),
                Err(e) => stream_named(s@) is None && (e matches GlideError::Config(m) && m@
                    == "invalid stream mode: "@ + ascii_lower(s@) + " (want human|ndjson|off)"@),
            },
    {
        let l = ascii_lower_chars(&chars_of(s));
        if same(&l, &chars_of("human")) {
            Ok(Stream::Human)
        } else if same(&l, &chars_of("ndjson")) {
            Ok(Stream::Ndjson)
        } else if same(&l, &chars_of("off")) {
            Ok(Stream::Off)
        } else {
            let mut v: Vec<char> = Vec::new();
            push_str(&mut v, "invalid stream mode: ");
            extend_chars(&mut v, &l);
            push_str(&mut v, " (want human|ndjson|off)");
            let m = string_of(&v);
            Err(GlideError::Config(m))
        }
    }
}


/// The character sequences of a list of strings.
pub open spec fn strs(v: Seq<String>) -> Seq<Seq<char>> {
    v.map_values(|s: String| s@)
}

/// Where the user's daily notes live. An empty `path` means "not set up".
#[derive(Debug, Clone)]
pub struct VaultConfig {
    /// Folder of Markdown notes, `~` allowed.
    pub path: String,
    /// Relative path of one day's note, with `{date}` for `YYYY-MM-DD`.
    pub daily_note_pattern: String,
    /// The `##` heading that holds the day's priorities.
    pub focus_heading: String,
    /// The `##` heading that holds checkbox tasks.
    pub tasks_heading: String,
    /// The `##` heading `log` appends to.
    pub record_heading: String,
    /// The `##` heading `capture` appends to.
    pub notes_heading: String,
}

#[derive(Debug, Clone)]
pub struct GraphConfig {
    /// Path to the SQLite DB. Workspace-relative if not absolute.
    pub db_path: String,
    pub auto_index_on_command: bool,
}

#[derive(Debug, Clone)]
pub struct IndexConfig {
    pub exclude: Vec<String>,
    pub codeowners_paths: Vec<String>,
    pub team_doc_globs: Vec<String>,
    pub git_history_window_days: u32,
    pub repomix: RepomixConfig,
}

/// Repomix integration: `npx repomix --compress -o <output>`.
#[derive(Debug, Clone)]
pub struct RepomixConfig {
    pub enabled: bool,
    pub output: String,
    pub style: String,
    pub auto_install: bool,
    pub extra_args: Vec<String>,
}

#[derive(Debug, Clone)]
pub struct LlmConfig {
    pub enabled: bool,
    pub default_provider: String,
    pub anthropic: AnthropicConfig,
}

#[derive(Debug, Clone)]
pub struct AnthropicConfig {
    pub api_key_env: String,
    pub model: String,
}

#[derive(Debug, Clone)]
pub struct OutputConfig {
    pub default_stream: Stream,
    pub color: String,
}

#[derive(Debug, Clone)]
pub struct PermissionsConfig {
    pub mode: String,
    pub allow: Vec<String>,
    pub deny: Vec<String>,
}

/// The full configuration.
#[derive(Debug, Clone)]
pub struct Config {
    pub graph: GraphConfig,
    pub index: IndexConfig,
    pub llm: LlmConfig,
    pub output: OutputConfig,
    pub permissions: PermissionsConfig,
    pub vault: VaultConfig,
}

/// The compiled defaults of the vault section.
pub open spec fn default_vault(c: VaultConfig) -> bool {
    &&& c.path@ == Seq::<char>::empty()
    &&& c.daily_note_pattern@ == "Daily Notes/{date}.md"@
    &&& c.focus_heading@ == "Focus"@
    &&& c.tasks_heading@ == "Tasks"@
    &&& c.record_heading@ == "Record"@
    &&& c.notes_heading@ == "Notes"@
}

/// The compiled defaults of the graph section.
pub open spec fn default_graph(c: GraphConfig) -> bool {
    &&& c.db_path@ == ".glide/glide.db"@
    &&& !c.auto_index_on_command
}

/// The compiled defaults of the repomix section.
pub open spec fn default_repomix(c: RepomixConfig) -> bool {
    &&& c.enabled
    &&& c.output@ == ".glide/repomix.xml"@
    &&& c.style@ == "xml"@
    &&& c.auto_install
    &&& c.extra_args@.len() == 0
}

/// The compiled defaults of the index section.
pub open spec fn default_index(c: IndexConfig) -> bool {
    &&& strs(c.exclude@) == seq!["node_modules/**"@, "dist/**"@, "target/**"@]
    &&& strs(c.codeowners_paths@) == seq![
        ".github/CODEOWNERS"@,
        "CODEOWNERS"@,
        "docs/CODEOWNERS"@,
    ]
    &&& strs(c.team_doc_globs@) == seq!["docs/teams/**/*.md"@, "TEAM.md"@]
    &&& c.git_history_window_days == 365
    &&& default_repomix(c.repomix)
}

/// The compiled defaults of the language-model section.
pub open spec fn default_llm(c: LlmConfig, model: Seq<char>) -> bool {
    &&& !c.enabled
    &&& c.default_provider@ == "anthropic"@
    &&& c.anthropic.api_key_env@ == "ANTHROPIC_API_KEY"@
    &&& c.anthropic.model@ == model
}

/// The compiled defaults of the output section.
pub open spec fn default_output(c: OutputConfig) -> bool {
    &&& c.default_stream == Stream::Human
    &&& c.color@ == "auto"@
}

/// The compiled defaults of the permissions section.
pub open spec fn default_permissions(c: PermissionsConfig) -> bool {
    &&& c.mode@ == "default"@
    &&& c.allow@.len() == 0
    &&& strs(c.deny@) == seq!["shell:rm -rf *"@]
}

/// The compiled defaults of every section.
pub open spec fn default_config(c: Config, model: Seq<char>) -> bool {
    &&& default_graph(c.graph)
    &&& default_index(c.index)
    &&& default_llm(c.llm, model)
    &&& default_output(c.output)
    &&& default_permissions(c.permissions)
    &&& default_vault(c.vault)
}

/// Appends an owned copy of `s` to a list of strings.
pub fn push_owned(v: &mut Vec<String>, s: &str)
    ensures
        strs(final(v)@) == strs(old(v)@).push(s@),
{
    v.push(owned(s));
    assert(strs(v@) =~= strs(old(v)@).push(s@));
}

impl Default for VaultConfig {
    fn default() -> (c: Self)
        ensures
            default_vault(c),
    {
        VaultConfig {
            path: String::new(),
            daily_note_pattern: owned("Daily Notes/{date}.md"),
            focus_heading: owned("Focus"),
            tasks_heading: owned("Tasks"),
            record_heading: owned("Record"),
            notes_heading: owned("Notes"),
        }
    }
}

impl Default for GraphConfig {
    fn default() -> (c: Self)
        ensures
            default_graph(c),
    {
        GraphConfig { db_path: owned(".glide/glide.db"), auto_index_on_command: false }
    }
}

impl Default for RepomixConfig {
    fn default() -> (c: Self)
        ensures
            default_repomix(c),
    {
        RepomixConfig {
            enabled: true,
            output: owned(".glide/repomix.xml"),
            style: owned("xml"),
            auto_install: true,
            extra_args: Vec::new(),
        }
    }
}

impl Default for IndexConfig {
    fn default() -> (c: Self)
        ensures
            default_index(c),
    {
        let mut exclude: Vec<String> = Vec::new();
        push_owned(&mut exclude, "node_modules/**");
        push_owned(&mut exclude, "dist/**");
        push_owned(&mut exclude, "target/**");
        let mut codeowners_paths: Vec<String> = Vec::new();
        push_owned(&mut codeowners_paths, ".github/CODEOWNERS");
        push_owned(&mut codeowners_paths, "CODEOWNERS");
        push_owned(&mut codeowners_paths, "docs/CODEOWNERS");
        let mut team_doc_globs: Vec<String> = Vec::new();
        push_owned(&mut team_doc_globs, "docs/teams/**/*.md");
        push_owned(&mut team_doc_globs, "TEAM.md");
        assert(strs(Seq::<String>::empty()) =~= Seq::<Seq<char>>::empty());
        assert(strs(exclude@) =~= seq!["node_modules/**"@, "dist/**"@, "target/**"@]);
        assert(strs(codeowners_paths@) =~= seq![
            ".github/CODEOWNERS"@,
            "CODEOWNERS"@,
            "docs/CODEOWNERS"@,
        ]);
        assert(strs(team_doc_globs@) =~= seq!["docs/teams/**/*.md"@, "TEAM.md"@]);
        IndexConfig {
            exclude,
            codeowners_paths,
            team_doc_globs,
            git_history_window_days: 365,
            repomix: RepomixConfig::default(),
        }
    }
}

impl AnthropicConfig {
    /// The Anthropic provider's defaults, with `model` as the model.
    pub fn with_model(model: String) -> (c: Self)
        ensures
            c.api_key_env@ == "ANTHROPIC_API_KEY"@,
            c.model == model,
    {
        AnthropicConfig { api_key_env: owned("ANTHROPIC_API_KEY"), model }
    }
}

impl LlmConfig {
    /// The language-model defaults, with `model` as the provider's model:
    /// off, Anthropic as the provider.
    pub fn with_model(model: String) -> (c: Self)
        ensures
            default_llm(c, model@),
    {
        LlmConfig {
            enabled: false,
            default_provider: owned("anthropic"),
            anthropic: AnthropicConfig::with_model(model),
        }
    }
}

impl Default for OutputConfig {
    fn default() -> (c: Self)
        ensures
            default_output(c),
    {
        OutputConfig { default_stream: Stream::Human, color: owned("auto") }
    }
}

impl Default for PermissionsConfig {
    fn default() -> (c: Self)
        ensures
            default_permissions(c),
    {
        let mut deny: Vec<String> = Vec::new();
        push_owned(&mut deny, "shell:rm -rf *");
        assert(strs(Seq::<String>::empty()) =~= Seq::<Seq<char>>::empty());
        PermissionsConfig {
            mode: owned("default"),
            allow: Vec::new(),
            deny,
        }
    }
}

impl Config {
    /// The compiled defaults, with `model` as the language model (the one
    /// the binary was built for).
    pub fn defaults(model: String) -> (c: Self)
        ensures
            default_config(c, model@),
    {
        let m = model;
        Config {
            graph: GraphConfig::default(),
            index: IndexConfig::default(),
            llm: LlmConfig::with_model(m),
            output: OutputConfig::default(),
            permissions: PermissionsConfig::default(),
            vault: VaultConfig::default(),
        }
    }
}

/// The `GLIDE_*` environment as the configuration reads it: each variable
/// that is set (and holds text), and whether colour was switched off by
/// `NO_COLOR` or `GLIDE_NO_COLOR`.
#[derive(Debug, Clone, Default)]
pub struct EnvOverrides {
    /// `GLIDE_DB_PATH`
    pub db_path: Option<String>,
    /// `GLIDE_VAULT_PATH`
    pub vault_path: Option<String>,
    /// `GLIDE_VAULT_DAILY_NOTE_PATTERN`
    pub daily_note_pattern: Option<String>,
    /// `GLIDE_DEFAULT_PROVIDER`
    pub default_provider: Option<String>,
    /// `GLIDE_MODEL`
    pub model: Option<String>,
    /// `GLIDE_LLM_ENABLED`
    pub llm_enabled: Option<String>,
    /// `GLIDE_STREAM`
    pub stream: Option<String>,
    /// `NO_COLOR` or `GLIDE_NO_COLOR` is set, whatever its value.
    pub no_color: bool,
}

/// The text an override sets, or the value it leaves alone.
pub open spec fn overridden(o: Option<String>, before: Seq<char>) -> Seq<char> {
    match o {
        Some(v) => v@,
        None => before,
    }
}

/// The words that switch the language model on.
pub open spec fn enabled_word(v: Seq<char>) -> bool {
    v == "1"@ || v == "true"@ || v == "yes"@ || v == "on"@
}

/// `after` is `before` with the environment laid over it: each variable that
/// is set replaces its field; a `GLIDE_STREAM` that names no mode is ignored;
/// every other field is untouched.
pub open spec fn env_applied(before: Config, after: Config, env: EnvOverrides) -> bool {
    &&& after.graph.db_path@ == overridden(env.db_path, before.graph.db_path@)
    &&& after.graph.auto_index_on_command == before.graph.auto_index_on_command
    &&& after.vault.path@ == overridden(env.vault_path, before.vault.path@)
    &&& after.vault.daily_note_pattern@ == overridden(
        env.daily_note_pattern,
        before.vault.daily_note_pattern@,
    )
    &&& after.vault.focus_heading == before.vault.focus_heading
    &&& after.vault.tasks_heading == before.vault.tasks_heading
    &&& after.vault.record_heading == before.vault.record_heading
    &&& after.vault.notes_heading == before.vault.notes_heading
    &&& after.index == before.index
    &&& after.llm.enabled == match env.llm_enabled {
        Some(v) => enabled_word(v@),
        None => before.llm.enabled,
    }
    &&& after.llm.default_provider@ == overridden(
        env.default_provider,
        before.llm.default_provider@,
    )
    &&& after.llm.anthropic.model@ == overridden(env.model, before.llm.anthropic.model@)
    &&& after.llm.anthropic.api_key_env == before.llm.anthropic.api_key_env
    &&& after.output.default_stream == match env.stream {
        Some(v) => match stream_named(v@) {
            Some(m) => m,
            None => before.output.default_stream,
        },
        None => before.output.default_stream,
    }
    &&& after.output.color@ == if env.no_color {
        "never"@
    } else {
        before.output.color@
    }
    &&& after.permissions == before.permissions
}

/// Whether a `GLIDE_LLM_ENABLED` value switches the model on.
fn is_enabled_word(v: &String) -> (b: bool)
    ensures
        b == enabled_word(v@),
{
    let c = chars_of(v.as_str());
    same(&c, &chars_of("1")) || same(&c, &chars_of("true")) || same(&c, &chars_of("yes"))
        || same(&c, &chars_of("on"))
}

/// Lays the environment over a configuration (the last layer).
pub fn apply_env_overrides(cfg: &mut Config, env: &EnvOverrides)
    ensures
        env_applied(*old(cfg), *final(cfg), *env),
{
    if let Some(v) = &env.db_path {
        cfg.graph.db_path = v.clone();
    }
    if let Some(v) = &env.vault_path {
        cfg.vault.path = v.clone();
    }
    if let Some(v) = &env.daily_note_pattern {
        cfg.vault.daily_note_pattern = v.clone();
    }
    if let Some(v) = &env.default_provider {
        cfg.llm.default_provider = v.clone();
    }
    if let Some(v) = &env.model {
        cfg.llm.anthropic.model = v.clone();
    }
    if let Some(v) = &env.llm_enabled {
        cfg.llm.enabled = is_enabled_word(v);
    }
    if let Some(v) = &env.stream {
        if let Ok(m) = Stream::from_str(v.as_str()) {
            cfg.output.default_stream = m;
        }
    }
    if env.no_color {
        cfg.output.color = owned("never");
    }
}

/// No layer before `i` failed.
pub open spec fn all_ok_before(layers: Seq<Result<Config, GlideError>>, i: int) -> bool {
    forall|j: int| 0 <= j < i ==> (#[trigger] layers[j]) is Ok
}

impl Config {
    /// Layered configuration: the compiled defaults, replaced by each layer
    /// that exists, in order (global `config.toml`, the workspace's
    /// `glide.toml`, then `config.local.toml`), then the `GLIDE_*`
    /// environment. A layer that exists but cannot be read is the error.
    ///
    /// Each layer carries a whole configuration, so the last one read wins
    /// outright; the caller hands over only the layers whose files exist.
    pub fn load(defaults: Config, layers: Vec<Result<Config, GlideError>>, env: &EnvOverrides) -> (r:
        Result<Config, GlideError>)
        ensures
            (forall|i: int| 0 <= i < layers@.len() ==> (#[trigger] layers@[i]) is Ok) <==> r is Ok,
            forall|i: int|
                0 <= i < layers@.len() && layers@[i] is Err && all_ok_before(layers@, i)
                    ==> r == #[trigger] layers@[i],
            r matches Ok(c) ==> (if layers@.len() == 0 {
                env_applied(defaults, c, *env)
            } else {
                env_applied(layers@.last()->Ok_0, c, *env)
            }),
    {
        let mut merged = defaults;
        let mut i: usize = 0;
        let n = layers.len();
        let ghost all = layers@;
        let mut pending = layers;
        while i < n
            invariant
                n == all.len(),
                all == layers@,
                i <= n,
                pending@ == all.subrange(i as int, n as int),
                all_ok_before(all, i as int),
                i == 0 ==> merged == defaults,
                i > 0 ==> merged == all[i - 1]->Ok_0,
            decreases n - i,
        {
            let layer = pending.remove(0);
            assert(layer == all[i as int]);
            assert(pending@ =~= all.subrange(i + 1, n as int));
            match layer {
                Ok(c) => {
                    merged = c;
                },
                Err(e) => {
                    proof {
                        assert(all[i as int] is Err);
                        assert forall|j: int|
                            0 <= j < all.len() && all[j] is Err && all_ok_before(all, j) implies j
                            == i by {
                            if j > i {
                                assert(all[i as int] is Ok);
                            }
                        }
                    }
                    return Err(e);
                },
            }
            i = i + 1;
        }
        apply_env_overrides(&mut merged, env);
        Ok(merged)
    }

    /// The database path: the configured one if absolute, else under the
    /// repository root.
    pub fn resolved_db_path(&self, repo_root: &str) -> (p: String)
        ensures
            p@ == crate::paths::joined(repo_root@, self.graph.db_path@),
    {
        path_join(repo_root, self.graph.db_path.as_str())
    }
}

/// A value written into a configuration file by `config set`.
#[derive(Debug, Clone, PartialEq, Eq)]
pub enum Scalar {
    Boolean(bool),
    Integer(i64),
    Text(String),
}

/// How `config set` reads a value: `true` and `false` are booleans, a
/// decimal that fits in an `i64` is an integer, anything else is text, so a
/// file keeps the types its schema expects.
pub open spec fn scalar_is(s: Scalar, v: Seq<char>) -> bool {
    if v == "true"@ {
        s == Scalar::Boolean(true)
    } else if v == "false"@ {
        s == Scalar::Boolean(false)
    } else {
        match parse_i64_spec(v) {
            Some(n) => s == Scalar::Integer(n),
            None => s matches Scalar::Text(t) && t@ == v,
        }
    }
}

/// Reads a `config set` value.
pub fn coerce(value: &str) -> (r: Scalar)
    ensures
        scalar_is(r, value@),
{
    let c = chars_of(value);
    if same(&c, &chars_of("true")) {
        return Scalar::Boolean(true);
    }
    if same(&c, &chars_of("false")) {
        return Scalar::Boolean(false);
    }
    match parse_i64(&c) {
        Some(n) => Scalar::Integer(n),
        None => Scalar::Text(owned(value)),
    }
}

/// Where a command runs: the repository root, the layered configuration,
/// and the database path it resolves to.
#[derive(Debug)]
pub struct CmdCtx {
    pub repo_root: String,
    pub config: Config,
    pub db_path: String,
}

impl CmdCtx {
    /// The context for a repository and its configuration.
    pub fn new(repo_root: String, config: Config) -> (c: CmdCtx)
        ensures
            c.repo_root == repo_root,
            c.config == config,
            c.db_path@ == crate::paths::joined(repo_root@, config.graph.db_path@),
    {
        let db_path = config.resolved_db_path(repo_root.as_str());
        CmdCtx { repo_root, config, db_path }
    }
}

/// The repository a command needs, or the refusal that says where the
/// person is standing and what works there instead.
pub fn require_repo(cwd: &str, root: Option<String>, verb: Option<String>) -> (r: Result<String, GlideError>)
    ensures
        root matches Some(p) ==> r == Ok::<String, GlideError>(p),
        root is None ==> (r matches Err(GlideError::NotInRepo(m)) && m@
            == crate::hints::not_in_repo_text(verb, cwd@)),
{
    match root {
        Some(p) => Ok(p),
        None => Err(GlideError::NotInRepo(crate::hints::not_in_repo(cwd, verb))),
    }
}

/// `GLIDE_LLM_ENABLED` switches the model on exactly when it is one of the
/// words `1`, `true`, `yes` and `on`, and off for any other value; unset, it
/// leaves the switch as the earlier layers left it.
pub proof fn law_llm_switch_words(before: Config, after: Config, env: EnvOverrides)
    requires
        env_applied(before, after, env),
    ensures
        env.llm_enabled matches Some(v) ==> (after.llm.enabled <==> (v@ == "1"@ || v@ == "true"@
            || v@ == "yes"@ || v@ == "on"@)),
        env.llm_enabled is None ==> after.llm.enabled == before.llm.enabled,
{
}

/// Every environment variable that is set wins over the files: its field
/// reads the variable's text, and `NO_COLOR` turns colour off.
pub proof fn law_set_variables_win(before: Config, after: Config, env: EnvOverrides)
    requires
        env_applied(before, after, env),
    ensures
        env.db_path matches Some(v) ==> after.graph.db_path@ == v@,
        env.vault_path matches Some(v) ==> after.vault.path@ == v@,
        env.daily_note_pattern matches Some(v) ==> after.vault.daily_note_pattern@ == v@,
        env.default_provider matches Some(v) ==> after.llm.default_provider@ == v@,
        env.model matches Some(v) ==> after.llm.anthropic.model@ == v@,
        env.no_color ==> after.output.color@ == "never"@,
        !env.no_color ==> after.output.color@ == before.output.color@,
{
}

} // verus!
