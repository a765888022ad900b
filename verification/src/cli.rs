//! The `rinfra` command line: its grammar, what each command does, where the
//! configuration file is looked for, and where remote commands are sent.
use vstd::prelude::*;
use crate::text::{chars_of, concat_str, is_prefix, lowercased, starts_with, string_from_chars, sub_chars, to_lowercase};
use crate::config::{flag, lookup, spec_flag, spec_get, spec_text, text, dotted, tree_of, trees_of, lemma_trees_of, ConfigValue, Tree};

verus! {

/// The configuration file used when none is given.
pub open spec fn default_config_path() -> Seq<char> {
    "config/standalone.example.yaml"@
}

/// The file `config init` writes when none is given.
pub open spec fn default_init_output() -> Seq<char> {
    "rinfra.standalone.yaml"@
}

/// How results are printed.
#[derive(Debug, Clone, Copy, PartialEq, Eq, Structural)]
pub enum CliOutputFormat {
    Pretty,
    Json,
}

/// The parsed command line.
#[derive(Debug)]
pub struct Cli {
    pub command: Option<Commands>,
    pub config: String,
    pub format: CliOutputFormat,
}

#[derive(Debug)]
pub enum Commands {
    /// Start the server (also what no subcommand does).
    Server(ServerArgs),
    /// Configuration management.
    Config(ConfigArgs),
    /// Plugin management.
    Plugin(PluginArgs),
    /// Local cache operations.
    Cache(CacheArgs),
    /// Cluster commands, sent to the main node over HTTP.
    Cluster(ClusterArgs),
    /// A subcommand the application defines itself: its name and arguments.
    External(Vec<String>),
}

#[derive(Debug)]
pub struct ServerArgs {
    pub command: ServerCommands,
}

#[derive(Debug, Clone, Copy, PartialEq, Eq)]
pub enum ServerCommands {
    Start,
}

#[derive(Debug)]
pub struct ConfigArgs {
    pub command: ConfigCommands,
}

#[derive(Debug)]
pub enum ConfigCommands {
    /// Show the effective configuration (`--defaults`: every field as YAML).
    Show(ConfigShowArgs),
    /// Validate the configuration file.
    Validate,
    /// Write a reference configuration file.
    Init(ConfigInitArgs),
}

#[derive(Debug)]
pub struct ConfigShowArgs {
    pub defaults: bool,
}

#[derive(Debug)]
pub struct ConfigInitArgs {
    pub output: String,
    pub force: bool,
}

#[derive(Debug)]
pub struct PluginArgs {
    pub command: PluginCommands,
}

#[derive(Debug, Clone, Copy, PartialEq, Eq)]
pub enum PluginCommands {
    List,
}

#[derive(Debug)]
pub struct CacheArgs {
    pub command: CacheCommands,
}

#[derive(Debug)]
pub enum CacheCommands {
    Get { key: String },
    Flush,
}

#[derive(Debug)]
pub struct ClusterArgs {
    /// The main node's address, overriding the configured one.
    pub target: Option<String>,
    pub command: ClusterCommands,
}

#[derive(Debug)]
pub enum ClusterCommands {
    Nodes,
    Info,
    Cache(ClusterCacheArgs),
}

#[derive(Debug)]
pub struct ClusterCacheArgs {
    pub command: ClusterCacheCommands,
}

#[derive(Debug)]
pub enum ClusterCacheCommands {
    Get { key: String },
    Flush { yes: bool },
}

/// A command, as plain data.
pub enum CommandView {
    ServerStart,
    ConfigShow { defaults: bool },
    ConfigValidate,
    ConfigInit { output: Seq<char>, force: bool },
    PluginList,
    CacheGet { key: Seq<char> },
    CacheFlush,
    ClusterNodes { target: Option<Seq<char>> },
    ClusterInfo { target: Option<Seq<char>> },
    ClusterCacheGet { target: Option<Seq<char>>, key: Seq<char> },
    ClusterCacheFlush { target: Option<Seq<char>>, yes: bool },
    External { args: Seq<Seq<char>> },
}

/// A command line, as plain data.
pub struct CliView {
    pub command: Option<CommandView>,
    pub config: Seq<char>,
    pub format: CliOutputFormat,
}

pub open spec fn opt_view(o: Option<String>) -> Option<Seq<char>> {
    match o {
        Some(s) => Some(s@),
        None => None,
    }
}

pub open spec fn strings_view(v: Seq<String>) -> Seq<Seq<char>> {
    v.map_values(|s: String| s@)
}

impl Commands {
    pub open spec fn view(self) -> CommandView {
        match self {
            Commands::Server(_) => CommandView::ServerStart,
            Commands::Config(a) => match a.command {
                ConfigCommands::Show(s) => CommandView::ConfigShow { defaults: s.defaults },
                ConfigCommands::Validate => CommandView::ConfigValidate,
                ConfigCommands::Init(i) => CommandView::ConfigInit { output: i.output@, force: i.force },
            },
            Commands::Plugin(_) => CommandView::PluginList,
            Commands::Cache(a) => match a.command {
                CacheCommands::Get { key } => CommandView::CacheGet { key: key@ },
                CacheCommands::Flush => CommandView::CacheFlush,
            },
            Commands::Cluster(a) => match a.command {
                ClusterCommands::Nodes => CommandView::ClusterNodes { target: opt_view(a.target) },
                ClusterCommands::Info => CommandView::ClusterInfo { target: opt_view(a.target) },
                ClusterCommands::Cache(c) => match c.command {
                    ClusterCacheCommands::Get { key } => CommandView::ClusterCacheGet { target: opt_view(a.target), key: key@ },
                    ClusterCacheCommands::Flush { yes } => CommandView::ClusterCacheFlush { target: opt_view(a.target), yes },
                },
            },
            Commands::External(args) => CommandView::External { args: strings_view(args@) },
        }
    }
}

impl Cli {
    pub open spec fn view(self) -> CliView {
        CliView {
            command: match self.command {
                Some(c) => Some(c.view()),
                None => None,
            },
            config: self.config@,
            format: self.format,
        }
    }
}

// ── Grammar ─────────────────────────────────────────────────────────

/// How far into the command tree the parser has come.
#[derive(Debug, Clone, Copy, PartialEq, Eq, Structural)]
pub enum Level {
    Root,
    Server,
    ServerStart,
    Config,
    ConfigShow,
    ConfigValidate,
    ConfigInit,
    Plugin,
    PluginList,
    Cache,
    CacheGet,
    CacheFlush,
    Cluster,
    ClusterNodes,
    ClusterInfo,
    ClusterCache,
    ClusterCacheGet,
    ClusterCacheFlush,
    External,
}

/// An option that takes a value.
#[derive(Debug, Clone, Copy, PartialEq, Eq, Structural)]
pub enum ValueFlag {
    Config,
    Format,
    Target,
    Output,
}

/// A switch.
#[derive(Debug, Clone, Copy, PartialEq, Eq, Structural)]
pub enum Switch {
    Defaults,
    Force,
    Yes,
}

/// Why a command line was refused.
#[derive(Debug, Clone, Copy, PartialEq, Eq, Structural)]
pub enum CliErrorKind {
    /// Help was asked for.
    Help,
    /// The version was asked for.
    Version,
    /// An option this command does not have.
    UnknownArgument,
    /// A word this command does not take.
    UnexpectedArgument,
    /// An option without its value.
    MissingValue,
    /// A value the option does not accept.
    InvalidValue,
    /// An option given twice.
    Duplicate,
    /// A command that needs a subcommand got none.
    MissingSubcommand,
    /// A required argument is missing.
    MissingArgument,
}

/// A refused command line: why, and the word concerned.
#[derive(Debug)]
pub struct CliError {
    pub kind: CliErrorKind,
    pub arg: String,
}

/// The parser's state after some words, as plain data.
pub struct ParseView {
    pub level: Level,
    pub config: Option<Seq<char>>,
    pub format: Option<CliOutputFormat>,
    pub target: Option<Seq<char>>,
    pub output: Option<Seq<char>>,
    pub defaults: bool,
    pub force: bool,
    pub yes: bool,
    pub key: Option<Seq<char>>,
    pub pending: Option<ValueFlag>,
    pub external: Seq<Seq<char>>,
}

pub open spec fn initial_view() -> ParseView {
    ParseView {
        level: Level::Root,
        config: None,
        format: None,
        target: None,
        output: None,
        defaults: false,
        force: false,
        yes: false,
        key: None,
        pending: None,
        external: Seq::empty(),
    }
}

pub open spec fn in_cluster(l: Level) -> bool {
    l == Level::Cluster || l == Level::ClusterNodes || l == Level::ClusterInfo || l == Level::ClusterCache
        || l == Level::ClusterCacheGet || l == Level::ClusterCacheFlush
}

/// The option a long name stands for.
pub open spec fn value_flag_named(n: Seq<char>) -> Option<ValueFlag> {
    if n == "config"@ {
        Some(ValueFlag::Config)
    } else if n == "format"@ {
        Some(ValueFlag::Format)
    } else if n == "target"@ {
        Some(ValueFlag::Target)
    } else if n == "output"@ {
        Some(ValueFlag::Output)
    } else {
        None
    }
}

/// The switch a long name stands for.
pub open spec fn switch_named(n: Seq<char>) -> Option<Switch> {
    if n == "defaults"@ {
        Some(Switch::Defaults)
    } else if n == "force"@ {
        Some(Switch::Force)
    } else if n == "yes"@ {
        Some(Switch::Yes)
    } else {
        None
    }
}

/// Whether an option is available at a level: `--config` and `--format`
/// everywhere, `--target` under `cluster`, `--output` under `config init`.
pub open spec fn value_flag_allowed(f: ValueFlag, l: Level) -> bool {
    match f {
        ValueFlag::Config | ValueFlag::Format => true,
        ValueFlag::Target => in_cluster(l),
        ValueFlag::Output => l == Level::ConfigInit,
    }
}

pub open spec fn switch_allowed(s: Switch, l: Level) -> bool {
    match s {
        Switch::Defaults => l == Level::ConfigShow,
        Switch::Force => l == Level::ConfigInit,
        Switch::Yes => l == Level::ClusterCacheFlush,
    }
}

pub open spec fn flag_text(f: ValueFlag) -> Seq<char> {
    match f {
        ValueFlag::Config => "--config"@,
        ValueFlag::Format => "--format"@,
        ValueFlag::Target => "--target"@,
        ValueFlag::Output => "--output"@,
    }
}

pub open spec fn switch_text(s: Switch) -> Seq<char> {
    match s {
        Switch::Defaults => "--defaults"@,
        Switch::Force => "--force"@,
        Switch::Yes => "--yes"@,
    }
}

pub type SpecStep = Result<ParseView, (CliErrorKind, Seq<char>)>;

/// Gives option `f` the value `v`.
pub open spec fn set_value(s: ParseView, f: ValueFlag, v: Seq<char>) -> SpecStep {
    let dup = Err((CliErrorKind::Duplicate, flag_text(f)));
    match f {
        ValueFlag::Config => if s.config is Some { dup } else { Ok(ParseView { config: Some(v), pending: None, ..s }) },
        ValueFlag::Format => if s.format is Some {
            dup
        } else if v == "pretty"@ {
            Ok(ParseView { format: Some(CliOutputFormat::Pretty), pending: None, ..s })
        } else if v == "json"@ {
            Ok(ParseView { format: Some(CliOutputFormat::Json), pending: None, ..s })
        } else {
            Err((CliErrorKind::InvalidValue, v))
        },
        ValueFlag::Target => if s.target is Some { dup } else { Ok(ParseView { target: Some(v), pending: None, ..s }) },
        ValueFlag::Output => if s.output is Some { dup } else { Ok(ParseView { output: Some(v), pending: None, ..s }) },
    }
}

/// Turns switch `w` on.
pub open spec fn set_switch(s: ParseView, w: Switch) -> SpecStep {
    let dup = Err((CliErrorKind::Duplicate, switch_text(w)));
    match w {
        Switch::Defaults => if s.defaults { dup } else { Ok(ParseView { defaults: true, ..s }) },
        Switch::Force => if s.force { dup } else { Ok(ParseView { force: true, ..s }) },
        Switch::Yes => if s.yes { dup } else { Ok(ParseView { yes: true, ..s }) },
    }
}

/// The position of the first `=` in `s`, if any.
pub open spec fn eq_pos(s: Seq<char>) -> Option<int> {
    if exists|i: int| 0 <= i < s.len() && s[i] == '=' {
        Some(choose|i: int| 0 <= i < s.len() && s[i] == '=' && forall|j: int| 0 <= j < i ==> s[j] != '=')
    } else {
        None
    }
}

/// A `--name` or `--name=value` word.
pub open spec fn long_option(s: ParseView, t: Seq<char>) -> SpecStep {
    let body = t.subrange(2, t.len() as int);
    let (name, inline) = match eq_pos(body) {
        Some(i) => (body.subrange(0, i), Some(body.subrange(i + 1, body.len() as int))),
        None => (body, None),
    };
    if name == "help"@ {
        Err((CliErrorKind::Help, t))
    } else if name == "version"@ && s.level == Level::Root {
        Err((CliErrorKind::Version, t))
    } else {
        match value_flag_named(name) {
            Some(f) => if value_flag_allowed(f, s.level) {
                match inline {
                    Some(v) => set_value(s, f, v),
                    None => Ok(ParseView { pending: Some(f), ..s }),
                }
            } else {
                Err((CliErrorKind::UnknownArgument, t))
            },
            None => match switch_named(name) {
                Some(w) => if switch_allowed(w, s.level) {
                    match inline {
                        Some(_) => Err((CliErrorKind::InvalidValue, t)),
                        None => set_switch(s, w),
                    }
                } else {
                    Err((CliErrorKind::UnknownArgument, t))
                },
                None => Err((CliErrorKind::UnknownArgument, t)),
            },
        }
    }
}

/// A `-x` word: `-h`, `-V` (at the top), or `-o` with its value attached or next.
pub open spec fn short_option(s: ParseView, t: Seq<char>) -> SpecStep {
    let c = t[1];
    let rest = t.subrange(2, t.len() as int);
    if c == 'h' {
        Err((CliErrorKind::Help, t))
    } else if c == 'V' && s.level == Level::Root {
        Err((CliErrorKind::Version, t))
    } else if c == 'o' && s.level == Level::ConfigInit {
        if rest.len() == 0 {
            Ok(ParseView { pending: Some(ValueFlag::Output), ..s })
        } else if rest[0] == '=' {
            set_value(s, ValueFlag::Output, rest.drop_first())
        } else {
            set_value(s, ValueFlag::Output, rest)
        }
    } else {
        Err((CliErrorKind::UnknownArgument, t))
    }
}

/// The level a subcommand word leads to from `l`.
pub open spec fn subcommand(l: Level, t: Seq<char>) -> Option<Level> {
    match l {
        Level::Root => if t == "server"@ {
            Some(Level::Server)
        } else if t == "config"@ {
            Some(Level::Config)
        } else if t == "plugin"@ {
            Some(Level::Plugin)
        } else if t == "cache"@ {
            Some(Level::Cache)
        } else if t == "cluster"@ {
            Some(Level::Cluster)
        } else {
            None
        },
        Level::Server => if t == "start"@ { Some(Level::ServerStart) } else { None },
        Level::Config => if t == "show"@ {
            Some(Level::ConfigShow)
        } else if t == "validate"@ {
            Some(Level::ConfigValidate)
        } else if t == "init"@ {
            Some(Level::ConfigInit)
        } else {
            None
        },
        Level::Plugin => if t == "list"@ { Some(Level::PluginList) } else { None },
        Level::Cache => if t == "get"@ {
            Some(Level::CacheGet)
        } else if t == "flush"@ {
            Some(Level::CacheFlush)
        } else {
            None
        },
        Level::Cluster => if t == "nodes"@ {
            Some(Level::ClusterNodes)
        } else if t == "info"@ {
            Some(Level::ClusterInfo)
        } else if t == "cache"@ {
            Some(Level::ClusterCache)
        } else {
            None
        },
        Level::ClusterCache => if t == "get"@ {
            Some(Level::ClusterCacheGet)
        } else if t == "flush"@ {
            Some(Level::ClusterCacheFlush)
        } else {
            None
        },
        _ => None,
    }
}

/// Whether a level still needs a subcommand.
pub open spec fn needs_subcommand(l: Level) -> bool {
    l == Level::Server || l == Level::Config || l == Level::Plugin || l == Level::Cache || l == Level::Cluster
        || l == Level::ClusterCache
}

/// A word that is neither an option nor an option's value.
pub open spec fn positional(s: ParseView, t: Seq<char>) -> SpecStep {
    match subcommand(s.level, t) {
        Some(l) => Ok(ParseView { level: l, ..s }),
        None => if t == "help"@ && (s.level == Level::Root || needs_subcommand(s.level)) {
            Err((CliErrorKind::Help, t))
        } else if s.level == Level::Root {
            Ok(ParseView { level: Level::External, external: seq![t], ..s })
        } else if (s.level == Level::CacheGet || s.level == Level::ClusterCacheGet) && s.key is None {
            Ok(ParseView { key: Some(t), ..s })
        } else {
            Err((CliErrorKind::UnexpectedArgument, t))
        },
    }
}

/// One word of the command line.
pub open spec fn cli_step(s: ParseView, t: Seq<char>) -> SpecStep {
    if s.level == Level::External {
        Ok(ParseView { external: s.external.push(t), ..s })
    } else if s.pending is Some {
        if t.len() > 1 && t[0] == '-' {
            Err((CliErrorKind::MissingValue, flag_text(s.pending->0)))
        } else {
            set_value(s, s.pending->0, t)
        }
    } else if t.len() > 2 && t[0] == '-' && t[1] == '-' {
        long_option(s, t)
    } else if t.len() > 1 && t[0] == '-' && t[1] != '-' {
        short_option(s, t)
    } else if t.len() > 0 && t[0] == '-' {
        Err((CliErrorKind::UnknownArgument, t))
    } else {
        positional(s, t)
    }
}

/// The words folded left to right.
pub open spec fn cli_fold(ts: Seq<Seq<char>>) -> SpecStep
    decreases ts.len(),
{
    if ts.len() == 0 {
        Ok(initial_view())
    } else {
        match cli_fold(ts.drop_last()) {
            Ok(s) => cli_step(s, ts.last()),
            Err(e) => Err(e),
        }
    }
}

/// The command line a finished parse describes.
pub open spec fn cli_finish(s: ParseView) -> Result<CliView, (CliErrorKind, Seq<char>)> {
    let config = match s.config { Some(c) => c, None => default_config_path() };
    let format = match s.format { Some(f) => f, None => CliOutputFormat::Pretty };
    let done = |c: Option<CommandView>| Ok::<CliView, (CliErrorKind, Seq<char>)>(CliView { command: c, config, format });
    if s.pending is Some {
        Err((CliErrorKind::MissingValue, flag_text(s.pending->0)))
    } else if needs_subcommand(s.level) {
        Err((CliErrorKind::MissingSubcommand, Seq::empty()))
    } else {
        match s.level {
            Level::Root => done(None),
            Level::ServerStart => done(Some(CommandView::ServerStart)),
            Level::ConfigShow => done(Some(CommandView::ConfigShow { defaults: s.defaults })),
            Level::ConfigValidate => done(Some(CommandView::ConfigValidate)),
            Level::ConfigInit => done(Some(CommandView::ConfigInit {
                output: match s.output { Some(o) => o, None => default_init_output() },
                force: s.force,
            })),
            Level::PluginList => done(Some(CommandView::PluginList)),
            Level::CacheGet => match s.key {
                Some(k) => done(Some(CommandView::CacheGet { key: k })),
                None => Err((CliErrorKind::MissingArgument, "<KEY>"@)),
            },
            Level::CacheFlush => done(Some(CommandView::CacheFlush)),
            Level::ClusterNodes => done(Some(CommandView::ClusterNodes { target: s.target })),
            Level::ClusterInfo => done(Some(CommandView::ClusterInfo { target: s.target })),
            Level::ClusterCacheGet => match s.key {
                Some(k) => done(Some(CommandView::ClusterCacheGet { target: s.target, key: k })),
                None => Err((CliErrorKind::MissingArgument, "<KEY>"@)),
            },
            Level::ClusterCacheFlush => done(Some(CommandView::ClusterCacheFlush { target: s.target, yes: s.yes })),
            _ => done(Some(CommandView::External { args: s.external })),
        }
    }
}

/// The meaning of a command line; the first word is the program name.
pub open spec fn spec_parse(args: Seq<Seq<char>>) -> Result<CliView, (CliErrorKind, Seq<char>)> {
    let words = if args.len() > 0 { args.drop_first() } else { args };
    match cli_fold(words) {
        Ok(s) => cli_finish(s),
        Err(e) => Err(e),
    }
}


// ── Parser ──────────────────────────────────────────────────────────

/// Whether two character sequences are equal.
fn chars_eq(a: &[char], b: &[char]) -> (r: bool)
    ensures
        r == (a@ == b@),
{
    if a.len() != b.len() {
        return false;
    }
    let mut i: usize = 0;
    while i < a.len()
        invariant
            i <= a@.len(),
            a@.len() == b@.len(),
            forall|j: int| 0 <= j < i ==> a@[j] == b@[j],
        decreases a@.len() - i,
    {
        if a[i] != b[i] {
            return false;
        }
        i = i + 1;
    }
    assert(a@ =~= b@);
    true
}

/// Whether `a` spells the literal `lit`.
fn is_word(a: &[char], lit: &str) -> (r: bool)
    ensures
        r == (a@ == lit@),
{
    let l = chars_of(lit);
    chars_eq(a, l.as_slice())
}

fn find_eq(s: &[char]) -> (r: Option<usize>)
    ensures
        match r {
            Some(i) => eq_pos(s@) == Some(i as int) && i < s@.len(),
            None => eq_pos(s@) is None,
        },
{
    let mut i: usize = 0;
    while i < s.len()
        invariant
            i <= s@.len(),
            forall|j: int| 0 <= j < i ==> s@[j] != '=',
        decreases s@.len() - i,
    {
        if s[i] == '=' {
            proof {
                let k = choose|k: int| 0 <= k < s@.len() && s@[k] == '=' && forall|j: int| 0 <= j < k ==> s@[j] != '=';
                if k < i {
                    assert(s@[k] != '=');
                }
                assert(k == i);
            }
            return Some(i);
        }
        i = i + 1;
    }
    None
}

/// The parser's state after some words.
pub struct ParseState {
    pub level: Level,
    pub config: Option<String>,
    pub format: Option<CliOutputFormat>,
    pub target: Option<String>,
    pub output: Option<String>,
    pub defaults: bool,
    pub force: bool,
    pub yes: bool,
    pub key: Option<String>,
    pub pending: Option<ValueFlag>,
    pub external: Vec<String>,
}

impl ParseState {
    pub open spec fn view(self) -> ParseView {
        ParseView {
            level: self.level,
            config: opt_view(self.config),
            format: self.format,
            target: opt_view(self.target),
            output: opt_view(self.output),
            defaults: self.defaults,
            force: self.force,
            yes: self.yes,
            key: opt_view(self.key),
            pending: self.pending,
            external: strings_view(self.external@),
        }
    }

    fn initial() -> (s: ParseState)
        ensures
            s.view() == initial_view(),
    {
        let s = ParseState {
            level: Level::Root,
            config: None,
            format: None,
            target: None,
            output: None,
            defaults: false,
            force: false,
            yes: false,
            key: None,
            pending: None,
            external: Vec::new(),
        };
        assert(strings_view(s.external@) =~= Seq::<Seq<char>>::empty());
        s
    }
}

/// Whether an exec step result is the spec step result.
pub open spec fn step_is(r: Result<ParseState, CliError>, s: SpecStep) -> bool {
    match r {
        Ok(n) => s == Ok::<ParseView, (CliErrorKind, Seq<char>)>(n.view()),
        Err(e) => s == Err::<ParseView, (CliErrorKind, Seq<char>)>((e.kind, e.arg@)),
    }
}

fn err(kind: CliErrorKind, arg: &[char]) -> (r: Result<ParseState, CliError>)
    ensures
        r matches Err(e) && e.kind == kind && e.arg@ == arg@,
{
    Err(CliError { kind, arg: string_from_chars(arg) })
}

fn err_text(kind: CliErrorKind, arg: &str) -> (r: Result<ParseState, CliError>)
    ensures
        r matches Err(e) && e.kind == kind && e.arg@ == arg@,
{
    Err(CliError { kind, arg: arg.to_string() })
}

fn flag_str(f: ValueFlag) -> (t: &'static str)
    ensures
        t@ == flag_text(f),
{
    match f {
        ValueFlag::Config => "--config",
        ValueFlag::Format => "--format",
        ValueFlag::Target => "--target",
        ValueFlag::Output => "--output",
    }
}

fn switch_str(w: Switch) -> (t: &'static str)
    ensures
        t@ == switch_text(w),
{
    match w {
        Switch::Defaults => "--defaults",
        Switch::Force => "--force",
        Switch::Yes => "--yes",
    }
}

fn set_value_exec(s: ParseState, f: ValueFlag, v: &[char]) -> (r: Result<ParseState, CliError>)
    ensures
        step_is(r, set_value(s.view(), f, v@)),
{
    match f {
        ValueFlag::Config => {
            if s.config.is_some() {
                return err_text(CliErrorKind::Duplicate, flag_str(f));
            }
            Ok(ParseState { config: Some(string_from_chars(v)), pending: None, ..s })
        },
        ValueFlag::Format => {
            if s.format.is_some() {
                return err_text(CliErrorKind::Duplicate, flag_str(f));
            }
            if is_word(v, "pretty") {
                Ok(ParseState { format: Some(CliOutputFormat::Pretty), pending: None, ..s })
            } else if is_word(v, "json") {
                Ok(ParseState { format: Some(CliOutputFormat::Json), pending: None, ..s })
            } else {
                err(CliErrorKind::InvalidValue, v)
            }
        },
        ValueFlag::Target => {
            if s.target.is_some() {
                return err_text(CliErrorKind::Duplicate, flag_str(f));
            }
            Ok(ParseState { target: Some(string_from_chars(v)), pending: None, ..s })
        },
        ValueFlag::Output => {
            if s.output.is_some() {
                return err_text(CliErrorKind::Duplicate, flag_str(f));
            }
            Ok(ParseState { output: Some(string_from_chars(v)), pending: None, ..s })
        },
    }
}

fn set_switch_exec(s: ParseState, w: Switch) -> (r: Result<ParseState, CliError>)
    ensures
        step_is(r, set_switch(s.view(), w)),
{
    match w {
        Switch::Defaults => if s.defaults { err_text(CliErrorKind::Duplicate, switch_str(w)) } else { Ok(ParseState { defaults: true, ..s }) },
        Switch::Force => if s.force { err_text(CliErrorKind::Duplicate, switch_str(w)) } else { Ok(ParseState { force: true, ..s }) },
        Switch::Yes => if s.yes { err_text(CliErrorKind::Duplicate, switch_str(w)) } else { Ok(ParseState { yes: true, ..s }) },
    }
}

fn value_flag_of(n: &[char]) -> (r: Option<ValueFlag>)
    ensures
        r == value_flag_named(n@),
{
    if is_word(n, "config") {
        Some(ValueFlag::Config)
    } else if is_word(n, "format") {
        Some(ValueFlag::Format)
    } else if is_word(n, "target") {
        Some(ValueFlag::Target)
    } else if is_word(n, "output") {
        Some(ValueFlag::Output)
    } else {
        None
    }
}

fn switch_of(n: &[char]) -> (r: Option<Switch>)
    ensures
        r == switch_named(n@),
{
    if is_word(n, "defaults") {
        Some(Switch::Defaults)
    } else if is_word(n, "force") {
        Some(Switch::Force)
    } else if is_word(n, "yes") {
        Some(Switch::Yes)
    } else {
        None
    }
}

fn in_cluster_exec(l: Level) -> (b: bool)
    ensures
        b == in_cluster(l),
{
    l == Level::Cluster || l == Level::ClusterNodes || l == Level::ClusterInfo || l == Level::ClusterCache
        || l == Level::ClusterCacheGet || l == Level::ClusterCacheFlush
}

fn value_flag_allowed_exec(f: ValueFlag, l: Level) -> (b: bool)
    ensures
        b == value_flag_allowed(f, l),
{
    match f {
        ValueFlag::Config | ValueFlag::Format => true,
        ValueFlag::Target => in_cluster_exec(l),
        ValueFlag::Output => l == Level::ConfigInit,
    }
}

fn switch_allowed_exec(w: Switch, l: Level) -> (b: bool)
    ensures
        b == switch_allowed(w, l),
{
    match w {
        Switch::Defaults => l == Level::ConfigShow,
        Switch::Force => l == Level::ConfigInit,
        Switch::Yes => l == Level::ClusterCacheFlush,
    }
}

fn long_option_exec(s: ParseState, t: &[char]) -> (r: Result<ParseState, CliError>)
    requires
        t@.len() > 2,
    ensures
        step_is(r, long_option(s.view(), t@)),
{
    let body = vstd::slice::slice_subrange(t, 2, t.len());
    assert(body@ == t@.subrange(2, t@.len() as int));
    let (name, inline) = match find_eq(body) {
        Some(i) => (sub_chars(body, 0, i), Some(sub_chars(body, i + 1, body.len()))),
        None => (sub_chars(body, 0, body.len()), None),
    };
    assert(body@.subrange(0, body@.len() as int) =~= body@);
    if is_word(name.as_slice(), "help") {
        return err(CliErrorKind::Help, t);
    }
    if is_word(name.as_slice(), "version") && s.level == Level::Root {
        return err(CliErrorKind::Version, t);
    }
    match value_flag_of(name.as_slice()) {
        Some(f) => {
            if value_flag_allowed_exec(f, s.level) {
                match inline {
                    Some(v) => set_value_exec(s, f, v.as_slice()),
                    None => Ok(ParseState { pending: Some(f), ..s }),
                }
            } else {
                err(CliErrorKind::UnknownArgument, t)
            }
        },
        None => match switch_of(name.as_slice()) {
            Some(w) => {
                if switch_allowed_exec(w, s.level) {
                    match inline {
                        Some(_) => err(CliErrorKind::InvalidValue, t),
                        None => set_switch_exec(s, w),
                    }
                } else {
                    err(CliErrorKind::UnknownArgument, t)
                }
            },
            None => err(CliErrorKind::UnknownArgument, t),
        },
    }
}

fn short_option_exec(s: ParseState, t: &[char]) -> (r: Result<ParseState, CliError>)
    requires
        t@.len() > 1,
    ensures
        step_is(r, short_option(s.view(), t@)),
{
    let c = t[1];
    let rest = sub_chars(t, 2, t.len());
    if c == 'h' {
        err(CliErrorKind::Help, t)
    } else if c == 'V' && s.level == Level::Root {
        err(CliErrorKind::Version, t)
    } else if c == 'o' && s.level == Level::ConfigInit {
        if rest.len() == 0 {
            Ok(ParseState { pending: Some(ValueFlag::Output), ..s })
        } else if rest[0] == '=' {
            let v = sub_chars(rest.as_slice(), 1, rest.len());
            assert(v@ =~= rest@.drop_first());
            set_value_exec(s, ValueFlag::Output, v.as_slice())
        } else {
            set_value_exec(s, ValueFlag::Output, rest.as_slice())
        }
    } else {
        err(CliErrorKind::UnknownArgument, t)
    }
}

fn subcommand_exec(l: Level, t: &[char]) -> (r: Option<Level>)
    ensures
        r == subcommand(l, t@),
{
    match l {
        Level::Root => if is_word(t, "server") {
            Some(Level::Server)
        } else if is_word(t, "config") {
            Some(Level::Config)
        } else if is_word(t, "plugin") {
            Some(Level::Plugin)
        } else if is_word(t, "cache") {
            Some(Level::Cache)
        } else if is_word(t, "cluster") {
            Some(Level::Cluster)
        } else {
            None
        },
        Level::Server => if is_word(t, "start") { Some(Level::ServerStart) } else { None },
        Level::Config => if is_word(t, "show") {
            Some(Level::ConfigShow)
        } else if is_word(t, "validate") {
            Some(Level::ConfigValidate)
        } else if is_word(t, "init") {
            Some(Level::ConfigInit)
        } else {
            None
        },
        Level::Plugin => if is_word(t, "list") { Some(Level::PluginList) } else { None },
        Level::Cache => if is_word(t, "get") {
            Some(Level::CacheGet)
        } else if is_word(t, "flush") {
            Some(Level::CacheFlush)
        } else {
            None
        },
        Level::Cluster => if is_word(t, "nodes") {
            Some(Level::ClusterNodes)
        } else if is_word(t, "info") {
            Some(Level::ClusterInfo)
        } else if is_word(t, "cache") {
            Some(Level::ClusterCache)
        } else {
            None
        },
        Level::ClusterCache => if is_word(t, "get") {
            Some(Level::ClusterCacheGet)
        } else if is_word(t, "flush") {
            Some(Level::ClusterCacheFlush)
        } else {
            None
        },
        _ => None,
    }
}

fn needs_subcommand_exec(l: Level) -> (b: bool)
    ensures
        b == needs_subcommand(l),
{
    l == Level::Server || l == Level::Config || l == Level::Plugin || l == Level::Cache || l == Level::Cluster
        || l == Level::ClusterCache
}

fn positional_exec(s: ParseState, t: &[char]) -> (r: Result<ParseState, CliError>)
    ensures
        step_is(r, positional(s.view(), t@)),
{
    match subcommand_exec(s.level, t) {
        Some(l) => Ok(ParseState { level: l, ..s }),
        None => {
            if is_word(t, "help") && (s.level == Level::Root || needs_subcommand_exec(s.level)) {
                err(CliErrorKind::Help, t)
            } else if s.level == Level::Root {
                let mut ext: Vec<String> = Vec::new();
                ext.push(string_from_chars(t));
                assert(strings_view(ext@) =~= seq![t@]);
                Ok(ParseState { level: Level::External, external: ext, ..s })
            } else if (s.level == Level::CacheGet || s.level == Level::ClusterCacheGet) && s.key.is_none() {
                Ok(ParseState { key: Some(string_from_chars(t)), ..s })
            } else {
                err(CliErrorKind::UnexpectedArgument, t)
            }
        },
    }
}

fn cli_step_exec(s: ParseState, t: &[char]) -> (r: Result<ParseState, CliError>)
    ensures
        step_is(r, cli_step(s.view(), t@)),
{
    if s.level == Level::External {
        let ghost before = s.external@;
        let mut ext = s.external;
        ext.push(string_from_chars(t));
        assert(strings_view(ext@) =~= strings_view(before).push(t@));
        return Ok(ParseState { external: ext, ..s });
    }
    match s.pending {
        Some(f) => {
            if t.len() > 1 && t[0] == '-' {
                return err_text(CliErrorKind::MissingValue, flag_str(f));
            }
            return set_value_exec(s, f, t);
        },
        None => {},
    }
    if t.len() > 2 && t[0] == '-' && t[1] == '-' {
        long_option_exec(s, t)
    } else if t.len() > 1 && t[0] == '-' && t[1] != '-' {
        short_option_exec(s, t)
    } else if t.len() > 0 && t[0] == '-' {
        err(CliErrorKind::UnknownArgument, t)
    } else {
        positional_exec(s, t)
    }
}

fn finish_exec(s: ParseState) -> (r: Result<Cli, CliError>)
    ensures
        match r {
            Ok(c) => cli_finish(s.view()) == Ok::<CliView, (CliErrorKind, Seq<char>)>(c.view()),
            Err(e) => cli_finish(s.view()) == Err::<CliView, (CliErrorKind, Seq<char>)>((e.kind, e.arg@)),
        },
{
    proof {
        reveal_strlit("config/standalone.example.yaml");
        reveal_strlit("rinfra.standalone.yaml");
    }
    match s.pending {
        Some(f) => {
            return Err(CliError { kind: CliErrorKind::MissingValue, arg: flag_str(f).to_string() });
        },
        None => {},
    }
    if needs_subcommand_exec(s.level) {
        let e = CliError { kind: CliErrorKind::MissingSubcommand, arg: String::new() };
        assert(e.arg@ =~= Seq::<char>::empty());
        return Err(e);
    }
    let config = match s.config {
        Some(c) => c,
        None => "config/standalone.example.yaml".to_string(),
    };
    let format = match s.format {
        Some(f) => f,
        None => CliOutputFormat::Pretty,
    };
    let command = match s.level {
        Level::Root => None,
        Level::ServerStart => Some(Commands::Server(ServerArgs { command: ServerCommands::Start })),
        Level::ConfigShow => Some(Commands::Config(ConfigArgs { command: ConfigCommands::Show(ConfigShowArgs { defaults: s.defaults }) })),
        Level::ConfigValidate => Some(Commands::Config(ConfigArgs { command: ConfigCommands::Validate })),
        Level::ConfigInit => Some(Commands::Config(ConfigArgs {
            command: ConfigCommands::Init(ConfigInitArgs {
                output: match s.output {
                    Some(o) => o,
                    None => "rinfra.standalone.yaml".to_string(),
                },
                force: s.force,
            }),
        })),
        Level::PluginList => Some(Commands::Plugin(PluginArgs { command: PluginCommands::List })),
        Level::CacheGet => match s.key {
            Some(k) => Some(Commands::Cache(CacheArgs { command: CacheCommands::Get { key: k } })),
            None => {
                return Err(CliError { kind: CliErrorKind::MissingArgument, arg: "<KEY>".to_string() });
            },
        },
        Level::CacheFlush => Some(Commands::Cache(CacheArgs { command: CacheCommands::Flush })),
        Level::ClusterNodes => Some(Commands::Cluster(ClusterArgs { target: s.target, command: ClusterCommands::Nodes })),
        Level::ClusterInfo => Some(Commands::Cluster(ClusterArgs { target: s.target, command: ClusterCommands::Info })),
        Level::ClusterCacheGet => match s.key {
            Some(k) => Some(Commands::Cluster(ClusterArgs {
                target: s.target,
                command: ClusterCommands::Cache(ClusterCacheArgs { command: ClusterCacheCommands::Get { key: k } }),
            })),
            None => {
                return Err(CliError { kind: CliErrorKind::MissingArgument, arg: "<KEY>".to_string() });
            },
        },
        Level::ClusterCacheFlush => Some(Commands::Cluster(ClusterArgs {
            target: s.target,
            command: ClusterCommands::Cache(ClusterCacheArgs { command: ClusterCacheCommands::Flush { yes: s.yes } }),
        })),
        _ => Some(Commands::External(s.external)),
    };
    Ok(Cli { command, config, format })
}

impl Cli {
    /// Parses a command line whose first word is the program name.
    pub fn try_parse_from(args: &[&str]) -> (r: Result<Cli, CliError>)
        ensures
            match r {
                Ok(c) => spec_parse(args@.map_values(|a: &str| a@)) == Ok::<CliView, (CliErrorKind, Seq<char>)>(c.view()),
                Err(e) => spec_parse(args@.map_values(|a: &str| a@)) == Err::<CliView, (CliErrorKind, Seq<char>)>((e.kind, e.arg@)),
            },
    {
        let ghost all = args@.map_values(|a: &str| a@);
        let ghost words = if all.len() > 0 { all.drop_first() } else { all };
        let mut s = ParseState::initial();
        let start: usize = if args.len() > 0 { 1 } else { 0 };
        let mut i = start;
        assert(words.subrange(0, 0) =~= Seq::<Seq<char>>::empty());
        while i < args.len()
            invariant
                start <= i <= args@.len(),
                start == (if args@.len() > 0 { 1int } else { 0int }),
                all == args@.map_values(|a: &str| a@),
                words == (if all.len() > 0 { all.drop_first() } else { all }),
                cli_fold(words.subrange(0, i - start)) == Ok::<ParseView, (CliErrorKind, Seq<char>)>(s.view()),
            decreases args@.len() - i,
        {
            let t = chars_of(args[i]);
            assert(words.subrange(0, i + 1 - start).drop_last() =~= words.subrange(0, i - start));
            assert(words.subrange(0, i + 1 - start).last() == t@);
            match cli_step_exec(s, t.as_slice()) {
                Ok(n) => {
                    s = n;
                },
                Err(e) => {
                    proof { lemma_fold_error_sticks(words, (i + 1 - start) as nat); }
                    return Err(e);
                },
            }
            i = i + 1;
        }
        assert(words.subrange(0, i - start) =~= words);
        finish_exec(s)
    }

    /// Parses a command line that `spec_parse` accepts.
    pub fn parse_from(args: &[&str]) -> (c: Cli)
        requires
            spec_parse(args@.map_values(|a: &str| a@)) is Ok,
        ensures
            spec_parse(args@.map_values(|a: &str| a@)) == Ok::<CliView, (CliErrorKind, Seq<char>)>(c.view()),
    {
        match Cli::try_parse_from(args) {
            Ok(c) => c,
            Err(_) => {
                assert(false);
                Cli { command: None, config: String::new(), format: CliOutputFormat::Pretty }
            },
        }
    }
}

/// Once a prefix of the words is refused, so is every longer prefix.
proof fn lemma_fold_error_sticks(words: Seq<Seq<char>>, n: nat)
    requires
        n <= words.len(),
        cli_fold(words.subrange(0, n as int)) is Err,
    ensures
        cli_fold(words) == cli_fold(words.subrange(0, n as int)),
    decreases words.len() - n,
{
    if n < words.len() {
        assert(words.subrange(0, n as int + 1).drop_last() =~= words.subrange(0, n as int));
        lemma_fold_error_sticks(words, n + 1);
    } else {
        assert(words.subrange(0, n as int) =~= words);
    }
}


// ── Command table ───────────────────────────────────────────────────

/// The level a path of subcommand words leads to from the top, if every
/// word is a subcommand where it stands.
pub open spec fn walk(path: Seq<Seq<char>>) -> Option<Level>
    decreases path.len(),
{
    if path.len() == 0 {
        Some(Level::Root)
    } else {
        match walk(path.drop_last()) {
            Some(l) => subcommand(l, path.last()),
            None => None,
        }
    }
}

/// Whether a path names a complete command of the grammar.
pub open spec fn names_command(path: Seq<Seq<char>>) -> bool {
    match walk(path) {
        Some(l) => !needs_subcommand(l),
        None => false,
    }
}

/// The commands the program documents, each as its path of subcommand words.
pub struct CliCommand {
    pub name: String,
    pub paths: Vec<Vec<String>>,
}

/// The documented command paths, in the order of the help text.
pub open spec fn documented_paths() -> Seq<Seq<Seq<char>>> {
    seq![
        seq!["server"@, "start"@],
        seq!["config"@, "show"@],
        seq!["config"@, "validate"@],
        seq!["config"@, "init"@],
        seq!["plugin"@, "list"@],
        seq!["cache"@, "get"@],
        seq!["cache"@, "flush"@],
        seq!["cluster"@, "nodes"@],
        seq!["cluster"@, "info"@],
        seq!["cluster"@, "cache"@, "get"@],
        seq!["cluster"@, "cache"@, "flush"@],
    ]
}

proof fn lemma_walk2(a: Seq<char>, b: Seq<char>)
    ensures
        walk(seq![a, b]) == match subcommand(Level::Root, a) {
            Some(l) => subcommand(l, b),
            None => None,
        },
{
    reveal_with_fuel(walk, 3);
    assert(seq![a, b].drop_last() =~= seq![a]);
    assert(seq![a].drop_last() =~= Seq::<Seq<char>>::empty());
}

proof fn lemma_walk3(a: Seq<char>, b: Seq<char>, c: Seq<char>)
    ensures
        walk(seq![a, b, c]) == match walk(seq![a, b]) {
            Some(l) => subcommand(l, c),
            None => None,
        },
{
    assert(seq![a, b, c].drop_last() =~= seq![a, b]);
}

/// Law: every documented command path is a complete command of the
/// parser's grammar.
pub proof fn lemma_documented_commands_parse()
    ensures
        forall|i: int| 0 <= i < documented_paths().len() ==> names_command(#[trigger] documented_paths()[i]),
{
    reveal_strlit("server");
    reveal_strlit("start");
    reveal_strlit("config");
    reveal_strlit("show");
    reveal_strlit("validate");
    reveal_strlit("init");
    reveal_strlit("plugin");
    reveal_strlit("list");
    reveal_strlit("cache");
    reveal_strlit("get");
    reveal_strlit("flush");
    reveal_strlit("cluster");
    reveal_strlit("nodes");
    reveal_strlit("info");
    assert("server"@[0] == 's' && "start"@[0] == 's' && "config"@[0] == 'c' && "show"@[0] == 's');
    assert("validate"@[0] == 'v' && "init"@[0] == 'i' && "plugin"@[0] == 'p' && "list"@[0] == 'l');
    assert("cache"@[0] == 'c' && "get"@[0] == 'g' && "flush"@[0] == 'f' && "cluster"@[0] == 'c');
    assert("nodes"@[0] == 'n' && "info"@[0] == 'i');
    assert("cache"@.len() == 5 && "config"@.len() == 6 && "cluster"@.len() == 7);
    lemma_walk2("server"@, "start"@);
    lemma_walk2("config"@, "show"@);
    lemma_walk2("config"@, "validate"@);
    lemma_walk2("config"@, "init"@);
    lemma_walk2("plugin"@, "list"@);
    lemma_walk2("cache"@, "get"@);
    lemma_walk2("cache"@, "flush"@);
    lemma_walk2("cluster"@, "nodes"@);
    lemma_walk2("cluster"@, "info"@);
    lemma_walk2("cluster"@, "cache"@);
    lemma_walk3("cluster"@, "cache"@, "get"@);
    lemma_walk3("cluster"@, "cache"@, "flush"@);
    let d = documented_paths();
    assert forall|i: int| 0 <= i < d.len() implies names_command(#[trigger] d[i]) by {
        if i == 0 { assert(d[i] == seq!["server"@, "start"@]); }
        else if i == 1 { assert(d[i] == seq!["config"@, "show"@]); }
        else if i == 2 { assert(d[i] == seq!["config"@, "validate"@]); }
        else if i == 3 { assert(d[i] == seq!["config"@, "init"@]); }
        else if i == 4 { assert(d[i] == seq!["plugin"@, "list"@]); }
        else if i == 5 { assert(d[i] == seq!["cache"@, "get"@]); }
        else if i == 6 { assert(d[i] == seq!["cache"@, "flush"@]); }
        else if i == 7 { assert(d[i] == seq!["cluster"@, "nodes"@]); }
        else if i == 8 { assert(d[i] == seq!["cluster"@, "info"@]); }
        else if i == 9 { assert(d[i] == seq!["cluster"@, "cache"@, "get"@]); }
        else { assert(d[i] == seq!["cluster"@, "cache"@, "flush"@]); }
    }
}

fn path_of(words: &[&str]) -> (v: Vec<String>)
    ensures
        strings_view(v@) == words@.map_values(|w: &str| w@),
{
    let mut v: Vec<String> = Vec::new();
    let mut i: usize = 0;
    while i < words.len()
        invariant
            i <= words@.len(),
            v@.len() == i,
            forall|j: int| 0 <= j < i ==> (#[trigger] v@[j])@ == words@[j]@,
        decreases words@.len() - i,
    {
        let w: &str = words[i];
        let s = w.to_string();
        assert(s@ == w@);
        v.push(s);
        i = i + 1;
    }
    assert(strings_view(v@) =~= words@.map_values(|w: &str| w@));
    v
}

impl Cli {
    /// The table of documented commands.
    pub fn command() -> (c: CliCommand)
        ensures
            c.name@ == "rinfra"@,
            c.paths@.len() == documented_paths().len(),
            forall|i: int| 0 <= i < c.paths@.len() ==> strings_view(#[trigger] c.paths@[i]@) == documented_paths()[i],
            forall|i: int| 0 <= i < c.paths@.len() ==> names_command(strings_view(#[trigger] c.paths@[i]@)),
    {
        let table: [&[&str]; 11] = [
            &["server", "start"],
            &["config", "show"],
            &["config", "validate"],
            &["config", "init"],
            &["plugin", "list"],
            &["cache", "get"],
            &["cache", "flush"],
            &["cluster", "nodes"],
            &["cluster", "info"],
            &["cluster", "cache", "get"],
            &["cluster", "cache", "flush"],
        ];
        let ghost d = documented_paths();
        proof {
            lemma_documented_commands_parse();
            assert forall|i: int| 0 <= i < 11 implies (#[trigger] table@[i])@.map_values(|w: &str| w@) == d[i] by {
                assert(table@[i]@.map_values(|w: &str| w@) =~= d[i]);
            }
        }
        let mut paths: Vec<Vec<String>> = Vec::new();
        let mut i: usize = 0;
        while i < 11
            invariant
                i <= 11,
                paths@.len() == i,
                forall|j: int| 0 <= j < 11 ==> (#[trigger] table@[j])@.map_values(|w: &str| w@) == d[j],
                forall|j: int| 0 <= j < i ==> strings_view(#[trigger] paths@[j]@) == d[j],
            decreases 11 - i,
        {
            paths.push(path_of(table[i]));
            i = i + 1;
        }
        CliCommand { name: "rinfra".to_string(), paths }
    }
}

fn walk_exec(path: &Vec<String>) -> (r: Option<Level>)
    ensures
        r == walk(strings_view(path@)),
{
    let ghost pv = strings_view(path@);
    let mut level = Level::Root;
    let mut i: usize = 0;
    assert(pv.subrange(0, 0) =~= Seq::<Seq<char>>::empty());
    while i < path.len()
        invariant
            i <= path@.len(),
            pv == strings_view(path@),
            walk(pv.subrange(0, i as int)) == Some(level),
        decreases path@.len() - i,
    {
        let w = chars_of(path[i].as_str());
        assert(pv.subrange(0, i as int + 1).drop_last() =~= pv.subrange(0, i as int));
        assert(pv[i as int] == path@[i as int]@);
        match subcommand_exec(level, w.as_slice()) {
            Some(l) => {
                level = l;
            },
            None => {
                proof { lemma_walk_none_sticks(pv, (i + 1) as nat); }
                return None;
            },
        }
        i = i + 1;
    }
    assert(pv.subrange(0, path@.len() as int) =~= pv);
    Some(level)
}

proof fn lemma_walk_none_sticks(p: Seq<Seq<char>>, n: nat)
    requires
        n <= p.len(),
        walk(p.subrange(0, n as int)) is None,
    ensures
        walk(p) is None,
    decreases p.len() - n,
{
    if n < p.len() {
        assert(p.subrange(0, n as int + 1).drop_last() =~= p.subrange(0, n as int));
        lemma_walk_none_sticks(p, n + 1);
    } else {
        assert(p.subrange(0, n as int) =~= p);
    }
}

impl CliCommand {
    /// Checks the table against the grammar: every documented path is a
    /// complete command the parser accepts.
    pub fn debug_assert(&self) -> (ok: bool)
        ensures
            ok == forall|i: int| 0 <= i < self.paths@.len() ==> names_command(strings_view(#[trigger] self.paths@[i]@)),
    {
        let mut i: usize = 0;
        while i < self.paths.len()
            invariant
                i <= self.paths@.len(),
                forall|j: int| 0 <= j < i ==> names_command(strings_view(#[trigger] self.paths@[j]@)),
            decreases self.paths@.len() - i,
        {
            match walk_exec(&self.paths[i]) {
                Some(l) => {
                    if needs_subcommand_exec(l) {
                        return false;
                    }
                },
                None => {
                    return false;
                },
            }
            i = i + 1;
        }
        true
    }
}

// ── Dispatch ────────────────────────────────────────────────────────

/// What the program does for a parsed command line.
#[derive(Debug)]
pub enum CliTask {
    RunServer,
    ShowConfigDefaults,
    ShowConfig,
    ValidateConfig,
    InitConfig { output: String, force: bool },
    ListPlugins,
    LocalCacheGet { key: String },
    LocalCacheFlush,
    ClusterNodes { target: Option<String> },
    ClusterInfo { target: Option<String> },
    ClusterCacheGet { target: Option<String>, key: String },
    ClusterCacheFlush { target: Option<String> },
    /// A cluster-wide flush without `--yes`: warn and exit with status 1.
    RefuseUnconfirmedFlush,
    /// Hand the words to the application's own command handler.
    External { args: Vec<String> },
    /// An external subcommand without any word: an error.
    EmptyExternal,
}

/// The task for a parsed command line: no subcommand starts the server;
/// a cluster-wide flush needs `--yes`.
pub fn plan(cli: Cli) -> (t: CliTask)
    ensures
        match cli.command {
            None => t is RunServer,
            Some(Commands::Server(_)) => t is RunServer,
            Some(Commands::Config(a)) => match a.command {
                ConfigCommands::Show(s) => if s.defaults { t is ShowConfigDefaults } else { t is ShowConfig },
                ConfigCommands::Validate => t is ValidateConfig,
                ConfigCommands::Init(i) => t matches CliTask::InitConfig { output, force } && output == i.output && force == i.force,
            },
            Some(Commands::Plugin(_)) => t is ListPlugins,
            Some(Commands::Cache(a)) => match a.command {
                CacheCommands::Get { key } => t matches CliTask::LocalCacheGet { key: k } && k == key,
                CacheCommands::Flush => t is LocalCacheFlush,
            },
            Some(Commands::Cluster(a)) => match a.command {
                ClusterCommands::Nodes => t matches CliTask::ClusterNodes { target } && target == a.target,
                ClusterCommands::Info => t matches CliTask::ClusterInfo { target } && target == a.target,
                ClusterCommands::Cache(c) => match c.command {
                    ClusterCacheCommands::Get { key } => t matches CliTask::ClusterCacheGet { target, key: k }
                        && target == a.target && k == key,
                    ClusterCacheCommands::Flush { yes } => if yes {
                        t matches CliTask::ClusterCacheFlush { target } && target == a.target
                    } else {
                        t is RefuseUnconfirmedFlush
                    },
                },
            },
            Some(Commands::External(args)) => if args@.len() == 0 {
                t is EmptyExternal
            } else {
                t matches CliTask::External { args: a } && a == args
            },
        },
{
    match cli.command {
        None => CliTask::RunServer,
        Some(Commands::Server(_)) => CliTask::RunServer,
        Some(Commands::Config(a)) => match a.command {
            ConfigCommands::Show(s) => if s.defaults { CliTask::ShowConfigDefaults } else { CliTask::ShowConfig },
            ConfigCommands::Validate => CliTask::ValidateConfig,
            ConfigCommands::Init(i) => CliTask::InitConfig { output: i.output, force: i.force },
        },
        Some(Commands::Plugin(_)) => CliTask::ListPlugins,
        Some(Commands::Cache(a)) => match a.command {
            CacheCommands::Get { key } => CliTask::LocalCacheGet { key },
            CacheCommands::Flush => CliTask::LocalCacheFlush,
        },
        Some(Commands::Cluster(a)) => match a.command {
            ClusterCommands::Nodes => CliTask::ClusterNodes { target: a.target },
            ClusterCommands::Info => CliTask::ClusterInfo { target: a.target },
            ClusterCommands::Cache(c) => match c.command {
                ClusterCacheCommands::Get { key } => CliTask::ClusterCacheGet { target: a.target, key },
                ClusterCacheCommands::Flush { yes } => {
                    if yes {
                        CliTask::ClusterCacheFlush { target: a.target }
                    } else {
                        CliTask::RefuseUnconfirmedFlush
                    }
                },
            },
        },
        Some(Commands::External(args)) => {
            if args.len() == 0 {
                CliTask::EmptyExternal
            } else {
                CliTask::External { args }
            }
        },
    }
}

// ── Configuration file lookup ───────────────────────────────────────

/// Whether a file or directory exists at `path` (`Path::exists`). The
/// answer depends on the file system at the time of the call, so nothing
/// is stated of it.
#[verifier::external_body]
fn path_exists(path: &str) -> (b: bool)
{
    std::path::Path::new(path).exists()
}

/// The places searched for a configuration file after the one given.
pub open spec fn config_candidates() -> Seq<Seq<char>> {
    seq!["config/standalone.example.yaml"@, "../config/standalone.example.yaml"@, "../../config/standalone.example.yaml"@]
}

/// The configuration file chosen, given which of the given path and the
/// candidates exist: the given path if it exists, else the first existing
/// candidate, else the given path.
pub open spec fn spec_select_config(hint: Seq<char>, hint_exists: bool, exists: Seq<bool>) -> Seq<char> {
    if hint_exists {
        hint
    } else if exists[0] {
        config_candidates()[0]
    } else if exists[1] {
        config_candidates()[1]
    } else if exists[2] {
        config_candidates()[2]
    } else {
        hint
    }
}

pub fn select_config(hint: &str, hint_exists: bool, exists: &[bool; 3]) -> (r: String)
    ensures
        r@ == spec_select_config(hint@, hint_exists, exists@),
{
    if hint_exists {
        return hint.to_string();
    }
    if exists[0] {
        return "config/standalone.example.yaml".to_string();
    }
    if exists[1] {
        return "../config/standalone.example.yaml".to_string();
    }
    if exists[2] {
        return "../../config/standalone.example.yaml".to_string();
    }
    hint.to_string()
}

/// Finds the configuration file: the given path if it exists, else the
/// first existing one of the usual places, else the given path. Which of
/// them exist is read from the file system, so the contract states the
/// choice for some answer of it.
pub fn find_config(hint: &str) -> (r: String)
    ensures
        r@ == hint@ || config_candidates().contains(r@),
        exists|h: bool, e: Seq<bool>| e.len() == 3 && r@ == #[trigger] spec_select_config(hint@, h, e),
{
    let hint_exists = path_exists(hint);
    let exists = [
        path_exists("config/standalone.example.yaml"),
        path_exists("../config/standalone.example.yaml"),
        path_exists("../../config/standalone.example.yaml"),
    ];
    let r = select_config(hint, hint_exists, &exists);
    proof {
        let c = config_candidates();
        assert(c[0] == "config/standalone.example.yaml"@);
        assert(c[1] == "../config/standalone.example.yaml"@);
        assert(c[2] == "../../config/standalone.example.yaml"@);
        assert(exists@.len() == 3);
        assert(r@ == spec_select_config(hint@, hint_exists, exists@));
    }
    r
}

// ── Remote client addressing ────────────────────────────────────────

/// The protocol a listener speaks.
#[derive(Debug, Clone, Copy, PartialEq, Eq, Structural)]
pub enum ListenerProtocol {
    Http,
    Tcp,
    Ws,
    Grpc,
}

/// A configured listener.
pub struct ListenerSpec {
    pub name: String,
    pub protocol: ListenerProtocol,
    pub bind: String,
}

/// The configuration a CLI client is built from.
pub struct ClientSettings {
    pub listeners: Vec<ListenerSpec>,
    pub main_address: String,
    pub cluster_token: String,
}

impl ClientSettings {
    pub fn new() -> (s: ClientSettings)
        ensures
            s.listeners@.len() == 0,
            s.main_address@.len() == 0,
            s.cluster_token@.len() == 0,
    {
        ClientSettings { listeners: Vec::new(), main_address: String::new(), cluster_token: String::new() }
    }
}

/// The bind address of the first HTTP listener, or `127.0.0.1:8080`.
pub open spec fn first_http_bind(ls: Seq<ListenerSpec>) -> Seq<char> {
    if exists|i: int| 0 <= i < ls.len() && ls[i].protocol == ListenerProtocol::Http {
        let i = choose|i: int| 0 <= i < ls.len() && ls[i].protocol == ListenerProtocol::Http
            && forall|j: int| 0 <= j < i ==> ls[j].protocol != ListenerProtocol::Http;
        ls[i].bind@
    } else {
        "127.0.0.1:8080"@
    }
}

/// The address the local HTTP listener is reached at: a bind-all
/// `0.0.0.0` prefix becomes `127.0.0.1`.
pub open spec fn spec_http_bind(ls: Seq<ListenerSpec>) -> Seq<char> {
    let b = first_http_bind(ls);
    if is_prefix("0.0.0.0"@, b) { "127.0.0.1"@ + b.subrange(7, b.len() as int) } else { b }
}

pub fn find_http_bind(listeners: &Vec<ListenerSpec>) -> (r: String)
    ensures
        r@ == spec_http_bind(listeners@),
{
    proof {
        reveal_strlit("0.0.0.0");
        reveal_strlit("127.0.0.1");
    }
    let mut i: usize = 0;
    while i < listeners.len() && listeners[i].protocol != ListenerProtocol::Http
        invariant
            i <= listeners@.len(),
            forall|j: int| 0 <= j < i ==> listeners@[j].protocol != ListenerProtocol::Http,
        decreases listeners@.len() - i,
    {
        i = i + 1;
    }
    let bind = if i < listeners.len() {
        proof {
            let c = choose|c: int| 0 <= c < listeners@.len() && listeners@[c].protocol == ListenerProtocol::Http
                && forall|j: int| 0 <= j < c ==> listeners@[j].protocol != ListenerProtocol::Http;
            if c < i {
                assert(listeners@[c].protocol != ListenerProtocol::Http);
            }
            assert(c == i);
        }
        listeners[i].bind.clone()
    } else {
        "127.0.0.1:8080".to_string()
    };
    assert(bind@ == first_http_bind(listeners@));
    let cs = chars_of(bind.as_str());
    let p = chars_of("0.0.0.0");
    if starts_with(cs.as_slice(), p.as_slice()) {
        let rest = string_from_chars(sub_chars(cs.as_slice(), 7, cs.len()).as_slice());
        concat_str("127.0.0.1", rest.as_str())
    } else {
        bind
    }
}

/// The address a cluster command goes to: the `--target` given, else the
/// configured main node, else the local HTTP listener.
pub open spec fn spec_cluster_addr(s: ClientSettings, target: Option<Seq<char>>) -> Seq<char> {
    match target {
        Some(t) => t,
        None => if s.main_address@.len() > 0 { s.main_address@ } else { spec_http_bind(s.listeners@) },
    }
}

/// `addr` as a base URL: kept when it already names `http://` or
/// `https://`, else prefixed with `http://`.
pub open spec fn spec_base_url(addr: Seq<char>) -> Seq<char> {
    if is_prefix("http://"@, addr) || is_prefix("https://"@, addr) { addr } else { "http://"@ + addr }
}

/// Law: a cluster client goes to the `--target` given, when one is; an
/// address that already starts with `https://` or `http://` is used as it
/// is, and any other gets `http://` in front.
pub proof fn lemma_cluster_base_url(s: ClientSettings, target: Seq<char>, addr: Seq<char>)
    ensures
        spec_cluster_addr(s, Some(target)) == target,
        addr.len() >= 8 && addr.subrange(0, 8) == seq!['h', 't', 't', 'p', 's', ':', '/', '/'] ==> spec_base_url(addr) == addr,
        addr.len() >= 7 && addr.subrange(0, 7) == seq!['h', 't', 't', 'p', ':', '/', '/'] ==> spec_base_url(addr) == addr,
        !(addr.len() >= 8 && addr.subrange(0, 8) == seq!['h', 't', 't', 'p', 's', ':', '/', '/'])
            && !(addr.len() >= 7 && addr.subrange(0, 7) == seq!['h', 't', 't', 'p', ':', '/', '/'])
            ==> spec_base_url(addr) == seq!['h', 't', 't', 'p', ':', '/', '/'] + addr,
{
    reveal_strlit("http://");
    reveal_strlit("https://");
    assert("http://"@ =~= seq!['h', 't', 't', 'p', ':', '/', '/']);
    assert("https://"@ =~= seq!['h', 't', 't', 'p', 's', ':', '/', '/']);
}

/// A client for the admin API of a running instance.
pub struct CliClient {
    pub base_url: String,
    pub token: String,
}

impl CliClient {
    /// A client for the local instance.
    pub fn for_local(settings: &ClientSettings) -> (c: CliClient)
        ensures
            c.base_url@ == "http://"@ + spec_http_bind(settings.listeners@),
            c.token@ == settings.cluster_token@,
    {
        let addr = find_http_bind(&settings.listeners);
        CliClient { base_url: concat_str("http://", addr.as_str()), token: settings.cluster_token.clone() }
    }

    /// A client for the cluster's main node.
    pub fn for_cluster(settings: &ClientSettings, target_override: Option<&str>) -> (c: CliClient)
        ensures
            c.base_url@ == spec_base_url(spec_cluster_addr(*settings, match target_override { Some(t) => Some(t@), None => None })),
            c.token@ == settings.cluster_token@,
    {
        let addr = match target_override {
            Some(t) => t.to_string(),
            None => {
                if !settings.main_address.as_str().is_empty() {
                    settings.main_address.clone()
                } else {
                    find_http_bind(&settings.listeners)
                }
            },
        };
        let cs = chars_of(addr.as_str());
        let http = chars_of("http://");
        let https = chars_of("https://");
        let base_url = if starts_with(cs.as_slice(), http.as_slice()) || starts_with(cs.as_slice(), https.as_slice()) {
            addr
        } else {
            concat_str("http://", addr.as_str())
        };
        CliClient { base_url, token: settings.cluster_token.clone() }
    }

    /// The bearer token to send, if any.
    pub fn bearer(&self) -> (t: Option<&str>)
        ensures
            match t {
                Some(s) => self.token@.len() > 0 && s@ == self.token@,
                None => self.token@.len() == 0,
            },
    {
        if !self.token.as_str().is_empty() { Some(self.token.as_str()) } else { None }
    }

    /// `GET` address of a cache entry.
    pub fn cache_get_url(&self, key: &str) -> (u: String)
        ensures
            u@ == self.base_url@ + "/api/admin/cache/"@ + key@,
    {
        let a = concat_str(self.base_url.as_str(), "/api/admin/cache/");
        concat_str(a.as_str(), key)
    }

    /// `POST` address of a cache flush.
    pub fn cache_flush_url(&self) -> (u: String)
        ensures
            u@ == self.base_url@ + "/api/admin/cache/flush"@,
    {
        concat_str(self.base_url.as_str(), "/api/admin/cache/flush")
    }

    /// `GET` address of the node list.
    pub fn cluster_nodes_url(&self) -> (u: String)
        ensures
            u@ == self.base_url@ + "/api/admin/cluster/nodes"@,
    {
        concat_str(self.base_url.as_str(), "/api/admin/cluster/nodes")
    }

    /// `GET` address of the health summary.
    pub fn cluster_info_url(&self) -> (u: String)
        ensures
            u@ == self.base_url@ + "/api/admin/health"@,
    {
        concat_str(self.base_url.as_str(), "/api/admin/health")
    }
}

// ── Plugin overview ─────────────────────────────────────────────────

/// The message bus backend.
#[derive(Debug, Clone, Copy, PartialEq, Eq, Structural)]
pub enum MqBackend {
    /// No message bus.
    Off,
    Memory,
    Nats,
    RedisStreams,
}

/// Which plugins a configuration turns on.
pub struct PluginSettings {
    pub log_stdout: bool,
    pub store_postgres: bool,
    pub cache_memory: bool,
    pub cache_redis: bool,
    pub cache_multilevel: bool,
    pub ratelimit_memory: bool,
    pub ratelimit_redis: bool,
    pub crypto_aesgcm: bool,
    pub mq_backend: MqBackend,
    pub script_wasm: bool,
    pub cluster: bool,
    pub admin: bool,
    pub admin_auth: bool,
    pub listeners: Vec<String>,
}

pub open spec fn opt_name(on: bool, n: Seq<char>) -> Seq<Seq<char>> {
    if on { seq![n] } else { Seq::empty() }
}

pub open spec fn net_names(ls: Seq<String>) -> Seq<Seq<char>> {
    ls.map_values(|l: String| "net."@ + l@)
}

/// The names of the enabled plugins, in the order they are reported.
pub open spec fn spec_enabled(p: PluginSettings) -> Seq<Seq<char>> {
    opt_name(p.log_stdout, "log.stdout"@)
    + net_names(p.listeners@)
    + opt_name(p.store_postgres, "store.postgres"@)
    + opt_name(p.cache_memory, "cache.memory"@)
    + opt_name(p.cache_redis, "cache.redis"@)
    + opt_name(p.cache_multilevel, "cache.multilevel"@)
    + opt_name(p.ratelimit_memory, "ratelimit.memory"@)
    + opt_name(p.ratelimit_redis, "ratelimit.redis"@)
    + opt_name(p.crypto_aesgcm, "crypto.aesgcm"@)
    + mq_names(p.mq_backend)
    + opt_name(p.script_wasm, "script.wasm"@)
    + opt_name(p.cluster, "cluster"@)
    + opt_name(p.admin && p.admin_auth, "admin (auth)"@)
    + opt_name(p.admin && !p.admin_auth, "admin"@)
}

/// The name of the message bus plugin, if one is configured.
pub open spec fn mq_names(b: MqBackend) -> Seq<Seq<char>> {
    match b {
        MqBackend::Memory => seq!["mq.memory"@],
        MqBackend::Nats => seq!["mq.nats"@],
        MqBackend::RedisStreams => seq!["mq.redis_streams"@],
        MqBackend::Off => Seq::empty(),
    }
}

fn push_net_names(out: &mut Vec<String>, listeners: &Vec<String>)
    ensures
        strings_view(final(out)@) == strings_view(old(out)@) + net_names(listeners@),
{
    let ghost before = strings_view(out@);
    let mut i: usize = 0;
    assert(net_names(listeners@.subrange(0, 0)) =~= Seq::<Seq<char>>::empty());
    assert(before + Seq::<Seq<char>>::empty() =~= before);
    while i < listeners.len()
        invariant
            i <= listeners@.len(),
            strings_view(out@) == before + net_names(listeners@.subrange(0, i as int)),
        decreases listeners@.len() - i,
    {
        let ghost prev = out@;
        out.push(concat_str("net.", listeners[i].as_str()));
        assert(net_names(listeners@.subrange(0, i as int + 1)) =~= net_names(listeners@.subrange(0, i as int)).push("net."@ + listeners@[i as int]@));
        assert(strings_view(out@) =~= strings_view(prev).push("net."@ + listeners@[i as int]@));
        i = i + 1;
    }
    assert(listeners@.subrange(0, listeners@.len() as int) =~= listeners@);
}

fn push_mq(out: &mut Vec<String>, b: MqBackend)
    ensures
        strings_view(final(out)@) == strings_view(old(out)@) + mq_names(b),
{
    match b {
        MqBackend::Memory => out.push("mq.memory".to_string()),
        MqBackend::Nats => out.push("mq.nats".to_string()),
        MqBackend::RedisStreams => out.push("mq.redis_streams".to_string()),
        MqBackend::Off => {},
    }
    assert(strings_view(out@) =~= strings_view(old(out)@) + mq_names(b));
}

fn push_name(out: &mut Vec<String>, on: bool, name: &str)
    ensures
        strings_view(final(out)@) == strings_view(old(out)@) + opt_name(on, name@),
{
    if on {
        out.push(name.to_string());
        assert(strings_view(out@) =~= strings_view(old(out)@) + opt_name(on, name@));
    } else {
        assert(strings_view(out@) =~= strings_view(old(out)@) + opt_name(on, name@));
    }
}

/// The enabled plugins, as `config show` lists them.
#[verifier::rlimit(60)]
pub fn collect_enabled(p: &PluginSettings) -> (r: Vec<String>)
    ensures
        strings_view(r@) == spec_enabled(*p),
{
    let mut out: Vec<String> = Vec::new();
    assert(strings_view(out@) =~= Seq::<Seq<char>>::empty());
    push_name(&mut out, p.log_stdout, "log.stdout");
    assert(strings_view(out@) =~= opt_name(p.log_stdout, "log.stdout"@));
    push_net_names(&mut out, &p.listeners);
    push_name(&mut out, p.store_postgres, "store.postgres");
    push_name(&mut out, p.cache_memory, "cache.memory");
    push_name(&mut out, p.cache_redis, "cache.redis");
    push_name(&mut out, p.cache_multilevel, "cache.multilevel");
    push_name(&mut out, p.ratelimit_memory, "ratelimit.memory");
    push_name(&mut out, p.ratelimit_redis, "ratelimit.redis");
    push_name(&mut out, p.crypto_aesgcm, "crypto.aesgcm");
    push_mq(&mut out, p.mq_backend);
    push_name(&mut out, p.script_wasm, "script.wasm");
    push_name(&mut out, p.cluster, "cluster");
    push_name(&mut out, p.admin && p.admin_auth, "admin (auth)");
    push_name(&mut out, p.admin && !p.admin_auth, "admin");
    out
}

/// One line of the plugin overview.
pub struct PluginInfo {
    pub name: String,
    pub category: String,
    pub status: String,
}

/// A plugin as plain data: name, category, enabled.
pub open spec fn info_view(i: PluginInfo) -> (Seq<char>, Seq<char>, Seq<char>) {
    (i.name@, i.category@, i.status@)
}

pub open spec fn status_text(on: bool) -> Seq<char> {
    if on { "enabled"@ } else { "available"@ }
}

/// The plugin overview: every known plugin with its category and whether
/// the configuration enables it, then each listener as an enabled network plugin.
pub open spec fn spec_plugin_list(p: PluginSettings) -> Seq<(Seq<char>, Seq<char>, Seq<char>)> {
    spec_known_plugins(p) + p.listeners@.map_values(|l: String| (l@, "network"@, status_text(true)))
}

/// The plugins every configuration knows of, with their status.
pub open spec fn spec_known_plugins(p: PluginSettings) -> Seq<(Seq<char>, Seq<char>, Seq<char>)> {
    seq![
        ("log.stdout"@, "logging"@, status_text(p.log_stdout)),
        ("store.postgres"@, "storage"@, status_text(p.store_postgres)),
        ("cache.memory"@, "cache"@, status_text(p.cache_memory)),
        ("cache.redis"@, "cache"@, status_text(p.cache_redis)),
        ("cache.multilevel"@, "cache"@, status_text(p.cache_multilevel)),
        ("ratelimit.memory"@, "ratelimit"@, status_text(p.ratelimit_memory)),
        ("ratelimit.redis"@, "ratelimit"@, status_text(p.ratelimit_redis)),
        ("crypto.aesgcm"@, "crypto"@, status_text(p.crypto_aesgcm)),
        ("codec.json"@, "codec"@, status_text(true)),
        ("codec.msgpack"@, "codec"@, status_text(true)),
        ("codec.protobuf"@, "codec"@, status_text(true)),
        ("mq.memory"@, "messaging"@, status_text(p.mq_backend == MqBackend::Memory)),
        ("script.wasm"@, "scripting"@, status_text(p.script_wasm)),
        ("cluster"@, "cluster"@, status_text(p.cluster)),
        ("admin"@, "admin"@, status_text(p.admin))
    ]
}

fn info(name: &str, category: &str, on: bool) -> (i: PluginInfo)
    ensures
        info_view(i) == (name@, category@, status_text(on)),
{
    PluginInfo {
        name: name.to_string(),
        category: category.to_string(),
        status: if on { "enabled".to_string() } else { "available".to_string() },
    }
}

#[verifier::rlimit(80)]
fn known_plugins(p: &PluginSettings) -> (v: Vec<PluginInfo>)
    ensures
        v@.len() == 15,
        forall|j: int| 0 <= j < 15 ==> info_view(#[trigger] v@[j]) == spec_known_plugins(*p)[j],
{
    let mut v: Vec<PluginInfo> = Vec::new();
    v.push(info("log.stdout", "logging", p.log_stdout));
    v.push(info("store.postgres", "storage", p.store_postgres));
    v.push(info("cache.memory", "cache", p.cache_memory));
    v.push(info("cache.redis", "cache", p.cache_redis));
    v.push(info("cache.multilevel", "cache", p.cache_multilevel));
    v.push(info("ratelimit.memory", "ratelimit", p.ratelimit_memory));
    v.push(info("ratelimit.redis", "ratelimit", p.ratelimit_redis));
    v.push(info("crypto.aesgcm", "crypto", p.crypto_aesgcm));
    v.push(info("codec.json", "codec", true));
    v.push(info("codec.msgpack", "codec", true));
    v.push(info("codec.protobuf", "codec", true));
    v.push(info("mq.memory", "messaging", p.mq_backend == MqBackend::Memory));
    v.push(info("script.wasm", "scripting", p.script_wasm));
    v.push(info("cluster", "cluster", p.cluster));
    v.push(info("admin", "admin", p.admin));
    v
}

/// Lists every plugin with its category and status.
pub fn plugin_list(p: &PluginSettings) -> (r: Vec<PluginInfo>)
    ensures
        r@.map_values(|i: PluginInfo| info_view(i)) == spec_plugin_list(*p),
{
    let mut v = known_plugins(p);
    let ghost fixed = spec_known_plugins(*p);
    let ghost listeners = p.listeners@.map_values(|l: String| (l@, "network"@, status_text(true)));
    let mut i: usize = 0;
    while i < p.listeners.len()
        invariant
            i <= p.listeners@.len(),
            v@.len() == 15 + i,
            fixed == spec_known_plugins(*p),
            fixed.len() == 15,
            listeners == p.listeners@.map_values(|l: String| (l@, "network"@, status_text(true))),
            forall|j: int| 0 <= j < 15 ==> info_view(#[trigger] v@[j]) == fixed[j],
            forall|j: int| 0 <= j < i ==> info_view(#[trigger] v@[15 + j]) == listeners[j],
        decreases p.listeners@.len() - i,
    {
        v.push(info(p.listeners[i].as_str(), "network", true));
        i = i + 1;
    }
    let ghost mapped = v@.map_values(|i: PluginInfo| info_view(i));
    assert forall|j: int| 0 <= j < v@.len() implies #[trigger] mapped[j] == (fixed + listeners)[j] by {
        if j >= 15 {
            assert(info_view(v@[15 + (j - 15)]) == listeners[j - 15]);
        }
    }
    assert(mapped =~= fixed + listeners);
    v
}

// ── Reading the configuration tree ──────────────────────────────────

/// A listener's protocol from its configured name, case-insensitively:
/// `tcp`, `ws` or `websocket`, `grpc`; anything else is HTTP.
pub open spec fn spec_listener_protocol(name: Seq<char>) -> ListenerProtocol {
    let l = lowercased(name);
    if l == "tcp"@ {
        ListenerProtocol::Tcp
    } else if l == "ws"@ || l == "websocket"@ {
        ListenerProtocol::Ws
    } else if l == "grpc"@ {
        ListenerProtocol::Grpc
    } else {
        ListenerProtocol::Http
    }
}

pub fn listener_protocol(name: &str) -> (p: ListenerProtocol)
    ensures
        p == spec_listener_protocol(name@),
{
    let lower = to_lowercase(name);
    let l = chars_of(lower.as_str());
    if is_word(l.as_slice(), "tcp") {
        ListenerProtocol::Tcp
    } else if is_word(l.as_slice(), "ws") || is_word(l.as_slice(), "websocket") {
        ListenerProtocol::Ws
    } else if is_word(l.as_slice(), "grpc") {
        ListenerProtocol::Grpc
    } else {
        ListenerProtocol::Http
    }
}

/// The message bus backend from its configured name: `nats`,
/// `redis_streams`, `none`; anything else is the in-memory bus.
pub open spec fn spec_mq_backend(name: Seq<char>) -> MqBackend {
    if name == "nats"@ {
        MqBackend::Nats
    } else if name == "redis_streams"@ {
        MqBackend::RedisStreams
    } else if name == "none"@ {
        MqBackend::Off
    } else {
        MqBackend::Memory
    }
}

pub fn mq_backend(name: &str) -> (b: MqBackend)
    ensures
        b == spec_mq_backend(name@),
{
    let l = chars_of(name);
    if is_word(l.as_slice(), "nats") {
        MqBackend::Nats
    } else if is_word(l.as_slice(), "redis_streams") {
        MqBackend::RedisStreams
    } else if is_word(l.as_slice(), "none") {
        MqBackend::Off
    } else {
        MqBackend::Memory
    }
}

/// A listener as plain values: name, protocol, bind address.
pub open spec fn listener_view(l: ListenerSpec) -> (Seq<char>, ListenerProtocol, Seq<char>) {
    (l.name@, l.protocol, l.bind@)
}

/// The listener an item of `plugins.net.listeners` describes.
pub open spec fn spec_listener_of(t: Tree) -> (Seq<char>, ListenerProtocol, Seq<char>) {
    (spec_text(t, "name"@, ""@), spec_listener_protocol(spec_text(t, "protocol"@, "http"@)), spec_text(t, "bind"@, ""@))
}

/// The listeners the configuration declares under `plugins.net.listeners`
/// (none when that is not an array).
pub open spec fn spec_listeners(root: Tree) -> Seq<(Seq<char>, ListenerProtocol, Seq<char>)> {
    match spec_get(root, dotted("plugins.net.listeners"@)) {
        Some(Tree::Array(items)) => items.map_values(|t: Tree| spec_listener_of(t)),
        _ => Seq::empty(),
    }
}

fn listener_of(item: &ConfigValue) -> (l: ListenerSpec)
    ensures
        listener_view(l) == spec_listener_of(tree_of(*item)),
{
    let name = text(item, "name", "");
    let proto = text(item, "protocol", "http");
    let bind = text(item, "bind", "");
    ListenerSpec { name, protocol: listener_protocol(proto.as_str()), bind }
}

pub fn config_listeners(v: &ConfigValue) -> (r: Vec<ListenerSpec>)
    ensures
        r@.map_values(|l: ListenerSpec| listener_view(l)) == spec_listeners(tree_of(*v)),
{
    let mut out: Vec<ListenerSpec> = Vec::new();
    match lookup(v, "plugins.net.listeners") {
        Some(ConfigValue::Array(items)) => {
            let mut i: usize = 0;
            while i < items.len()
                invariant
                    i <= items@.len(),
                    out@.map_values(|l: ListenerSpec| listener_view(l))
                        == items@.subrange(0, i as int).map_values(|x: ConfigValue| spec_listener_of(tree_of(x))),
                decreases items@.len() - i,
            {
                let l = listener_of(&items[i]);
                let ghost before = out@;
                proof {
                    assert(items@.subrange(0, i as int + 1).map_values(|x: ConfigValue| spec_listener_of(tree_of(x)))
                        =~= items@.subrange(0, i as int).map_values(|x: ConfigValue| spec_listener_of(tree_of(x))).push(
                            spec_listener_of(tree_of(items@[i as int])),
                        ));
                }
                out.push(l);
                assert(out@.map_values(|l: ListenerSpec| listener_view(l))
                    =~= before.map_values(|l: ListenerSpec| listener_view(l)).push(listener_view(l)));
                i = i + 1;
            }
            proof {
                lemma_trees_of(items@);
                assert(items@.subrange(0, items@.len() as int) =~= items@);
                assert(trees_of(items@).map_values(|t: Tree| spec_listener_of(t))
                    =~= items@.map_values(|x: ConfigValue| spec_listener_of(tree_of(x))));
                assert(tree_of(ConfigValue::Array(*items)) == Tree::Array(trees_of(items@)));
            }
            out
        },
        _ => {
            assert(out@.map_values(|l: ListenerSpec| listener_view(l)) =~= Seq::<(Seq<char>, ListenerProtocol, Seq<char>)>::empty());
            out
        },
    }
}

/// What a CLI client needs from the configuration: its listeners and the
/// cluster's main address and token.
pub fn client_settings(v: &ConfigValue) -> (s: ClientSettings)
    ensures
        s.listeners@.map_values(|l: ListenerSpec| listener_view(l)) == spec_listeners(tree_of(*v)),
        s.main_address@ == spec_text(tree_of(*v), "plugins.cluster.main_address"@, ""@),
        s.cluster_token@ == spec_text(tree_of(*v), "plugins.cluster.cluster_token"@, ""@),
{
    ClientSettings {
        listeners: config_listeners(v),
        main_address: text(v, "plugins.cluster.main_address", ""),
        cluster_token: text(v, "plugins.cluster.cluster_token", ""),
    }
}

/// Which plugins the configuration turns on, each with its default.
pub fn plugin_settings(v: &ConfigValue) -> (p: PluginSettings)
    ensures
        p.log_stdout == spec_flag(tree_of(*v), "plugins.log.stdout.enabled"@, true),
        p.store_postgres == spec_flag(tree_of(*v), "plugins.store.postgres.enabled"@, false),
        p.cache_memory == spec_flag(tree_of(*v), "plugins.cache.memory.enabled"@, true),
        p.cache_redis == spec_flag(tree_of(*v), "plugins.cache.redis.enabled"@, false),
        p.cache_multilevel == spec_flag(tree_of(*v), "plugins.cache.multilevel.enabled"@, false),
        p.ratelimit_memory == spec_flag(tree_of(*v), "plugins.ratelimit.memory.enabled"@, false),
        p.ratelimit_redis == spec_flag(tree_of(*v), "plugins.ratelimit.redis.enabled"@, false),
        p.crypto_aesgcm == spec_flag(tree_of(*v), "plugins.crypto.aesgcm.enabled"@, false),
        p.mq_backend == spec_mq_backend(spec_text(tree_of(*v), "plugins.mq.backend"@, "memory"@)),
        p.script_wasm == spec_flag(tree_of(*v), "plugins.script.wasm.enabled"@, false),
        p.cluster == (spec_text(tree_of(*v), "plugins.cluster.mode"@, "standalone"@) == "cluster"@),
        p.admin == spec_flag(tree_of(*v), "plugins.admin.enabled"@, true),
        p.admin_auth == spec_flag(tree_of(*v), "plugins.admin.auth.enabled"@, false),
        p.listeners@.map_values(|n: String| n@) == spec_listeners(tree_of(*v)).map_values(
            |l: (Seq<char>, ListenerProtocol, Seq<char>)| l.0,
        ),
{
    let ls = config_listeners(v);
    let ghost lv = ls@.map_values(|l: ListenerSpec| listener_view(l));
    let mut names: Vec<String> = Vec::new();
    let mut i: usize = 0;
    while i < ls.len()
        invariant
            i <= ls@.len(),
            lv == ls@.map_values(|l: ListenerSpec| listener_view(l)),
            names@.map_values(|n: String| n@) == lv.subrange(0, i as int).map_values(
                |l: (Seq<char>, ListenerProtocol, Seq<char>)| l.0,
            ),
        decreases ls@.len() - i,
    {
        let nm = ls[i].name.clone();
        let ghost before = names@;
        proof {
            assert(lv[i as int] == listener_view(ls@[i as int]));
            assert(nm@ == lv[i as int].0);
            assert(lv.subrange(0, i as int + 1).map_values(|l: (Seq<char>, ListenerProtocol, Seq<char>)| l.0)
                =~= lv.subrange(0, i as int).map_values(|l: (Seq<char>, ListenerProtocol, Seq<char>)| l.0).push(lv[i as int].0));
        }
        names.push(nm);
        assert(names@.map_values(|n: String| n@) =~= before.map_values(|n: String| n@).push(nm@));
        i = i + 1;
    }
    assert(lv.subrange(0, ls@.len() as int) =~= lv);
    let mode = text(v, "plugins.cluster.mode", "standalone");
    let mode_chars = chars_of(mode.as_str());
    let backend = text(v, "plugins.mq.backend", "memory");
    PluginSettings {
        log_stdout: flag(v, "plugins.log.stdout.enabled", true),
        store_postgres: flag(v, "plugins.store.postgres.enabled", false),
        cache_memory: flag(v, "plugins.cache.memory.enabled", true),
        cache_redis: flag(v, "plugins.cache.redis.enabled", false),
        cache_multilevel: flag(v, "plugins.cache.multilevel.enabled", false),
        ratelimit_memory: flag(v, "plugins.ratelimit.memory.enabled", false),
        ratelimit_redis: flag(v, "plugins.ratelimit.redis.enabled", false),
        crypto_aesgcm: flag(v, "plugins.crypto.aesgcm.enabled", false),
        mq_backend: mq_backend(backend.as_str()),
        script_wasm: flag(v, "plugins.script.wasm.enabled", false),
        cluster: is_word(mode_chars.as_slice(), "cluster"),
        admin: flag(v, "plugins.admin.enabled", true),
        admin_auth: flag(v, "plugins.admin.auth.enabled", false),
        listeners: names,
    }
}

} // verus!
