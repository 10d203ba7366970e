//! The tool adapters: what is known of a tool, how a project is probed for
//! it, and how what it reports becomes diagnostics.

use crate::json::{json_text, parse_json, Json, JsonValue};
use crate::text::{copy_texts, texts};
use vstd::prelude::*;
use vstd::string::*;

pub mod eslint;
pub mod phpcs;
pub mod phpstan;
pub mod stylelint;

verus! {

/// How one tool is called and for which files.
#[derive(Debug, Clone, PartialEq, Eq)]
pub struct PluginSetting {
    /// The command: a path or a bare name.
    pub cmd: String,
    /// The arguments that come before the file.
    pub args: Vec<String>,
    /// The file extensions, without the dot, that the tool is run for.
    pub filetypes: Vec<String>,
}

/// What a [`PluginSetting`] holds.
pub struct PluginSettingView {
    pub cmd: Seq<char>,
    pub args: Seq<Seq<char>>,
    pub filetypes: Seq<Seq<char>>,
}

impl View for PluginSetting {
    type V = PluginSettingView;

    open spec fn view(&self) -> PluginSettingView {
        PluginSettingView {
            cmd: self.cmd@,
            args: texts(self.args@),
            filetypes: texts(self.filetypes@),
        }
    }
}

impl Default for PluginSetting {
    /// The setting that names nothing.
    fn default() -> (r: Self)
        ensures
            r@ == empty_setting(),
    {
        let r = PluginSetting { cmd: String::new(), args: Vec::new(), filetypes: Vec::new() };
        assert(r@.args =~= Seq::<Seq<char>>::empty());
        assert(r@.filetypes =~= Seq::<Seq<char>>::empty());
        r
    }
}

/// The setting with no command, no argument and no file type.
pub open spec fn empty_setting() -> PluginSettingView {
    PluginSettingView { cmd: Seq::empty(), args: Seq::empty(), filetypes: Seq::empty() }
}

/// What a tool found for a project is run with, once the editor's wishes are
/// taken in. The three parts go by three rules. A command that the editor
/// names stands in place of the one found. The editor's arguments follow the
/// tool's own. File types that the editor names stand in place of the tool's
/// own, all of them.
pub open spec fn merged(found: PluginSettingView, wished: PluginSettingView) -> PluginSettingView {
    PluginSettingView {
        cmd: if wished.cmd.len() > 0 {
            wished.cmd
        } else {
            found.cmd
        },
        args: found.args + wished.args,
        filetypes: if wished.filetypes.len() > 0 {
            wished.filetypes
        } else {
            found.filetypes
        },
    }
}

impl PluginSetting {
    /// A copy of this setting.
    pub fn duplicate(&self) -> (r: PluginSetting)
        ensures
            r@ == self@,
    {
        PluginSetting {
            cmd: self.cmd.clone(),
            args: copy_texts(&self.args),
            filetypes: copy_texts(&self.filetypes),
        }
    }

    /// Takes the editor's wishes into the setting that discovery found.
    pub fn merge(found: &PluginSetting, wished: &PluginSetting) -> (r: PluginSetting)
        ensures
            r@ == merged(found@, wished@),
    {
        let cmd = if wished.cmd.as_str().unicode_len() > 0 {
            wished.cmd.clone()
        } else {
            found.cmd.clone()
        };
        let mut args = copy_texts(&found.args);
        let ghost wanted = texts(found.args@) + texts(wished.args@);
        let mut i: usize = 0;
        assert(texts(args@).len() == found.args.len());
        assert forall|k: int| 0 <= k < args.len() implies args[k]@ == wanted[k] by {
            assert(texts(args@)[k] == texts(found.args@)[k]);
        }
        while i < wished.args.len()
            invariant
                i <= wished.args.len(),
                wanted == texts(found.args@) + texts(wished.args@),
                args.len() == found.args.len() + i,
                forall|k: int| 0 <= k < args.len() ==> args[k]@ == wanted[k],
            decreases wished.args.len() - i,
        {
            args.push(wished.args[i].clone());
            i = i + 1;
        }
        assert(texts(args@) =~= wanted);
        let filetypes = if wished.filetypes.len() > 0 {
            copy_texts(&wished.filetypes)
        } else {
            copy_texts(&found.filetypes)
        };
        PluginSetting { cmd, args, filetypes }
    }
}

/// The merge laws: the arguments are the tool's own and then the editor's, in
/// this order and with nothing lost, while file types that the editor names
/// leave none of the tool's own, and a command that it names is the command.
pub proof fn merge_laws(found: PluginSettingView, wished: PluginSettingView)
    ensures
        merged(found, wished).args.len() == found.args.len() + wished.args.len(),
        merged(found, wished).args.take(found.args.len() as int) == found.args,
        merged(found, wished).args.skip(found.args.len() as int) == wished.args,
        wished.filetypes.len() > 0 ==> merged(found, wished).filetypes == wished.filetypes,
        wished.filetypes.len() == 0 ==> merged(found, wished).filetypes == found.filetypes,
        wished.cmd.len() > 0 ==> merged(found, wished).cmd == wished.cmd,
        wished.cmd.len() == 0 ==> merged(found, wished).cmd == found.cmd,
        merged(found, empty_setting()) == found,
{
    let m = merged(found, wished);
    assert(m.args.take(found.args.len() as int) =~= found.args);
    assert(m.args.skip(found.args.len() as int) =~= wished.args);
    assert(found.args + Seq::<Seq<char>>::empty() =~= found.args);
}

/// A merged setting names a command and a file type wherever the one found
/// does.
pub proof fn merge_keeps_runnable(found: PluginSettingView, wished: PluginSettingView)
    requires
        found.cmd.len() > 0,
        found.filetypes.len() > 0,
    ensures
        merged(found, wished).cmd.len() > 0,
        merged(found, wished).filetypes.len() > 0,
{
}

/// How grave a finding is.
#[derive(Debug, Clone, Copy, PartialEq, Eq, Structural)]
pub enum Severity {
    Info,
    Warning,
    Error,
}

/// Where a finding lies in the document. Lines and columns count from zero.
#[derive(Debug, Clone, Copy, Eq, Hash, PartialEq, Structural)]
pub struct Position {
    pub line: u32,
    pub column: u32,
    pub line_end: u32,
    pub column_end: u32,
}

/// The place that begins and ends at one point.
pub open spec fn point(line: u32, column: u32) -> Position {
    Position { line, column, line_end: line, column_end: column }
}

/// One finding of a tool, in the form that the editor is given.
#[derive(Debug, Clone, PartialEq, Eq)]
pub struct PluginLineOutput {
    pub position: Position,
    pub text: String,
    pub severity: Severity,
}

/// What a [`PluginLineOutput`] holds.
pub struct Diagnostic {
    pub position: Position,
    pub text: Seq<char>,
    pub severity: Severity,
}

impl View for PluginLineOutput {
    type V = Diagnostic;

    open spec fn view(&self) -> Diagnostic {
        Diagnostic { position: self.position, text: self.text@, severity: self.severity }
    }
}

/// What a list of findings holds.
pub open spec fn diagnostics(messages: Seq<PluginLineOutput>) -> Seq<Diagnostic> {
    Seq::new(messages.len(), |i: int| messages[i]@)
}

/// The findings of one tool for one file.
#[derive(Debug, Clone, PartialEq, Eq)]
pub struct PluginOutput {
    pub messages: Vec<PluginLineOutput>,
}

impl View for PluginOutput {
    type V = Seq<Diagnostic>;

    open spec fn view(&self) -> Seq<Diagnostic> {
        diagnostics(self.messages@)
    }
}

impl Default for PluginOutput {
    /// No finding.
    fn default() -> (r: Self)
        ensures
            r@ == Seq::<Diagnostic>::empty(),
    {
        let r = PluginOutput { messages: Vec::new() };
        assert(r@ =~= Seq::<Diagnostic>::empty());
        r
    }
}

/// What a tool wrote while it ran.
#[derive(Debug, Clone, PartialEq, Eq)]
pub struct ToolOutput {
    pub stdout: Vec<u8>,
    pub stderr: Vec<u8>,
}

/// What one run of a tool came to.
#[derive(Debug, Clone, PartialEq, Eq)]
pub enum ReportOutcome {
    /// The report was read.
    Diagnostics(PluginOutput),
    /// The tool complained; this is what it wrote to its error stream.
    ToolError(Vec<u8>),
    /// The tool's output is no report of the expected shape.
    ParseFailure,
}

/// What a [`ReportOutcome`] holds.
pub enum Outcome {
    Diagnostics(Seq<Diagnostic>),
    ToolError(Seq<u8>),
    ParseFailure,
}

impl View for ReportOutcome {
    type V = Outcome;

    open spec fn view(&self) -> Outcome {
        match self {
            ReportOutcome::Diagnostics(output) => Outcome::Diagnostics(output@),
            ReportOutcome::ToolError(complaint) => Outcome::ToolError(complaint@),
            ReportOutcome::ParseFailure => Outcome::ParseFailure,
        }
    }
}

impl Outcome {
    /// The findings that an outcome gives the editor: those of a report that
    /// was read, and none otherwise.
    pub open spec fn published(self) -> Seq<Diagnostic> {
        match self {
            Outcome::Diagnostics(found) => found,
            _ => Seq::empty(),
        }
    }
}

impl ReportOutcome {
    /// The findings that this outcome gives the editor.
    pub fn into_messages(self) -> (r: Vec<PluginLineOutput>)
        ensures
            diagnostics(r@) == self@.published(),
    {
        match self {
            ReportOutcome::Diagnostics(output) => output.messages,
            _ => {
                let r: Vec<PluginLineOutput> = Vec::new();
                assert(diagnostics(r@) =~= Seq::<Diagnostic>::empty());
                r
            },
        }
    }
}

/// The whole number under `key` in an object.
pub open spec fn int_field(m: JsonValue, key: Seq<char>) -> Option<i64> {
    match m.field(key) {
        Some(v) => v.integer(),
        None => None,
    }
}

/// The text under `key` in an object.
pub open spec fn text_field(m: JsonValue, key: Seq<char>) -> Option<Seq<char>> {
    match m.field(key) {
        Some(v) => v.text(),
        None => None,
    }
}

/// The zero-based line for the line number under `key`, which counts from
/// one. A number below one or beyond `u32` is no line number.
pub open spec fn line_field(m: JsonValue, key: Seq<char>) -> Option<u32> {
    match int_field(m, key) {
        Some(n) => if 1 <= n <= u32::MAX {
            Some((n - 1) as u32)
        } else {
            None
        },
        None => None,
    }
}

/// The column under `key`, taken as the tool gives it. A number below zero
/// or beyond `u32` is no column.
pub open spec fn column_field(m: JsonValue, key: Seq<char>) -> Option<u32> {
    match int_field(m, key) {
        Some(n) => if 0 <= n <= u32::MAX {
            Some(n as u32)
        } else {
            None
        },
        None => None,
    }
}

/// Reads the whole number under `key`.
pub fn read_int(m: &Json, key: &str) -> (r: Option<i64>)
    ensures
        r == int_field(m@, key@),
{
    match m.get(key) {
        Some(v) => v.as_i64(),
        None => None,
    }
}

/// Reads the text under `key`.
pub fn read_text(m: &Json, key: &str) -> (r: Option<String>)
    ensures
        r is Some <==> text_field(m@, key@) is Some,
        r matches Some(s) ==> text_field(m@, key@) == Some(s@),
{
    match m.get(key) {
        Some(v) => match v.as_str() {
            Some(s) => Some(s.clone()),
            None => None,
        },
        None => None,
    }
}

/// Reads the line number under `key` and counts it from zero.
pub fn read_line(m: &Json, key: &str) -> (r: Option<u32>)
    ensures
        r == line_field(m@, key@),
{
    match read_int(m, key) {
        Some(n) => {
            if 1 <= n && n <= 0xffff_ffff {
                Some((n - 1) as u32)
            } else {
                None
            }
        },
        None => None,
    }
}

/// Reads the column under `key`.
pub fn read_column(m: &Json, key: &str) -> (r: Option<u32>)
    ensures
        r == column_field(m@, key@),
{
    match read_int(m, key) {
        Some(n) => {
            if 0 <= n && n <= 0xffff_ffff {
                Some(n as u32)
            } else {
                None
            }
        },
        None => None,
    }
}

/// What is known of a tool before any project is looked at.
#[derive(Debug, Clone, PartialEq, Eq)]
pub struct Defaults {
    /// Where a project keeps the tool, below its root; it begins with `/`.
    pub local_bin: String,
    /// The bare name under which the tool may be installed for every project.
    /// A tool without one is looked for in the project only.
    pub global_cmd: Option<String>,
    pub args: Vec<String>,
    pub filetypes: Vec<String>,
}

/// What [`Defaults`] hold.
pub struct DefaultsView {
    pub local_bin: Seq<char>,
    pub global_cmd: Option<Seq<char>>,
    pub args: Seq<Seq<char>>,
    pub filetypes: Seq<Seq<char>>,
}

impl View for Defaults {
    type V = DefaultsView;

    open spec fn view(&self) -> DefaultsView {
        DefaultsView {
            local_bin: self.local_bin@,
            global_cmd: match self.global_cmd {
                Some(c) => Some(c@),
                None => None,
            },
            args: texts(self.args@),
            filetypes: texts(self.filetypes@),
        }
    }
}

/// How an attempt to start a command ended.
#[derive(Debug, Clone, Copy, PartialEq, Eq, Structural)]
pub enum SpawnOutcome {
    /// The process was started.
    Started,
    /// There is no such command.
    NotFound,
    /// The command is there and could not be started.
    Failed,
}

/// What has been found out about a tool so far.
#[derive(Debug, Clone, Copy, PartialEq, Eq, Structural)]
pub enum Probe {
    /// Nothing yet.
    Start,
    /// Whether the project's own copy exists.
    Local(bool),
    /// The project has no copy, and this is how starting the bare name went.
    Global(SpawnOutcome),
}

/// Why a tool cannot be used.
#[derive(Debug, Clone, Copy, PartialEq, Eq, Structural)]
pub enum DiscoveryError {
    /// No binary was found.
    NotFound,
    /// A binary was found and could not be started.
    CannotStart,
}

/// How loudly something is logged.
#[derive(Debug, Clone, Copy, PartialEq, Eq, Structural)]
pub enum LogLevel {
    Info,
    Error,
}

impl DiscoveryError {
    /// A missing binary is worth a note; one that is there and does not start
    /// is an error.
    pub open spec fn level(self) -> LogLevel {
        match self {
            DiscoveryError::NotFound => LogLevel::Info,
            DiscoveryError::CannotStart => LogLevel::Error,
        }
    }

    /// The level at which this failure is logged.
    pub fn log_level(&self) -> (r: LogLevel)
        ensures
            r == self.level(),
    {
        match self {
            DiscoveryError::NotFound => LogLevel::Info,
            DiscoveryError::CannotStart => LogLevel::Error,
        }
    }
}

/// What discovery asks for next, or what it has found.
#[derive(Debug, Clone, PartialEq, Eq)]
pub enum ProbeStep {
    /// Look whether this path exists.
    CheckPath(String),
    /// Try to start this command.
    TrySpawn(String),
    /// The tool can be run with this setting.
    Installed(PluginSetting),
    /// The tool cannot be run.
    Unavailable(DiscoveryError),
}

/// What a [`ProbeStep`] holds.
pub enum ProbeStepView {
    CheckPath(Seq<char>),
    TrySpawn(Seq<char>),
    Installed(PluginSettingView),
    Unavailable(DiscoveryError),
}

impl View for ProbeStep {
    type V = ProbeStepView;

    open spec fn view(&self) -> ProbeStepView {
        match self {
            ProbeStep::CheckPath(path) => ProbeStepView::CheckPath(path@),
            ProbeStep::TrySpawn(cmd) => ProbeStepView::TrySpawn(cmd@),
            ProbeStep::Installed(setting) => ProbeStepView::Installed(setting@),
            ProbeStep::Unavailable(why) => ProbeStepView::Unavailable(*why),
        }
    }
}

/// Where the project in the directory `root_dir` would keep the tool.
pub open spec fn local_path(d: DefaultsView, root_dir: Seq<char>) -> Seq<char> {
    root_dir + d.local_bin
}

/// The tool's own setting, run through `cmd`.
pub open spec fn found_as(d: DefaultsView, cmd: Seq<char>) -> PluginSettingView {
    PluginSettingView { cmd, args: d.args, filetypes: d.filetypes }
}

/// The next step of discovery. The project's own copy is looked for first and
/// used where it exists. Without it, a tool that has a bare name is tried
/// under that name. A tool whose copy is missing and that has no bare name,
/// or whose bare name is no command, is not found; one whose bare name is a
/// command that does not start cannot be started.
pub open spec fn next_probe(d: DefaultsView, root_dir: Seq<char>, known: Probe) -> ProbeStepView {
    match known {
        Probe::Start => ProbeStepView::CheckPath(local_path(d, root_dir)),
        Probe::Local(true) => ProbeStepView::Installed(found_as(d, local_path(d, root_dir))),
        Probe::Local(false) => match d.global_cmd {
            Some(cmd) => ProbeStepView::TrySpawn(cmd),
            None => ProbeStepView::Unavailable(DiscoveryError::NotFound),
        },
        Probe::Global(outcome) => match d.global_cmd {
            Some(cmd) => match outcome {
                SpawnOutcome::Started => ProbeStepView::Installed(found_as(d, cmd)),
                SpawnOutcome::NotFound => ProbeStepView::Unavailable(DiscoveryError::NotFound),
                SpawnOutcome::Failed => ProbeStepView::Unavailable(DiscoveryError::CannotStart),
            },
            None => ProbeStepView::Unavailable(DiscoveryError::NotFound),
        },
    }
}

/// What discovery comes to for a project in which the tool's own copy exists
/// or not, and in which starting the bare name would end as `spawn` says.
pub open spec fn discovered(
    d: DefaultsView,
    root_dir: Seq<char>,
    local_exists: bool,
    spawn: SpawnOutcome,
) -> Result<PluginSettingView, DiscoveryError> {
    if local_exists {
        Ok(found_as(d, local_path(d, root_dir)))
    } else if d.global_cmd is Some && spawn == SpawnOutcome::Started {
        Ok(found_as(d, d.global_cmd->0))
    } else if d.global_cmd is Some && spawn == SpawnOutcome::Failed {
        Err(DiscoveryError::CannotStart)
    } else {
        Err(DiscoveryError::NotFound)
    }
}

/// Discovery is a function of the project and of what the two checks find. It
/// begins with the project's own copy, starts the bare name only where that
/// copy is missing, and ends after at most these two checks.
pub proof fn discovery_ends(
    d: DefaultsView,
    root_dir: Seq<char>,
    local_exists: bool,
    spawn: SpawnOutcome,
)
    ensures
        next_probe(d, root_dir, Probe::Start) == ProbeStepView::CheckPath(local_path(d, root_dir)),
        ends_as(
            next_probe(d, root_dir, Probe::Local(local_exists)),
            discovered(d, root_dir, local_exists, spawn),
        ) || (!local_exists && d.global_cmd is Some && next_probe(
            d,
            root_dir,
            Probe::Local(local_exists),
        ) == ProbeStepView::TrySpawn(d.global_cmd->0) && ends_as(
            next_probe(d, root_dir, Probe::Global(spawn)),
            discovered(d, root_dir, local_exists, spawn),
        )),
{
}

/// Whether `step` ends discovery with `result`.
pub open spec fn ends_as(step: ProbeStepView, result: Result<PluginSettingView, DiscoveryError>) -> bool {
    match step {
        ProbeStepView::Installed(setting) => result == Ok::<PluginSettingView, DiscoveryError>(
            setting,
        ),
        ProbeStepView::Unavailable(why) => result == Err::<PluginSettingView, DiscoveryError>(why),
        _ => false,
    }
}

/// One step of discovery for a tool with the defaults `d`.
pub fn probe(d: &Defaults, root_dir: &str, known: Probe) -> (step: ProbeStep)
    ensures
        step@ == next_probe(d@, root_dir@, known),
{
    match known {
        Probe::Start => ProbeStep::CheckPath(local_candidate(d, root_dir)),
        Probe::Local(exists) => {
            if exists {
                ProbeStep::Installed(
                    PluginSetting {
                        cmd: local_candidate(d, root_dir),
                        args: copy_texts(&d.args),
                        filetypes: copy_texts(&d.filetypes),
                    },
                )
            } else {
                match &d.global_cmd {
                    Some(cmd) => ProbeStep::TrySpawn(cmd.clone()),
                    None => ProbeStep::Unavailable(DiscoveryError::NotFound),
                }
            }
        },
        Probe::Global(outcome) => {
            match &d.global_cmd {
                Some(cmd) => match outcome {
                    SpawnOutcome::Started => ProbeStep::Installed(
                        PluginSetting {
                            cmd: cmd.clone(),
                            args: copy_texts(&d.args),
                            filetypes: copy_texts(&d.filetypes),
                        },
                    ),
                    SpawnOutcome::NotFound => ProbeStep::Unavailable(DiscoveryError::NotFound),
                    SpawnOutcome::Failed => ProbeStep::Unavailable(DiscoveryError::CannotStart),
                },
                None => ProbeStep::Unavailable(DiscoveryError::NotFound),
            }
        },
    }
}

/// The path at which the project would keep the tool.
pub fn local_candidate(d: &Defaults, root_dir: &str) -> (path: String)
    ensures
        path@ == local_path(d@, root_dir@),
{
    let mut path = root_dir.to_owned();
    path.append(d.local_bin.as_str());
    path
}

/// What a run comes to. A tool that wrote to its error stream has failed,
/// whatever it wrote to its output; else the run is worth the findings read
/// from its report, where there is a report to read.
pub open spec fn reported(stderr: Seq<u8>, findings: Option<Seq<Diagnostic>>) -> Outcome {
    if stderr.len() > 0 {
        Outcome::ToolError(stderr)
    } else {
        match findings {
            Some(found) => Outcome::Diagnostics(found),
            None => Outcome::ParseFailure,
        }
    }
}

/// How one entry of a tool's report is read.
pub trait ReportEntry: Sized {
    /// The finding that one entry of the tool's report stands for, where the
    /// entry has the fields that the tool is known to write.
    spec fn message(&self, m: JsonValue) -> Option<Diagnostic>;

    /// Reads one entry of the tool's report.
    fn read_message(&self, m: &Json) -> (r: Option<PluginLineOutput>)
        ensures
            r is Some <==> self.message(m@) is Some,
            r matches Some(d) ==> self.message(m@) == Some(d@),
    ;
}

/// One analysis tool: its name, how a project is probed for it, and how its
/// report is read.
pub trait Plugin: ReportEntry {
    /// The identifier under which the tool is registered and asked for.
    spec fn id(&self) -> Seq<char>;

    /// What is known of the tool before any project is looked at.
    spec fn defaults(&self) -> DefaultsView;

    /// The findings of a whole report, where it has the tool's shape.
    spec fn report(&self, report: JsonValue) -> Option<Seq<Diagnostic>>;

    /// The tool's identifier.
    fn get_plugin_id(&self) -> (id: &str)
        ensures
            id@ == self.id(),
    ;

    /// The tool's defaults.
    fn default_settings(&self) -> (d: Defaults)
        ensures
            d@ == self.defaults(),
    ;

    /// One step of discovery: given the project and what is known so far,
    /// what to look at next, or what was found.
    fn is_installed(&self, root_dir: &str, known: Probe) -> (step: ProbeStep)
        ensures
            step@ == next_probe(self.defaults(), root_dir@, known),
    ;

    /// Reads the tool's report.
    fn normalize(&self, report: &Json) -> (r: Option<PluginOutput>)
        ensures
            r is Some <==> self.report(report@) is Some,
            r matches Some(found) ==> self.report(report@) == Some(found@),
    ;

    /// Says what a finished run of the tool came to.
    fn run(&self, output: &ToolOutput) -> (outcome: ReportOutcome)
        ensures
            outcome@ == reported(
                output.stderr@,
                match json_text(output.stdout@) {
                    Some(j) => self.report(j),
                    None => None,
                },
            ),
    {
        match complaint(output) {
            Some(failed) => failed,
            None => match parse_json(output.stdout.as_slice()) {
                Some(j) => conclude(self.normalize(&j)),
                None => ReportOutcome::ParseFailure,
            },
        }
    }
}

/// The complaint of a tool that wrote to its error stream.
pub fn complaint(output: &ToolOutput) -> (r: Option<ReportOutcome>)
    ensures
        r is Some <==> output.stderr@.len() > 0,
        r matches Some(outcome) ==> outcome@ == Outcome::ToolError(output.stderr@),
{
    if output.stderr.len() > 0 {
        let written = output.stderr.clone();
        assert(written@ =~= output.stderr@);
        Some(ReportOutcome::ToolError(written))
    } else {
        None
    }
}

/// The outcome of a run whose tool did not complain, from what was read of
/// its report.
pub fn conclude(findings: Option<PluginOutput>) -> (outcome: ReportOutcome)
    ensures
        outcome@ == reported(
            Seq::empty(),
            match findings {
                Some(found) => Some(found@),
                None => None,
            },
        ),
{
    match findings {
        Some(found) => ReportOutcome::Diagnostics(found),
        None => ReportOutcome::ParseFailure,
    }
}

/// A run whose output is no JSON, or whose tool wrote to its error stream,
/// gives the editor no finding.
pub proof fn failed_run_publishes_nothing<P: Plugin>(plugin: &P, stdout: Seq<u8>, stderr: Seq<u8>)
    requires
        stderr.len() > 0 || json_text(stdout) is None,
    ensures
        reported(
            stderr,
            match json_text(stdout) {
                Some(j) => plugin.report(j),
                None => None,
            },
        ).published() == Seq::<Diagnostic>::empty(),
{
}

/// The lists of `groups`, one after the other.
pub open spec fn concat_all(groups: Seq<Seq<Diagnostic>>) -> Seq<Diagnostic>
    decreases groups.len(),
{
    if groups.len() == 0 {
        Seq::empty()
    } else {
        concat_all(groups.drop_last()) + groups.last()
    }
}

/// The findings listed under `key` in `group`: `group` is an object, under
/// `key` it has an array, and every item of that is an entry of the tool.
pub open spec fn messages_in<P: ReportEntry>(plugin: &P, group: JsonValue, key: Seq<char>) -> Option<
    Seq<Diagnostic>,
> {
    match group.field(key) {
        Some(JsonValue::Array(items)) => if forall|i: int|
            0 <= i < items.len() ==> plugin.message(#[trigger] items[i]) is Some {
            Some(Seq::new(items.len(), |i: int| plugin.message(items[i])->0))
        } else {
            None
        },
        _ => None,
    }
}

/// The findings of all `groups`, in their order; nothing where one group is
/// not as [`messages_in`] asks.
pub open spec fn gathered<P: ReportEntry>(plugin: &P, groups: Seq<JsonValue>, key: Seq<char>) -> Option<
    Seq<Diagnostic>,
> {
    if forall|i: int| 0 <= i < groups.len() ==> messages_in(plugin, #[trigger] groups[i], key) is Some {
        Some(concat_all(Seq::new(groups.len(), |i: int| messages_in(plugin, groups[i], key)->0)))
    } else {
        None
    }
}

/// The findings of a report that is an array with one object for each file.
pub open spec fn listed<P: ReportEntry>(plugin: &P, report: JsonValue, key: Seq<char>) -> Option<
    Seq<Diagnostic>,
> {
    match report {
        JsonValue::Array(files) => gathered(plugin, files, key),
        _ => None,
    }
}

/// The values of the members of an object.
pub open spec fn values_of(members: Seq<(Seq<char>, JsonValue)>) -> Seq<JsonValue> {
    Seq::new(members.len(), |i: int| members[i].1)
}

/// The findings of a report that is an object whose member `files` has one
/// member for each file, under the file's path.
pub open spec fn keyed<P: ReportEntry>(plugin: &P, report: JsonValue, key: Seq<char>) -> Option<
    Seq<Diagnostic>,
> {
    match report.field("files"@) {
        Some(JsonValue::Object(members)) => gathered(plugin, values_of(members), key),
        _ => None,
    }
}

/// Reads the entries under `key` in `group`. Nothing comes back where one of
/// them cannot be read.
pub fn read_messages<P: ReportEntry>(plugin: &P, group: &Json, key: &str) -> (r: Option<
    Vec<PluginLineOutput>,
>)
    ensures
        r is Some <==> messages_in(plugin, group@, key@) is Some,
        r matches Some(found) ==> messages_in(plugin, group@, key@) == Some(diagnostics(found@)),
{
    let items = group.get(key)?.as_array()?;
    let ghost all = group@.field(key@)->0->Array_0;
    let mut found: Vec<PluginLineOutput> = Vec::new();
    let mut i: usize = 0;
    while i < items.len()
        invariant
            i <= items.len(),
            group@.field(key@) == Some(JsonValue::Array(all)),
            all.len() == items.len(),
            forall|k: int| 0 <= k < all.len() ==> all[k] == items[k]@,
            found.len() == i,
            forall|k: int| 0 <= k < i ==> plugin.message(#[trigger] all[k]) == Some(found[k]@),
        decreases items.len() - i,
    {
        match plugin.read_message(&items[i]) {
            Some(d) => {
                found.push(d);
            },
            None => {
                assert(plugin.message(all[i as int]) is None);
                return None;
            },
        }
        i = i + 1;
    }
    assert(diagnostics(found@) =~= messages_in(plugin, group@, key@)->0);
    Some(found)
}

/// The files of a report, in one of the two forms in which tools keep them.
pub enum Groups<'a> {
    /// An array with one object for each file.
    Listed(&'a Vec<Json>),
    /// The members of an object, one for each file, under the file's path.
    Keyed(&'a Vec<(String, Json)>),
}

impl<'a> Groups<'a> {
    /// The files, one value for each.
    pub open spec fn values(self) -> Seq<JsonValue> {
        match self {
            Groups::Listed(items) => Seq::new(items@.len(), |i: int| items@[i]@),
            Groups::Keyed(members) => Seq::new(members@.len(), |i: int| members@[i].1@),
        }
    }

    /// How many files there are.
    pub fn len(&self) -> (n: usize)
        ensures
            n == self.values().len(),
    {
        match self {
            Groups::Listed(items) => items.len(),
            Groups::Keyed(members) => members.len(),
        }
    }

    /// The file at `i`.
    pub fn get(&self, i: usize) -> (group: Option<&'a Json>)
        ensures
            group is Some <==> i < self.values().len(),
            group matches Some(g) ==> g@ == self.values()[i as int],
    {
        match self {
            Groups::Listed(items) => if i < items.len() {
                Some(&items[i])
            } else {
                None
            },
            Groups::Keyed(members) => if i < members.len() {
                Some(&members[i].1)
            } else {
                None
            },
        }
    }
}

/// Reads the findings of all files. Nothing comes back where one file cannot
/// be read.
pub fn gather<P: ReportEntry>(plugin: &P, groups: Groups, key: &str) -> (r: Option<PluginOutput>)
    ensures
        r is Some <==> gathered(plugin, groups.values(), key@) is Some,
        r matches Some(found) ==> gathered(plugin, groups.values(), key@) == Some(found@),
{
    let ghost all = groups.values();
    let ghost parts = Seq::new(all.len(), |i: int| messages_in(plugin, all[i], key@)->0);
    let n = groups.len();
    let mut out: Vec<PluginLineOutput> = Vec::new();
    let mut i: usize = 0;
    assert(diagnostics(out@) =~= concat_all(parts.take(0)));
    while i < n
        invariant
            i <= n,
            n == all.len(),
            all == groups.values(),
            parts == Seq::new(all.len(), |i: int| messages_in(plugin, all[i], key@)->0),
            forall|k: int| 0 <= k < i ==> messages_in(plugin, #[trigger] all[k], key@) is Some,
            diagnostics(out@) == concat_all(parts.take(i as int)),
        decreases n - i,
    {
        let ghost before = diagnostics(out@);
        let group = match groups.get(i) {
            Some(group) => group,
            None => {
                return None;
            },
        };
        match read_messages(plugin, group, key) {
            Some(mut found) => {
                let ghost added = diagnostics(found@);
                out.append(&mut found);
                assert(diagnostics(out@) =~= before + added);
            },
            None => {
                assert(messages_in(plugin, all[i as int], key@) is None);
                return None;
            },
        }
        assert(parts.take(i + 1).drop_last() =~= parts.take(i as int));
        i = i + 1;
    }
    assert(parts.take(i as int) =~= parts);
    Some(PluginOutput { messages: out })
}

/// Reads the report of a tool that lists one object for each file.
pub fn read_listed<P: ReportEntry>(plugin: &P, report: &Json, key: &str) -> (r: Option<PluginOutput>)
    ensures
        r is Some <==> listed(plugin, report@, key@) is Some,
        r matches Some(found) ==> listed(plugin, report@, key@) == Some(found@),
{
    let files = report.as_array()?;
    assert(Groups::Listed(files).values() =~= report@->Array_0);
    gather(plugin, Groups::Listed(files), key)
}

/// Reads the report of a tool that keeps the files under their paths.
pub fn read_keyed<P: ReportEntry>(plugin: &P, report: &Json, key: &str) -> (r: Option<PluginOutput>)
    ensures
        r is Some <==> keyed(plugin, report@, key@) is Some,
        r matches Some(found) ==> keyed(plugin, report@, key@) == Some(found@),
{
    let files = report.get("files")?.as_object()?;
    assert(Groups::Keyed(files).values() =~= values_of(report@.field("files"@)->0->Object_0));
    gather(plugin, Groups::Keyed(files), key)
}

} // verus!
