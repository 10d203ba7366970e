//! The session: which tools are registered, which of them the project has,
//! and what a saved file sets off.

use crate::json::{json_text, values, Json, JsonValue};
use crate::plugins::eslint::EslintPlugin;
use crate::plugins::phpcs::PhpcsPlugin;
use crate::plugins::phpstan::PhpstanPlugin;
use crate::plugins::stylelint::StylelintPlugin;
use crate::plugins::{
    concat_all, diagnostics, merged, next_probe, read_text, reported, text_field, Defaults,
    DefaultsView, Diagnostic, DiscoveryError, Outcome, Plugin, PluginLineOutput, PluginOutput,
    PluginSetting, PluginSettingView, Probe, ProbeStep, ProbeStepView, ReportEntry,
    ReportOutcome, ToolOutput,
};
use crate::text::{contains_text, copy_texts, split, split_tokens, texts};
use dashmap::DashMap;
use vstd::prelude::*;
use vstd::string::*;

verus! {

/// A registered tool.
#[derive(Debug, Clone, Copy)]
pub enum Adapter {
    Phpcs(PhpcsPlugin),
    Phpstan(PhpstanPlugin),
    Eslint(EslintPlugin),
    Stylelint(StylelintPlugin),
}

impl ReportEntry for Adapter {
    open spec fn message(&self, m: JsonValue) -> Option<Diagnostic> {
        match self {
            Adapter::Phpcs(p) => p.message(m),
            Adapter::Phpstan(p) => p.message(m),
            Adapter::Eslint(p) => p.message(m),
            Adapter::Stylelint(p) => p.message(m),
        }
    }

    fn read_message(&self, m: &Json) -> (r: Option<PluginLineOutput>) {
        match self {
            Adapter::Phpcs(p) => p.read_message(m),
            Adapter::Phpstan(p) => p.read_message(m),
            Adapter::Eslint(p) => p.read_message(m),
            Adapter::Stylelint(p) => p.read_message(m),
        }
    }
}

impl Plugin for Adapter {
    open spec fn id(&self) -> Seq<char> {
        match self {
            Adapter::Phpcs(p) => p.id(),
            Adapter::Phpstan(p) => p.id(),
            Adapter::Eslint(p) => p.id(),
            Adapter::Stylelint(p) => p.id(),
        }
    }

    open spec fn defaults(&self) -> DefaultsView {
        match self {
            Adapter::Phpcs(p) => p.defaults(),
            Adapter::Phpstan(p) => p.defaults(),
            Adapter::Eslint(p) => p.defaults(),
            Adapter::Stylelint(p) => p.defaults(),
        }
    }

    open spec fn report(&self, report: JsonValue) -> Option<Seq<Diagnostic>> {
        match self {
            Adapter::Phpcs(p) => p.report(report),
            Adapter::Phpstan(p) => p.report(report),
            Adapter::Eslint(p) => p.report(report),
            Adapter::Stylelint(p) => p.report(report),
        }
    }

    fn get_plugin_id(&self) -> (id: &str) {
        match self {
            Adapter::Phpcs(p) => p.get_plugin_id(),
            Adapter::Phpstan(p) => p.get_plugin_id(),
            Adapter::Eslint(p) => p.get_plugin_id(),
            Adapter::Stylelint(p) => p.get_plugin_id(),
        }
    }

    fn default_settings(&self) -> (d: Defaults) {
        match self {
            Adapter::Phpcs(p) => p.default_settings(),
            Adapter::Phpstan(p) => p.default_settings(),
            Adapter::Eslint(p) => p.default_settings(),
            Adapter::Stylelint(p) => p.default_settings(),
        }
    }

    fn is_installed(&self, root_dir: &str, known: Probe) -> (step: ProbeStep) {
        match self {
            Adapter::Phpcs(p) => p.is_installed(root_dir, known),
            Adapter::Phpstan(p) => p.is_installed(root_dir, known),
            Adapter::Eslint(p) => p.is_installed(root_dir, known),
            Adapter::Stylelint(p) => p.is_installed(root_dir, known),
        }
    }

    fn normalize(&self, report: &Json) -> (r: Option<PluginOutput>) {
        match self {
            Adapter::Phpcs(p) => p.normalize(report),
            Adapter::Phpstan(p) => p.normalize(report),
            Adapter::Eslint(p) => p.normalize(report),
            Adapter::Stylelint(p) => p.normalize(report),
        }
    }
}

/// The tools that every session knows.
pub open spec fn standard_registry() -> Seq<Adapter> {
    seq![
        Adapter::Phpcs(PhpcsPlugin),
        Adapter::Phpstan(PhpstanPlugin),
        Adapter::Eslint(EslintPlugin),
        Adapter::Stylelint(StylelintPlugin),
    ]
}

/// The adapter registered under `id`: the first of `registry` with this
/// identifier.
pub open spec fn registered(registry: Seq<Adapter>, id: Seq<char>) -> Option<Adapter>
    decreases registry.len(),
{
    if registry.len() == 0 {
        None
    } else if registry[0].id() == id {
        Some(registry[0])
    } else {
        registered(registry.skip(1), id)
    }
}

/// Every tool of the standard registry is found under its own identifier, and
/// nothing under any other.
pub proof fn standard_registry_finds(id: Seq<char>)
    ensures
        id == "phpcs"@ ==> registered(standard_registry(), id) == Some(Adapter::Phpcs(PhpcsPlugin)),
        id == "phpstan"@ ==> registered(standard_registry(), id) == Some(
            Adapter::Phpstan(PhpstanPlugin),
        ),
        id == "eslint"@ ==> registered(standard_registry(), id) == Some(
            Adapter::Eslint(EslintPlugin),
        ),
        id == "stylelint"@ ==> registered(standard_registry(), id) == Some(
            Adapter::Stylelint(StylelintPlugin),
        ),
        id != "phpcs"@ && id != "phpstan"@ && id != "eslint"@ && id != "stylelint"@ ==> registered(
            standard_registry(),
            id,
        ) is None,
{
    reveal_strlit("phpcs");
    reveal_strlit("phpstan");
    reveal_strlit("eslint");
    reveal_strlit("stylelint");
    let all = standard_registry();
    reveal_with_fuel(registered, 5);
    assert(all.skip(1)[0] == all[1]);
    assert(all.skip(1).skip(1)[0] == all[2]);
    assert(all.skip(1).skip(1).skip(1)[0] == all[3]);
    assert(all.skip(1).skip(1).skip(1).skip(1).len() == 0);
    assert("phpcs"@.len() == 5);
    assert("phpstan"@.len() == 7);
    assert("eslint"@.len() == 6);
    assert("stylelint"@.len() == 9);
    assert("phpstan"@[0] == 'p' && "eslint"@[0] == 'e' && "stylelint"@[0] == 's');
}

/// `dashmap::DashMap`, a hash map in shards. Nothing is known of what is
/// inside one but through the functions below.
#[verifier::external_type_specification]
#[verifier::external_body]
#[verifier::reject_recursive_types(K)]
#[verifier::reject_recursive_types(V)]
#[verifier::reject_recursive_types(S)]
pub struct ExDashMap<K, V, S>(DashMap<K, V, S>);

/// The settings that a map of installed tools holds, each under the tool's
/// identifier.
pub uninterp spec fn installed_contents(m: DashMap<String, PluginSetting>) -> Map<
    Seq<char>,
    PluginSettingView,
>;

/// Whether `pairs` lists `m`: every pair is an entry of `m`, no key comes
/// twice, and every key of `m` comes. The order is left open.
pub open spec fn lists(
    pairs: Seq<(Seq<char>, PluginSettingView)>,
    m: Map<Seq<char>, PluginSettingView>,
) -> bool {
    &&& forall|i: int|
        0 <= i < pairs.len() ==> m.contains_key((#[trigger] pairs[i]).0) && m[pairs[i].0]
            == pairs[i].1
    &&& forall|i: int, j: int|
        0 <= i < pairs.len() && 0 <= j < pairs.len() && i != j ==> (#[trigger] pairs[i]).0
            != (#[trigger] pairs[j]).0
    &&& forall|k: Seq<char>| #[trigger]
        m.contains_key(k) ==> exists|i: int| 0 <= i < pairs.len() && (#[trigger] pairs[i]).0 == k
}

/// What a list of identifiers with their settings holds.
pub open spec fn pair_views(pairs: Seq<(String, PluginSetting)>) -> Seq<
    (Seq<char>, PluginSettingView),
> {
    Seq::new(pairs.len(), |i: int| (pairs[i].0@, pairs[i].1@))
}

/// `DashMap::new`: a map that holds nothing.
#[verifier::external_body]
fn installed_new() -> (m: DashMap<String, PluginSetting>)
    ensures
        installed_contents(m) == no_settings(),
{
    DashMap::new()
}

/// `DashMap::insert`: afterwards the map holds `setting` under `id`, in place
/// of what it held there, and everything else as before. The map is taken
/// `&mut`, which is more than the method asks for: so nothing holds a
/// reference into the map during the call, and the method, which may wait
/// for ever on such a reference, returns.
#[verifier::external_body]
fn installed_insert(m: &mut DashMap<String, PluginSetting>, id: String, setting: PluginSetting)
    ensures
        installed_contents(*final(m)) == installed_contents(*old(m)).insert(id@, setting@),
{
    m.insert(id, setting);
}

/// `DashMap::iter`, with a copy made of each entry that it visits: it goes
/// through the shards one after the other and hands out every entry of each
/// once. The order depends on the hasher and is not stated.
#[verifier::external_body]
fn installed_entries(m: &DashMap<String, PluginSetting>) -> (listing: Vec<(String, PluginSetting)>)
    ensures
        lists(pair_views(listing@), installed_contents(*m)),
{
    m.iter().map(|entry| (entry.key().clone(), entry.value().clone())).collect()
}

/// The map without any setting.
pub open spec fn no_settings() -> Map<Seq<char>, PluginSettingView> {
    Map::empty()
}

/// What the session knows: the registered tools, and those that the project
/// was found to have, each with the setting it is run with.
pub struct ServerSettings {
    pub available_plugins: Vec<Adapter>,
    pub installed_plugins: DashMap<String, PluginSetting>,
}

/// What resolving one requested tool asks for next, or what it came to.
#[derive(Debug, Clone, PartialEq, Eq)]
pub enum ResolveStep {
    /// No tool is registered under the identifier.
    UnknownPlugin,
    /// Look whether this path exists.
    CheckPath(String),
    /// Try to start this command.
    TrySpawn(String),
    /// The tool is installed, with this setting.
    Installed(PluginSetting),
    /// The tool cannot be run in this project.
    Unavailable(DiscoveryError),
}

/// What a [`ResolveStep`] holds.
pub enum ResolveStepView {
    UnknownPlugin,
    CheckPath(Seq<char>),
    TrySpawn(Seq<char>),
    Installed(PluginSettingView),
    Unavailable(DiscoveryError),
}

impl View for ResolveStep {
    type V = ResolveStepView;

    open spec fn view(&self) -> ResolveStepView {
        match self {
            ResolveStep::UnknownPlugin => ResolveStepView::UnknownPlugin,
            ResolveStep::CheckPath(path) => ResolveStepView::CheckPath(path@),
            ResolveStep::TrySpawn(cmd) => ResolveStepView::TrySpawn(cmd@),
            ResolveStep::Installed(setting) => ResolveStepView::Installed(setting@),
            ResolveStep::Unavailable(why) => ResolveStepView::Unavailable(*why),
        }
    }
}

/// The next step in resolving the tool `id`, asked for with the wishes
/// `wished`. An identifier that is not registered ends it at once. Else the
/// tool's discovery says what to look at, and where it has found the tool,
/// the setting found is merged with the wishes.
pub open spec fn resolve_step(
    registry: Seq<Adapter>,
    id: Seq<char>,
    wished: PluginSettingView,
    root_dir: Seq<char>,
    known: Probe,
) -> ResolveStepView {
    match registered(registry, id) {
        None => ResolveStepView::UnknownPlugin,
        Some(adapter) => match next_probe(adapter.defaults(), root_dir, known) {
            ProbeStepView::CheckPath(path) => ResolveStepView::CheckPath(path),
            ProbeStepView::TrySpawn(cmd) => ResolveStepView::TrySpawn(cmd),
            ProbeStepView::Installed(found) => ResolveStepView::Installed(merged(found, wished)),
            ProbeStepView::Unavailable(why) => ResolveStepView::Unavailable(why),
        },
    }
}

/// Whether a tool with this setting can be run at all: it names a command
/// and at least one file type.
pub open spec fn runnable(setting: PluginSettingView) -> bool {
    setting.cmd.len() > 0 && setting.filetypes.len() > 0
}

/// Whether every installed tool can be run.
pub open spec fn all_runnable(installed: Map<Seq<char>, PluginSettingView>) -> bool {
    forall|id: Seq<char>| #[trigger] installed.contains_key(id) ==> runnable(installed[id])
}

/// Whatever is asked for and wished, a tool that resolving finds can be run:
/// its merged setting names a command and at least one file type.
pub proof fn resolved_is_runnable(
    registry: Seq<Adapter>,
    id: Seq<char>,
    wished: PluginSettingView,
    root_dir: Seq<char>,
    known: Probe,
)
    ensures
        resolve_step(registry, id, wished, root_dir, known) matches ResolveStepView::Installed(
            setting,
        ) ==> runnable(setting),
{
    reveal_strlit("/vendor/bin/phpcs");
    reveal_strlit("/vendor/bin/phpstan");
    reveal_strlit("/node_modules/.bin/eslint");
    reveal_strlit("/node_modules/.bin/stylelint");
    reveal_strlit("phpcs");
    reveal_strlit("phpstan");
    reveal_strlit("stylelint");
}

impl ServerSettings {
    /// The installed tools, each with its setting.
    pub open spec fn installed(&self) -> Map<Seq<char>, PluginSettingView> {
        installed_contents(self.installed_plugins)
    }

    /// A session that knows the standard tools and has none installed yet.
    pub fn new() -> (s: Self)
        ensures
            s.available_plugins@ == standard_registry(),
            s.installed() == no_settings(),
    {
        let mut available_plugins: Vec<Adapter> = Vec::new();
        available_plugins.push(Adapter::Phpcs(PhpcsPlugin));
        available_plugins.push(Adapter::Phpstan(PhpstanPlugin));
        available_plugins.push(Adapter::Eslint(EslintPlugin));
        available_plugins.push(Adapter::Stylelint(StylelintPlugin));
        assert(available_plugins@ =~= standard_registry());
        ServerSettings { available_plugins, installed_plugins: installed_new() }
    }

    /// The adapter registered under `id`.
    pub fn lookup(&self, id: &str) -> (r: Option<Adapter>)
        ensures
            r == registered(self.available_plugins@, id@),
    {
        let wanted = id.to_owned();
        let ghost all = self.available_plugins@;
        let mut i: usize = 0;
        assert(all.skip(0) =~= all);
        while i < self.available_plugins.len()
            invariant
                i <= self.available_plugins.len(),
                wanted@ == id@,
                all == self.available_plugins@,
                registered(all, id@) == registered(all.skip(i as int), id@),
            decreases self.available_plugins.len() - i,
        {
            let adapter = self.available_plugins[i];
            assert(all.skip(i as int)[0] == adapter);
            if adapter.get_plugin_id().to_owned() == wanted {
                return Some(adapter);
            }
            assert(all.skip(i as int).skip(1) =~= all.skip(i + 1));
            i = i + 1;
        }
        None
    }

    /// One step in resolving a requested tool. `known` is what the checks
    /// asked for so far have found; the first call passes [`Probe::Start`].
    /// Where the tool is found, it is stored with its merged setting, in
    /// place of an earlier one; else the installed tools stay as they are.
    /// Installed tools that can all be run still can afterwards.
    pub fn resolve(&mut self, id: &str, wished: &PluginSetting, root_dir: &str, known: Probe) -> (step:
        ResolveStep)
        ensures
            final(self).available_plugins@ == old(self).available_plugins@,
            step@ == resolve_step(old(self).available_plugins@, id@, wished@, root_dir@, known),
            final(self).installed() == match step@ {
                ResolveStepView::Installed(setting) => old(self).installed().insert(id@, setting),
                _ => old(self).installed(),
            },
            all_runnable(old(self).installed()) ==> all_runnable(final(self).installed()),
    {
        proof {
            resolved_is_runnable(self.available_plugins@, id@, wished@, root_dir@, known);
        }
        let adapter = match self.lookup(id) {
            Some(adapter) => adapter,
            None => {
                return ResolveStep::UnknownPlugin;
            },
        };
        match adapter.is_installed(root_dir, known) {
            ProbeStep::CheckPath(path) => ResolveStep::CheckPath(path),
            ProbeStep::TrySpawn(cmd) => ResolveStep::TrySpawn(cmd),
            ProbeStep::Installed(found) => {
                let setting = PluginSetting::merge(&found, wished);
                installed_insert(&mut self.installed_plugins, id.to_owned(), setting.duplicate());
                ResolveStep::Installed(setting)
            },
            ProbeStep::Unavailable(why) => ResolveStep::Unavailable(why),
        }
    }
}

/// A document that the editor has saved.
#[derive(Debug, Clone, PartialEq, Eq)]
pub struct SavedDocument {
    /// The absolute path of the document's file.
    pub path: String,
    /// The extension of the file's name, without the dot, where it has one.
    pub extension: Option<String>,
}

impl SavedDocument {
    /// The characters of the extension, where the file has one.
    pub open spec fn ext(&self) -> Option<Seq<char>> {
        match self.extension {
            Some(e) => Some(e@),
            None => None,
        }
    }
}

/// One call of a tool.
#[derive(Debug, Clone, PartialEq, Eq)]
pub struct Invocation {
    pub plugin_id: String,
    pub cmd: String,
    pub args: Vec<String>,
}

/// What an [`Invocation`] holds.
pub struct InvocationView {
    pub plugin_id: Seq<char>,
    pub cmd: Seq<char>,
    pub args: Seq<Seq<char>>,
}

impl View for Invocation {
    type V = InvocationView;

    open spec fn view(&self) -> InvocationView {
        InvocationView { plugin_id: self.plugin_id@, cmd: self.cmd@, args: texts(self.args@) }
    }
}

/// What a list of calls holds.
pub open spec fn invocations(plan: Seq<Invocation>) -> Seq<InvocationView> {
    Seq::new(plan.len(), |i: int| plan[i]@)
}

/// Whether a tool with this setting is run for a file with this extension.
/// A file without an extension is nobody's.
pub open spec fn applies(setting: PluginSettingView, extension: Option<Seq<char>>) -> bool {
    extension is Some && setting.filetypes.contains(extension->0)
}

/// The call of the tool `id` for the file at `path`: its command, its
/// arguments, and the path last.
pub open spec fn invocation_for(
    id: Seq<char>,
    setting: PluginSettingView,
    path: Seq<char>,
) -> InvocationView {
    InvocationView { plugin_id: id, cmd: setting.cmd, args: setting.args.push(path) }
}

/// Whether `plan` is what a save sets off: one call for every installed tool
/// that the file's extension belongs to, and no other call.
pub open spec fn is_plan(
    plan: Seq<InvocationView>,
    installed: Map<Seq<char>, PluginSettingView>,
    path: Seq<char>,
    extension: Option<Seq<char>>,
) -> bool {
    &&& forall|i: int|
        0 <= i < plan.len() ==> {
            let id = (#[trigger] plan[i]).plugin_id;
            &&& installed.contains_key(id)
            &&& applies(installed[id], extension)
            &&& plan[i] == invocation_for(id, installed[id], path)
        }
    &&& forall|i: int, j: int|
        0 <= i < plan.len() && 0 <= j < plan.len() && i != j ==> (#[trigger] plan[i]).plugin_id
            != (#[trigger] plan[j]).plugin_id
    &&& forall|id: Seq<char>| #[trigger]
        installed.contains_key(id) && applies(installed[id], extension) ==> exists|i: int|
            0 <= i < plan.len() && (#[trigger] plan[i]).plugin_id == id
}

/// A save of a file whose extension is among an installed tool's file types
/// calls that tool exactly once, with the tool's arguments and then the file.
pub proof fn matching_tool_runs_once(
    plan: Seq<InvocationView>,
    installed: Map<Seq<char>, PluginSettingView>,
    path: Seq<char>,
    extension: Seq<char>,
    id: Seq<char>,
)
    requires
        is_plan(plan, installed, path, Some(extension)),
        installed.contains_key(id),
        installed[id].filetypes.contains(extension),
    ensures
        exists|i: int|
            0 <= i < plan.len() && (#[trigger] plan[i]).plugin_id == id && plan[i].cmd
                == installed[id].cmd && plan[i].args == installed[id].args + seq![path]
                && forall|j: int|
                0 <= j < plan.len() && (#[trigger] plan[j]).plugin_id == id ==> j == i,
{
    assert(applies(installed[id], Some(extension)));
    let i = choose|i: int| 0 <= i < plan.len() && (#[trigger] plan[i]).plugin_id == id;
    assert(installed[id].args.push(path) =~= installed[id].args + seq![path]);
}

/// A save never calls a tool that is not installed, nor one whose file types
/// do not hold the file's extension.
pub proof fn other_tool_never_runs(
    plan: Seq<InvocationView>,
    installed: Map<Seq<char>, PluginSettingView>,
    path: Seq<char>,
    extension: Option<Seq<char>>,
    id: Seq<char>,
)
    requires
        is_plan(plan, installed, path, extension),
        !installed.contains_key(id) || !applies(installed[id], extension),
    ensures
        forall|i: int| 0 <= i < plan.len() ==> (#[trigger] plan[i]).plugin_id != id,
{
}

/// The installed tools that a save of a file with this extension passes
/// over, each with its setting.
pub open spec fn left_out(
    installed: Map<Seq<char>, PluginSettingView>,
    extension: Option<Seq<char>>,
) -> Map<Seq<char>, PluginSettingView> {
    Map::new(
        |id: Seq<char>| installed.contains_key(id) && !applies(installed[id], extension),
        |id: Seq<char>| installed[id],
    )
}

/// A save either calls an installed tool or passes it over, never both.
pub proof fn called_or_passed_over(
    plan: Seq<InvocationView>,
    skipped: Seq<(Seq<char>, PluginSettingView)>,
    installed: Map<Seq<char>, PluginSettingView>,
    path: Seq<char>,
    extension: Option<Seq<char>>,
    id: Seq<char>,
)
    requires
        is_plan(plan, installed, path, extension),
        lists(skipped, left_out(installed, extension)),
        installed.contains_key(id),
    ensures
        (exists|i: int| 0 <= i < plan.len() && (#[trigger] plan[i]).plugin_id == id) != (exists|
            k: int,
        | 0 <= k < skipped.len() && (#[trigger] skipped[k]).0 == id),
{
    let out = left_out(installed, extension);
    if applies(installed[id], extension) {
        if exists|k: int| 0 <= k < skipped.len() && (#[trigger] skipped[k]).0 == id {
            let k = choose|k: int| 0 <= k < skipped.len() && (#[trigger] skipped[k]).0 == id;
            assert(out.contains_key(skipped[k].0));
        }
    } else {
        assert(out.contains_key(id));
        if exists|i: int| 0 <= i < plan.len() && (#[trigger] plan[i]).plugin_id == id {
            let i = choose|i: int| 0 <= i < plan.len() && (#[trigger] plan[i]).plugin_id == id;
            assert(applies(installed[plan[i].plugin_id], extension));
        }
    }
}

/// How the attempt to run a tool ended.
#[derive(Debug, Clone, PartialEq, Eq)]
pub enum ToolRun {
    /// The process could not be started.
    NotStarted,
    /// The process ran and wrote this.
    Finished(ToolOutput),
}

/// What one tool contributes to a save.
#[derive(Debug, Clone, PartialEq, Eq)]
pub enum PluginPass {
    /// No tool is registered under the identifier.
    UnknownPlugin,
    /// The tool could not be started.
    ExecutionError,
    /// The tool ran, with this outcome.
    Report(ReportOutcome),
}

/// What a [`PluginPass`] holds.
pub enum PassView {
    UnknownPlugin,
    ExecutionError,
    Report(Outcome),
}

impl View for PluginPass {
    type V = PassView;

    open spec fn view(&self) -> PassView {
        match self {
            PluginPass::UnknownPlugin => PassView::UnknownPlugin,
            PluginPass::ExecutionError => PassView::ExecutionError,
            PluginPass::Report(outcome) => PassView::Report(outcome@),
        }
    }
}

impl PassView {
    /// The findings that a pass gives the editor: those of a report that was
    /// read, and none for any failure.
    pub open spec fn published(self) -> Seq<Diagnostic> {
        match self {
            PassView::Report(outcome) => outcome.published(),
            _ => Seq::empty(),
        }
    }
}

/// What the passes hold, one list of findings for each.
pub open spec fn pass_findings(passes: Seq<PluginPass>) -> Seq<Seq<Diagnostic>> {
    Seq::new(passes.len(), |i: int| passes[i]@.published())
}

impl ServerSettings {
    /// The calls that a save of `doc` sets off, in no stated order.
    pub fn plan_save(&self, doc: &SavedDocument) -> (plan: Vec<Invocation>)
        ensures
            is_plan(invocations(plan@), self.installed(), doc.path@, doc.ext()),
    {
        let mut plan: Vec<Invocation> = Vec::new();
        let extension = match &doc.extension {
            Some(extension) => extension,
            None => {
                return plan;
            },
        };
        let entries = installed_entries(&self.installed_plugins);
        let ghost installed = self.installed();
        let ghost listed = pair_views(entries@);
        let ghost ext = Some(extension@);
        let mut i: usize = 0;
        while i < entries.len()
            invariant
                i <= entries.len(),
                installed == self.installed(),
                listed == pair_views(entries@),
                lists(listed, installed),
                ext == Some(extension@),
                forall|k: int|
                    0 <= k < plan.len() ==> {
                        let id = (#[trigger] invocations(plan@)[k]).plugin_id;
                        &&& installed.contains_key(id)
                        &&& applies(installed[id], ext)
                        &&& invocations(plan@)[k] == invocation_for(id, installed[id], doc.path@)
                        &&& exists|e: int| 0 <= e < i && (#[trigger] listed[e]).0 == id
                    },
                forall|a: int, b: int|
                    0 <= a < plan.len() && 0 <= b < plan.len() && a != b ==> (
                    #[trigger] invocations(plan@)[a]).plugin_id != (#[trigger] invocations(
                        plan@,
                    )[b]).plugin_id,
                forall|e: int|
                    0 <= e < i && applies((#[trigger] listed[e]).1, ext) ==> exists|k: int|
                        0 <= k < plan.len() && (#[trigger] invocations(plan@)[k]).plugin_id
                            == listed[e].0,
            decreases entries.len() - i,
        {
            let ghost before = invocations(plan@);
            let setting = &entries[i].1;
            assert(listed[i as int] == (entries[i as int].0@, entries[i as int].1@));
            assert(installed.contains_key(listed[i as int].0));
            if contains_text(&setting.filetypes, extension) {
                let mut args = copy_texts(&setting.args);
                args.push(doc.path.clone());
                assert(texts(args@) =~= setting@.args.push(doc.path@));
                plan.push(
                    Invocation { plugin_id: entries[i].0.clone(), cmd: setting.cmd.clone(), args },
                );
                proof {
                    let after = invocations(plan@);
                    let last = plan.len() - 1;
                    assert(after[last] == invocation_for(listed[i as int].0, installed[listed[i as int].0], doc.path@));
                    assert forall|k: int| 0 <= k < plan.len() implies {
                        let id = (#[trigger] after[k]).plugin_id;
                        &&& installed.contains_key(id)
                        &&& applies(installed[id], ext)
                        &&& after[k] == invocation_for(id, installed[id], doc.path@)
                        &&& exists|e: int| 0 <= e < i + 1 && (#[trigger] listed[e]).0 == id
                    } by {
                        if k < last {
                            assert(after[k] == before[k]);
                            let e = choose|e: int| 0 <= e < i && (#[trigger] listed[e]).0 == before[k].plugin_id;
                            assert(0 <= e < i + 1 && listed[e].0 == after[k].plugin_id);
                        } else {
                            assert(listed[i as int].0 == after[k].plugin_id);
                        }
                    }
                    assert forall|a: int, b: int|
                        0 <= a < plan.len() && 0 <= b < plan.len() && a != b implies (
                    #[trigger] after[a]).plugin_id != (#[trigger] after[b]).plugin_id by {
                        if a < last && b < last {
                            assert(after[a] == before[a] && after[b] == before[b]);
                        } else {
                            let older = if a < last { a } else { b };
                            assert(after[older] == before[older]);
                            let e = choose|e: int| 0 <= e < i && (#[trigger] listed[e]).0 == before[older].plugin_id;
                            assert(listed[e].0 != listed[i as int].0);
                        }
                    }
                    assert forall|e: int|
                        0 <= e < i + 1 && applies((#[trigger] listed[e]).1, ext) implies exists|k: int|
                        0 <= k < plan.len() && (#[trigger] after[k]).plugin_id == listed[e].0 by {
                        if e < i {
                            let k = choose|k: int| 0 <= k < before.len() && (#[trigger] before[k]).plugin_id == listed[e].0;
                            assert(after[k] == before[k]);
                        } else {
                            assert(after[last].plugin_id == listed[e].0);
                        }
                    }
                }
            } else {
                assert(!applies(listed[i as int].1, ext));
            }
            i = i + 1;
        }
        proof {
            let done = invocations(plan@);
            assert forall|id: Seq<char>| #[trigger]
                installed.contains_key(id) && applies(installed[id], ext) implies exists|k: int|
                0 <= k < done.len() && (#[trigger] done[k]).plugin_id == id by {
                let e = choose|e: int| 0 <= e < listed.len() && (#[trigger] listed[e]).0 == id;
                assert(applies(listed[e].1, ext));
            }
        }
        plan
    }

    /// The installed tools that a save of `doc` passes over, each with its
    /// setting, in no stated order: those whose file types do not hold the
    /// file's extension, and all of them for a file without one.
    pub fn passed_over(&self, doc: &SavedDocument) -> (skipped: Vec<(String, PluginSetting)>)
        ensures
            lists(
                pair_views(skipped@),
                left_out(self.installed(), doc.ext()),
            ),
    {
        let mut skipped: Vec<(String, PluginSetting)> = Vec::new();
        let entries = installed_entries(&self.installed_plugins);
        let ghost installed = self.installed();
        let ghost listed = pair_views(entries@);
        let ghost ext = doc.ext();
        let mut i: usize = 0;
        while i < entries.len()
            invariant
                i <= entries.len(),
                installed == self.installed(),
                listed == pair_views(entries@),
                lists(listed, installed),
                ext == doc.ext(),
                forall|k: int|
                    0 <= k < skipped.len() ==> {
                        let pair = #[trigger] pair_views(skipped@)[k];
                        &&& installed.contains_key(pair.0)
                        &&& !applies(installed[pair.0], ext)
                        &&& installed[pair.0] == pair.1
                        &&& exists|e: int| 0 <= e < i && (#[trigger] listed[e]).0 == pair.0
                    },
                forall|a: int, b: int|
                    0 <= a < skipped.len() && 0 <= b < skipped.len() && a != b ==> (
                    #[trigger] pair_views(skipped@)[a]).0 != (#[trigger] pair_views(skipped@)[b]).0,
                forall|e: int|
                    0 <= e < i && !applies((#[trigger] listed[e]).1, ext) ==> exists|k: int|
                        0 <= k < skipped.len() && (#[trigger] pair_views(skipped@)[k]).0
                            == listed[e].0,
            decreases entries.len() - i,
        {
            let ghost before = pair_views(skipped@);
            let setting = &entries[i].1;
            assert(listed[i as int] == (entries[i as int].0@, entries[i as int].1@));
            assert(installed.contains_key(listed[i as int].0));
            let wanted = match &doc.extension {
                Some(extension) => contains_text(&setting.filetypes, extension),
                None => false,
            };
            assert(wanted == applies(listed[i as int].1, ext));
            if !wanted {
                skipped.push((entries[i].0.clone(), setting.duplicate()));
                proof {
                    let after = pair_views(skipped@);
                    let last = skipped.len() - 1;
                    assert(after[last] == listed[i as int]);
                    assert forall|k: int| 0 <= k < skipped.len() implies {
                        let pair = #[trigger] after[k];
                        &&& installed.contains_key(pair.0)
                        &&& !applies(installed[pair.0], ext)
                        &&& installed[pair.0] == pair.1
                        &&& exists|e: int| 0 <= e < i + 1 && (#[trigger] listed[e]).0 == pair.0
                    } by {
                        if k < last {
                            assert(after[k] == before[k]);
                            let e = choose|e: int|
                                0 <= e < i && (#[trigger] listed[e]).0 == before[k].0;
                            assert(0 <= e < i + 1 && listed[e].0 == after[k].0);
                        } else {
                            assert(listed[i as int].0 == after[k].0);
                        }
                    }
                    assert forall|a: int, b: int|
                        0 <= a < skipped.len() && 0 <= b < skipped.len() && a != b implies (
                    #[trigger] after[a]).0 != (#[trigger] after[b]).0 by {
                        if a < last && b < last {
                            assert(after[a] == before[a] && after[b] == before[b]);
                        } else {
                            let older = if a < last {
                                a
                            } else {
                                b
                            };
                            assert(after[older] == before[older]);
                            let e = choose|e: int|
                                0 <= e < i && (#[trigger] listed[e]).0 == before[older].0;
                            assert(listed[e].0 != listed[i as int].0);
                        }
                    }
                    assert forall|e: int|
                        0 <= e < i + 1 && !applies((#[trigger] listed[e]).1, ext) implies exists|
                        k: int,
                    | 0 <= k < skipped.len() && (#[trigger] after[k]).0 == listed[e].0 by {
                        if e < i {
                            let k = choose|k: int|
                                0 <= k < before.len() && (#[trigger] before[k]).0 == listed[e].0;
                            assert(after[k] == before[k]);
                        } else {
                            assert(after[last].0 == listed[e].0);
                        }
                    }
                }
            }
            i = i + 1;
        }
        proof {
            let done = pair_views(skipped@);
            let out = left_out(installed, ext);
            assert forall|id: Seq<char>| #[trigger] out.contains_key(id) implies exists|k: int|
                0 <= k < done.len() && (#[trigger] done[k]).0 == id by {
                let e = choose|e: int| 0 <= e < listed.len() && (#[trigger] listed[e]).0 == id;
                assert(!applies(listed[e].1, ext));
            }
            assert forall|k: int| 0 <= k < done.len() implies out.contains_key(
                (#[trigger] done[k]).0,
            ) && out[done[k].0] == done[k].1 by {}
        }
        skipped
    }

    /// What the tool `plugin_id` contributes to a save, from how its run
    /// ended. A tool that was not started contributes an error of execution
    /// and a tool that ran what its adapter reads from the run.
    pub fn report(&self, plugin_id: &str, run: &ToolRun) -> (pass: PluginPass)
        ensures
            pass@ == match registered(self.available_plugins@, plugin_id@) {
                None => PassView::UnknownPlugin,
                Some(adapter) => match run {
                    ToolRun::NotStarted => PassView::ExecutionError,
                    ToolRun::Finished(output) => PassView::Report(
                        reported(
                            output.stderr@,
                            match json_text(output.stdout@) {
                                Some(j) => adapter.report(j),
                                None => None,
                            },
                        ),
                    ),
                },
            },
    {
        let adapter = match self.lookup(plugin_id) {
            Some(adapter) => adapter,
            None => {
                return PluginPass::UnknownPlugin;
            },
        };
        match run {
            ToolRun::NotStarted => PluginPass::ExecutionError,
            ToolRun::Finished(output) => PluginPass::Report(adapter.run(output)),
        }
    }
}

/// The findings of a save: those of every pass, one pass after the other. A
/// pass that failed adds none and takes none away.
pub fn collect_diagnostics(passes: &Vec<PluginPass>) -> (all: Vec<PluginLineOutput>)
    ensures
        diagnostics(all@) == concat_all(pass_findings(passes@)),
{
    let mut all: Vec<PluginLineOutput> = Vec::new();
    let ghost parts = pass_findings(passes@);
    let mut i: usize = 0;
    assert(diagnostics(all@) =~= concat_all(parts.take(0)));
    while i < passes.len()
        invariant
            i <= passes.len(),
            parts == pass_findings(passes@),
            diagnostics(all@) == concat_all(parts.take(i as int)),
        decreases passes.len() - i,
    {
        let ghost before = diagnostics(all@);
        assert(parts.take(i + 1).drop_last() =~= parts.take(i as int));
        assert(parts.take(i + 1).last() == passes[i as int]@.published());
        match &passes[i] {
            PluginPass::Report(ReportOutcome::Diagnostics(output)) => {
                let mut k: usize = 0;
                while k < output.messages.len()
                    invariant
                        k <= output.messages.len(),
                        all.len() == before.len() + k,
                        forall|x: int| 0 <= x < before.len() ==> all[x]@ == before[x],
                        forall|x: int|
                            0 <= x < k ==> all[before.len() + x]@ == output.messages[x]@,
                    decreases output.messages.len() - k,
                {
                    let m = &output.messages[k];
                    all.push(
                        PluginLineOutput {
                            position: m.position,
                            text: m.text.clone(),
                            severity: m.severity,
                        },
                    );
                    k = k + 1;
                }
                assert(diagnostics(all@) =~= before + output@);
            },
            _ => {
                assert(before + passes[i as int]@.published() =~= before);
            },
        }
        i = i + 1;
    }
    assert(parts.take(i as int) =~= parts);
    all
}

/// A pass without findings, such as that of a tool that failed, leaves the
/// findings of the other passes as they are.
pub proof fn empty_pass_changes_nothing(parts: Seq<Seq<Diagnostic>>, at: int)
    requires
        0 <= at < parts.len(),
        parts[at].len() == 0,
    ensures
        concat_all(parts) == concat_all(parts.remove(at)),
    decreases parts.len(),
{
    if at == parts.len() - 1 {
        assert(parts.remove(at) =~= parts.drop_last());
        assert(concat_all(parts.drop_last()) + parts.last() =~= concat_all(parts.drop_last()));
    } else {
        empty_pass_changes_nothing(parts.drop_last(), at);
        assert(parts.remove(at).drop_last() =~= parts.drop_last().remove(at));
        assert(parts.remove(at).last() == parts.last());
    }
}

/// The text under `key` in an object, or the empty text where there is none.
pub open spec fn text_or_empty(v: JsonValue, key: Seq<char>) -> Seq<char> {
    match text_field(v, key) {
        Some(t) => t,
        None => Seq::empty(),
    }
}

/// The tokens of the text under `key` in an object: the pieces between the
/// occurrences of `delim`, so that a text that is there and empty has one
/// empty token. Where there is no text under `key`, there is no token.
pub open spec fn tokens_under(v: JsonValue, key: Seq<char>, delim: char) -> Seq<Seq<char>> {
    match text_field(v, key) {
        Some(raw) => split_tokens(raw, delim),
        None => Seq::empty(),
    }
}

/// What the editor wishes for one tool. An object may name a command under
/// `cmd`, arguments under `args`, with spaces between them, and file types
/// under `filetypes`, with commas between them. What it does not name, or
/// names with something that is no text, is left empty, and anything but an
/// object wishes nothing.
pub open spec fn wish_of(v: JsonValue) -> PluginSettingView {
    PluginSettingView {
        cmd: text_or_empty(v, "cmd"@),
        args: tokens_under(v, "args"@, ' '),
        filetypes: tokens_under(v, "filetypes"@, ','),
    }
}

/// `base`, with the tools that the members of one object ask for. A later
/// member with the same identifier takes the place of an earlier one.
pub open spec fn requested_in(
    members: Seq<(Seq<char>, JsonValue)>,
    base: Map<Seq<char>, PluginSettingView>,
) -> Map<Seq<char>, PluginSettingView>
    decreases members.len(),
{
    if members.len() == 0 {
        base
    } else {
        requested_in(members.drop_last(), base).insert(
            members.last().0,
            wish_of(members.last().1),
        )
    }
}

/// The tools that the editor's configuration asks for, each with the wishes
/// for it. Every item that is an object asks for the tools that its members
/// name; other items ask for nothing. A later item takes the place of an
/// earlier one for the same tool.
pub open spec fn requested(config: Seq<JsonValue>) -> Map<Seq<char>, PluginSettingView>
    decreases config.len(),
{
    if config.len() == 0 {
        no_settings()
    } else {
        let base = requested(config.drop_last());
        match config.last() {
            JsonValue::Object(members) => requested_in(members, base),
            _ => base,
        }
    }
}

/// Putting a setting under an identifier into a listing, in place of the one
/// listed under it or else at the end, gives a listing of the map with that
/// setting put in.
pub proof fn lists_after_put(
    before: Seq<(Seq<char>, PluginSettingView)>,
    after: Seq<(Seq<char>, PluginSettingView)>,
    m: Map<Seq<char>, PluginSettingView>,
    id: Seq<char>,
    setting: PluginSettingView,
)
    requires
        lists(before, m),
        (exists|at: int| 0 <= at < before.len() && (#[trigger] before[at]).0 == id && after == before.update(at, (id, setting)))
            || ((forall|at: int| 0 <= at < before.len() ==> (#[trigger] before[at]).0 != id) && after == before.push((id, setting))),
    ensures
        lists(after, m.insert(id, setting)),
{
    let m2 = m.insert(id, setting);
    if exists|at: int| 0 <= at < before.len() && (#[trigger] before[at]).0 == id && after == before.update(at, (id, setting)) {
        let at = choose|at: int| 0 <= at < before.len() && (#[trigger] before[at]).0 == id && after == before.update(at, (id, setting));
        assert forall|i: int| 0 <= i < after.len() implies m2.contains_key((#[trigger] after[i]).0) && m2[after[i].0] == after[i].1 by {
            if i != at {
                assert(after[i] == before[i]);
                assert(before[i].0 != before[at].0);
            }
        }
        assert forall|i: int, j: int| 0 <= i < after.len() && 0 <= j < after.len() && i != j implies (#[trigger] after[i]).0 != (#[trigger] after[j]).0 by {
            assert(after[i].0 == before[i].0);
            assert(after[j].0 == before[j].0);
        }
        assert forall|k: Seq<char>| #[trigger] m2.contains_key(k) implies exists|i: int| 0 <= i < after.len() && (#[trigger] after[i]).0 == k by {
            if k == id {
                assert(after[at].0 == k);
            } else {
                assert(m.contains_key(k));
                let i = choose|i: int| 0 <= i < before.len() && (#[trigger] before[i]).0 == k;
                assert(after[i].0 == k);
            }
        }
    } else {
        let last = before.len() as int;
        assert forall|i: int| 0 <= i < after.len() implies m2.contains_key((#[trigger] after[i]).0) && m2[after[i].0] == after[i].1 by {
            if i < last {
                assert(after[i] == before[i]);
            }
        }
        assert forall|i: int, j: int| 0 <= i < after.len() && 0 <= j < after.len() && i != j implies (#[trigger] after[i]).0 != (#[trigger] after[j]).0 by {
            if i < last {
                assert(after[i] == before[i]);
            }
            if j < last {
                assert(after[j] == before[j]);
            }
        }
        assert forall|k: Seq<char>| #[trigger] m2.contains_key(k) implies exists|i: int| 0 <= i < after.len() && (#[trigger] after[i]).0 == k by {
            if k == id {
                assert(after[last].0 == k);
            } else {
                assert(m.contains_key(k));
                let i = choose|i: int| 0 <= i < before.len() && (#[trigger] before[i]).0 == k;
                assert(after[i] == before[i]);
            }
        }
    }
}

/// Puts `setting` under `id` into the listing.
fn put(
    listing: &mut Vec<(String, PluginSetting)>,
    id: String,
    setting: PluginSetting,
    Ghost(m): Ghost<Map<Seq<char>, PluginSettingView>>,
)
    requires
        lists(pair_views(old(listing)@), m),
    ensures
        lists(pair_views(final(listing)@), m.insert(id@, setting@)),
{
    let ghost before = pair_views(listing@);
    let ghost wanted = (id@, setting@);
    let mut i: usize = 0;
    while i < listing.len()
        invariant
            i <= listing.len(),
            before == pair_views(listing@),
            wanted == (id@, setting@),
            lists(before, m),
            forall|k: int| 0 <= k < i ==> (#[trigger] before[k]).0 != id@,
        decreases listing.len() - i,
    {
        if listing[i].0 == id {
            assert(before[i as int].0 == id@);
            listing.set(i, (id, setting));
            proof {
                assert(pair_views(listing@) =~= before.update(i as int, wanted));
                lists_after_put(before, pair_views(listing@), m, wanted.0, wanted.1);
            }
            return ;
        }
        assert(before[i as int].0 != id@);
        i = i + 1;
    }
    listing.push((id, setting));
    proof {
        assert(pair_views(listing@) =~= before.push(wanted));
        lists_after_put(before, pair_views(listing@), m, wanted.0, wanted.1);
    }
}

/// Reads the tokens of the text under `key`.
pub fn read_tokens(v: &Json, key: &str, delim: char) -> (tokens: Vec<String>)
    ensures
        texts(tokens@) == tokens_under(v@, key@, delim),
{
    match read_text(v, key) {
        Some(raw) => split(raw.as_str(), delim),
        None => {
            let tokens: Vec<String> = Vec::new();
            assert(texts(tokens@) =~= Seq::<Seq<char>>::empty());
            tokens
        },
    }
}

/// Reads what the editor wishes for one tool.
pub fn read_wish(v: &Json) -> (wish: PluginSetting)
    ensures
        wish@ == wish_of(v@),
{
    let cmd = match read_text(v, "cmd") {
        Some(cmd) => cmd,
        None => String::new(),
    };
    let args = read_tokens(v, "args", ' ');
    let filetypes = read_tokens(v, "filetypes", ',');
    PluginSetting { cmd, args, filetypes }
}

/// Reads the editor's configuration: the tools that are asked for, each once
/// and with the wishes for it, in no stated order.
pub fn parse_client_editor_settings(config: &Vec<Json>) -> (wishes: Vec<(String, PluginSetting)>)
    ensures
        lists(pair_views(wishes@), requested(values(config@))),
{
    let mut wishes: Vec<(String, PluginSetting)> = Vec::new();
    let ghost items = values(config@);
    let mut i: usize = 0;
    assert(items.take(0) =~= Seq::<JsonValue>::empty());
    while i < config.len()
        invariant
            i <= config.len(),
            items == values(config@),
            lists(pair_views(wishes@), requested(items.take(i as int))),
        decreases config.len() - i,
    {
        let ghost base = requested(items.take(i as int));
        proof {
            assert(items.take(i + 1).drop_last() =~= items.take(i as int));
            assert(items.take(i + 1).last() == config[i as int]@);
        }
        match config[i].as_object() {
            Some(members) => {
                let ghost all = config[i as int]@->Object_0;
                let mut k: usize = 0;
                assert(all.take(0) =~= Seq::<(Seq<char>, JsonValue)>::empty());
                while k < members.len()
                    invariant
                        k <= members.len(),
                        all.len() == members.len(),
                        forall|x: int|
                            0 <= x < all.len() ==> all[x] == (members[x].0@, members[x].1@),
                        lists(pair_views(wishes@), requested_in(all.take(k as int), base)),
                    decreases members.len() - k,
                {
                    proof {
                        assert(all.take(k + 1).drop_last() =~= all.take(k as int));
                        assert(all.take(k + 1).last() == all[k as int]);
                    }
                    put(
                        &mut wishes,
                        members[k].0.clone(),
                        read_wish(&members[k].1),
                        Ghost(requested_in(all.take(k as int), base)),
                    );
                    k = k + 1;
                }
                assert(all.take(k as int) =~= all);
            },
            None => {},
        }
        i = i + 1;
    }
    assert(items.take(i as int) =~= items);
    wishes
}

} // verus!
