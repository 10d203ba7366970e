//! PHPStan, run from the project's `vendor` directory or, without a copy
//! there, under its bare name.

use crate::json::{Json, JsonValue};
use crate::plugins::{
    int_field, keyed, line_field, point, probe, read_keyed, read_line, read_text, text_field,
    Defaults, DefaultsView, Diagnostic, Plugin, PluginLineOutput, PluginOutput, Position, Probe,
    ProbeStep, ReportEntry, Severity,
};
use crate::text::texts;
use vstd::prelude::*;
use vstd::string::*;

verus! {

/// The adapter for PHPStan.
#[derive(Debug, Default, Clone, Copy)]
pub struct PhpstanPlugin;

/// The column given to every finding: the tool reports lines only.
pub const PHPSTAN_COLUMN: u32 = 1;

impl ReportEntry for PhpstanPlugin {
    /// An entry has `message` and `line`. The line counts from one; the
    /// finding is a point in the fixed column, and always an error.
    open spec fn message(&self, m: JsonValue) -> Option<Diagnostic> {
        match (text_field(m, "message"@), line_field(m, "line"@)) {
            (Some(text), Some(line)) => Some(
                Diagnostic { position: point(line, PHPSTAN_COLUMN), text, severity: Severity::Error },
            ),
            _ => None,
        }
    }

    fn read_message(&self, m: &Json) -> (r: Option<PluginLineOutput>) {
        let text = read_text(m, "message")?;
        let line = read_line(m, "line")?;
        Some(
            PluginLineOutput {
                position: Position {
                    line,
                    column: PHPSTAN_COLUMN,
                    line_end: line,
                    column_end: PHPSTAN_COLUMN,
                },
                text,
                severity: Severity::Error,
            },
        )
    }
}

/// The tool's places: the line is one less than the tool's, the column is
/// the fixed one, the end is the start, and every finding is an error.
pub proof fn phpstan_places(m: JsonValue)
    requires
        PhpstanPlugin.message(m) is Some,
    ensures
        PhpstanPlugin.message(m)->0.position.line == int_field(m, "line"@)->0 - 1,
        PhpstanPlugin.message(m)->0.position.column == PHPSTAN_COLUMN,
        PhpstanPlugin.message(m)->0.position.line_end == PhpstanPlugin.message(m)->0.position.line,
        PhpstanPlugin.message(m)->0.position.column_end == PHPSTAN_COLUMN,
        PhpstanPlugin.message(m)->0.severity == Severity::Error,
        PhpstanPlugin.message(m)->0.text == text_field(m, "message"@)->0,
{
}

impl Plugin for PhpstanPlugin {
    open spec fn id(&self) -> Seq<char> {
        "phpstan"@
    }

    open spec fn defaults(&self) -> DefaultsView {
        DefaultsView {
            local_bin: "/vendor/bin/phpstan"@,
            global_cmd: Some("phpstan"@),
            args: seq!["analyse"@, "--error-format=json"@],
            filetypes: seq!["php"@],
        }
    }

    /// A report is an object whose member `files` holds one object for each
    /// file, under the file's path, with the entries under `messages`.
    open spec fn report(&self, report: JsonValue) -> Option<Seq<Diagnostic>> {
        keyed(self, report, "messages"@)
    }

    fn get_plugin_id(&self) -> (id: &str) {
        "phpstan"
    }

    fn default_settings(&self) -> (d: Defaults) {
        let d = Defaults {
            local_bin: "/vendor/bin/phpstan".to_owned(),
            global_cmd: Some("phpstan".to_owned()),
            args: vec!["analyse".to_owned(), "--error-format=json".to_owned()],
            filetypes: vec!["php".to_owned()],
        };
        assert(texts(d.args@) =~= self.defaults().args);
        assert(texts(d.filetypes@) =~= self.defaults().filetypes);
        d
    }

    fn is_installed(&self, root_dir: &str, known: Probe) -> (step: ProbeStep) {
        probe(&self.default_settings(), root_dir, known)
    }

    fn normalize(&self, report: &Json) -> (r: Option<PluginOutput>) {
        read_keyed(self, report, "messages")
    }
}

} // verus!
