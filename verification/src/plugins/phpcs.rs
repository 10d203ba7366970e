//! PHP_CodeSniffer, run from the project's `vendor` directory or, without a
//! copy there, under its bare name.

use crate::json::{Json, JsonValue};
use crate::plugins::{
    column_field, int_field, keyed, line_field, point, probe, read_column, read_keyed, read_line,
    read_text, text_field, Defaults, DefaultsView, Diagnostic, Plugin, PluginLineOutput,
    PluginOutput, Position, Probe, ProbeStep, ReportEntry, Severity,
};
use crate::text::texts;
use vstd::prelude::*;
use vstd::string::*;

verus! {

/// The adapter for PHP_CodeSniffer.
#[derive(Debug, Default, Clone, Copy)]
pub struct PhpcsPlugin;

/// The tool's kinds of finding: `WARNING` warns, `ERROR` is an error, and
/// anything else is a note.
pub open spec fn phpcs_severity(kind: Seq<char>) -> Severity {
    if kind == "WARNING"@ {
        Severity::Warning
    } else if kind == "ERROR"@ {
        Severity::Error
    } else {
        Severity::Info
    }
}

impl ReportEntry for PhpcsPlugin {
    /// An entry has `message`, `line`, `column` and `type`. The line counts
    /// from one and the column is taken as it is; the finding is a point.
    open spec fn message(&self, m: JsonValue) -> Option<Diagnostic> {
        match (
            text_field(m, "message"@),
            line_field(m, "line"@),
            column_field(m, "column"@),
            text_field(m, "type"@),
        ) {
            (Some(text), Some(line), Some(column), Some(kind)) => Some(
                Diagnostic { position: point(line, column), text, severity: phpcs_severity(kind) },
            ),
            _ => None,
        }
    }

    fn read_message(&self, m: &Json) -> (r: Option<PluginLineOutput>) {
        let text = read_text(m, "message")?;
        let line = read_line(m, "line")?;
        let column = read_column(m, "column")?;
        let kind = read_text(m, "type")?;
        let severity = if kind == "WARNING".to_owned() {
            Severity::Warning
        } else if kind == "ERROR".to_owned() {
            Severity::Error
        } else {
            Severity::Info
        };
        Some(
            PluginLineOutput {
                position: Position { line, column, line_end: line, column_end: column },
                text,
                severity,
            },
        )
    }
}

/// The tool's places: the line is one less than the tool's, the column is
/// the tool's, and the end is the start.
pub proof fn phpcs_places(m: JsonValue)
    requires
        PhpcsPlugin.message(m) is Some,
    ensures
        PhpcsPlugin.message(m)->0.position.line == int_field(m, "line"@)->0 - 1,
        PhpcsPlugin.message(m)->0.position.column == int_field(m, "column"@)->0,
        PhpcsPlugin.message(m)->0.position.line_end == PhpcsPlugin.message(m)->0.position.line,
        PhpcsPlugin.message(m)->0.position.column_end == PhpcsPlugin.message(m)->0.position.column,
        PhpcsPlugin.message(m)->0.text == text_field(m, "message"@)->0,
{
}

impl Plugin for PhpcsPlugin {
    open spec fn id(&self) -> Seq<char> {
        "phpcs"@
    }

    open spec fn defaults(&self) -> DefaultsView {
        DefaultsView {
            local_bin: "/vendor/bin/phpcs"@,
            global_cmd: Some("phpcs"@),
            args: seq!["--report=json"@],
            filetypes: seq!["php"@],
        }
    }

    /// A report is an object whose member `files` holds one object for each
    /// file, under the file's path, with the entries under `messages`.
    open spec fn report(&self, report: JsonValue) -> Option<Seq<Diagnostic>> {
        keyed(self, report, "messages"@)
    }

    fn get_plugin_id(&self) -> (id: &str) {
        "phpcs"
    }

    fn default_settings(&self) -> (d: Defaults) {
        let d = Defaults {
            local_bin: "/vendor/bin/phpcs".to_owned(),
            global_cmd: Some("phpcs".to_owned()),
            args: vec!["--report=json".to_owned()],
            filetypes: vec!["php".to_owned()],
        };
        assert(texts(d.args@) =~= self.defaults().args);
        assert(texts(d.filetypes@) =~= self.defaults().filetypes);
        d
    }

    fn is_installed(&self, root_dir: &str, known: Probe) -> (step: ProbeStep) {
        probe(&self.default_settings(), root_dir, known)
    }

    fn normalize(&self, report: &Json) -> (r: Option<PluginOutput>) {
        read_keyed(self, report, "messages")
    }
}

} // verus!
