//! Stylelint, run from the project's `node_modules` or, without a copy
//! there, under its bare name.

use crate::json::{Json, JsonValue};
use crate::plugins::{
    column_field, int_field, line_field, listed, probe, read_column, read_line, read_listed,
    read_text, text_field, Defaults, DefaultsView, Diagnostic, Plugin, PluginLineOutput,
    PluginOutput, Position, Probe, ProbeStep, ReportEntry, Severity,
};
use crate::text::texts;
use vstd::prelude::*;
use vstd::string::*;

verus! {

/// The adapter for Stylelint.
#[derive(Debug, Default, Clone, Copy)]
pub struct StylelintPlugin;

/// The tool's kinds of finding: `warning` warns, `error` is an error, and
/// anything else is a note.
pub open spec fn stylelint_severity(kind: Seq<char>) -> Severity {
    if kind == "warning"@ {
        Severity::Warning
    } else if kind == "error"@ {
        Severity::Error
    } else {
        Severity::Info
    }
}

impl ReportEntry for StylelintPlugin {
    /// An entry has `line`, `column`, `endLine`, `endColumn`, `severity` and
    /// `text`. Both lines count from one, both columns are taken as they are,
    /// and the finding reaches from the one place to the other.
    open spec fn message(&self, m: JsonValue) -> Option<Diagnostic> {
        match (
            line_field(m, "line"@),
            column_field(m, "column"@),
            line_field(m, "endLine"@),
            column_field(m, "endColumn"@),
            text_field(m, "severity"@),
            text_field(m, "text"@),
        ) {
            (Some(line), Some(column), Some(line_end), Some(column_end), Some(kind), Some(text)) => Some(
                Diagnostic {
                    position: Position { line, column, line_end, column_end },
                    text,
                    severity: stylelint_severity(kind),
                },
            ),
            _ => None,
        }
    }

    fn read_message(&self, m: &Json) -> (r: Option<PluginLineOutput>) {
        let line = read_line(m, "line")?;
        let column = read_column(m, "column")?;
        let line_end = read_line(m, "endLine")?;
        let column_end = read_column(m, "endColumn")?;
        let kind = read_text(m, "severity")?;
        let text = read_text(m, "text")?;
        let severity = if kind == "warning".to_owned() {
            Severity::Warning
        } else if kind == "error".to_owned() {
            Severity::Error
        } else {
            Severity::Info
        };
        Some(
            PluginLineOutput {
                position: Position { line, column, line_end, column_end },
                text,
                severity,
            },
        )
    }
}

/// Stylelint's places: both lines are one less than the tool's, and both
/// columns are the tool's, the end column being the one that the tool gives
/// for the end.
pub proof fn stylelint_places(m: JsonValue)
    requires
        StylelintPlugin.message(m) is Some,
    ensures
        StylelintPlugin.message(m)->0.position.line == int_field(m, "line"@)->0 - 1,
        StylelintPlugin.message(m)->0.position.column == int_field(m, "column"@)->0,
        StylelintPlugin.message(m)->0.position.line_end == int_field(m, "endLine"@)->0 - 1,
        StylelintPlugin.message(m)->0.position.column_end == int_field(m, "endColumn"@)->0,
        StylelintPlugin.message(m)->0.text == text_field(m, "text"@)->0,
{
}

impl Plugin for StylelintPlugin {
    open spec fn id(&self) -> Seq<char> {
        "stylelint"@
    }

    open spec fn defaults(&self) -> DefaultsView {
        DefaultsView {
            local_bin: "/node_modules/.bin/stylelint"@,
            global_cmd: Some("stylelint"@),
            args: seq!["-f=json"@],
            filetypes: seq!["css"@, "less"@, "sass"@],
        }
    }

    /// A report is an array with one object for each file, which lists its
    /// entries under `warnings`.
    open spec fn report(&self, report: JsonValue) -> Option<Seq<Diagnostic>> {
        listed(self, report, "warnings"@)
    }

    fn get_plugin_id(&self) -> (id: &str) {
        "stylelint"
    }

    fn default_settings(&self) -> (d: Defaults) {
        let d = Defaults {
            local_bin: "/node_modules/.bin/stylelint".to_owned(),
            global_cmd: Some("stylelint".to_owned()),
            args: vec!["-f=json".to_owned()],
            filetypes: vec!["css".to_owned(), "less".to_owned(), "sass".to_owned()],
        };
        assert(texts(d.args@) =~= self.defaults().args);
        assert(texts(d.filetypes@) =~= self.defaults().filetypes);
        d
    }

    fn is_installed(&self, root_dir: &str, known: Probe) -> (step: ProbeStep) {
        probe(&self.default_settings(), root_dir, known)
    }

    fn normalize(&self, report: &Json) -> (r: Option<PluginOutput>) {
        read_listed(self, report, "warnings")
    }
}

} // verus!
